use vstd::prelude::*;
use vstd::string::StrSliceExecFns;

verus! {

/// The pieces of `s` between the occurrences of `sep`, in order. Always at
/// least one piece: an empty text gives one empty piece.
pub open spec fn split_on(s: Seq<char>, sep: char) -> Seq<Seq<char>>
    decreases s.len(),
{
    if s.len() == 0 {
        seq![Seq::empty()]
    } else {
        let p = split_on(s.drop_last(), sep);
        if s.last() == sep {
            p.push(Seq::empty())
        } else {
            p.update(p.len() - 1, p.last().push(s.last()))
        }
    }
}

pub proof fn lemma_split_on_nonempty(s: Seq<char>, sep: char)
    ensures
        split_on(s, sep).len() >= 1,
    decreases s.len(),
{
    if s.len() > 0 {
        lemma_split_on_nonempty(s.drop_last(), sep);
    }
}

pub open spec fn is_digit(c: char) -> bool {
    '0' <= c && c <= '9'
}

/// The value of a string of decimal digits.
pub open spec fn digits_value(d: Seq<char>) -> nat
    decreases d.len(),
{
    if d.len() == 0 {
        0
    } else {
        digits_value(d.drop_last()) * 10 + ((d.last() as int) - ('0' as int)) as nat
    }
}

/// The unsigned 64-bit integer that a text denotes: an optional `+`, then one
/// or more decimal digits, with a value that fits in 64 bits.
pub open spec fn u64_text(s: Seq<char>) -> Option<u64> {
    let d = if s.len() > 0 && s[0] == '+' {
        s.drop_first()
    } else {
        s
    };
    if d.len() > 0 && (forall|i: int| 0 <= i < d.len() ==> is_digit(#[trigger] d[i]))
        && digits_value(d) <= u64::MAX {
        Some(digits_value(d) as u64)
    } else {
        None
    }
}

/// Relies on `<u64 as FromStr>::from_str`: an optional `+` followed by decimal
/// digits whose value fits in a `u64`; anything else is an error.
#[verifier::external_body]
fn parse_u64(s: &str) -> (r: Option<u64>)
    ensures
        r == u64_text(s@),
{
    s.parse::<u64>().ok()
}

/// Splits `s` at every occurrence of `sep`.
pub fn split_text(s: &str, sep: char) -> (r: Vec<String>)
    ensures
        r@.map_values(|p: String| p@) == split_on(s@, sep),
{
    let n = s.unicode_len();
    let mut pieces: Vec<String> = Vec::new();
    let mut start: usize = 0;
    let mut i: usize = 0;
    proof {
        assert(s@.subrange(0, 0) =~= Seq::<char>::empty());
        assert(pieces@.map_values(|p: String| p@) =~= Seq::<Seq<char>>::empty());
        assert(pieces@.map_values(|p: String| p@).push(s@.subrange(0, 0)) =~= seq![Seq::<char>::empty()]);
    }
    while i < n
        invariant
            n == s@.len(),
            start <= i <= n,
            split_on(s@.subrange(0, i as int), sep) == pieces@.map_values(|p: String| p@).push(
                s@.subrange(start as int, i as int),
            ),
        decreases n - i,
    {
        let c = s.get_char(i);
        let ghost prev = pieces@.map_values(|p: String| p@);
        proof {
            assert(s@.subrange(0, i + 1).drop_last() =~= s@.subrange(0, i as int));
        }
        if c == sep {
            let ghost from = start;
            let piece = s.substring_char(start, i).to_string();
            pieces.push(piece);
            start = i + 1;
            proof {
                assert(pieces@.map_values(|p: String| p@) =~= prev.push(s@.subrange(from as int, i as int)));
                assert(s@.subrange(start as int, i + 1) =~= Seq::<char>::empty());
            }
        } else {
            proof {
                assert(s@.subrange(start as int, i + 1) =~= s@.subrange(start as int, i as int).push(c));
                assert(prev.push(s@.subrange(start as int, i as int)).update(prev.len() as int, s@.subrange(start as int, i + 1))
                    =~= prev.push(s@.subrange(start as int, i + 1)));
            }
        }
        i = i + 1;
    }
    let last = s.substring_char(start, n).to_string();
    pieces.push(last);
    proof {
        assert(s@.subrange(0, n as int) =~= s@);
    }
    pieces
}

} // verus!

verus! {

/// Why a key-share configuration text was refused.
#[derive(Clone, Copy, Debug, PartialEq, Eq, Structural)]
pub enum KeyConfigError {
    /// The text does not split into exactly two `:`-separated parts.
    Format,
    /// The part before `:` does not split into exactly two `,`-separated parts.
    ShareFormat,
    /// The share or the total is not an unsigned 64-bit integer.
    InvalidNumber,
}

/// One key-share configuration: `share` of `m` signatures over `keys`.
#[derive(Clone, Debug)]
pub struct MiningKeyConfig {
    pub share: u64,
    pub m: u64,
    pub keys: Vec<String>,
}

/// The model of a configuration: share, total and the keys in order.
pub type KeyShare = (u64, u64, Seq<Seq<char>>);

impl View for MiningKeyConfig {
    type V = KeyShare;

    open spec fn view(&self) -> KeyShare {
        (self.share, self.m, self.keys@.map_values(|k: String| k@))
    }
}

pub open spec fn key_shares(v: Seq<MiningKeyConfig>) -> Seq<KeyShare> {
    v.map_values(|c: MiningKeyConfig| c@)
}

/// What parsing `"share,m:key1,key2,..."` yields.
pub open spec fn parse_spec(s: Seq<char>) -> Result<KeyShare, KeyConfigError> {
    let parts = split_on(s, ':');
    if parts.len() != 2 {
        Err(KeyConfigError::Format)
    } else {
        let sm = split_on(parts[0], ',');
        if sm.len() != 2 {
            Err(KeyConfigError::ShareFormat)
        } else {
            match (u64_text(sm[0]), u64_text(sm[1])) {
                (Some(share), Some(m)) => Ok((share, m, split_on(parts[1], ','))),
                _ => Err(KeyConfigError::InvalidNumber),
            }
        }
    }
}

impl MiningKeyConfig {
    /// Parses `"share,m:key1,key2,..."`. Only the syntax is checked: a total
    /// of zero is accepted, and an empty key list is one empty key.
    pub fn parse(s: &str) -> (r: Result<MiningKeyConfig, KeyConfigError>)
        ensures
            match r {
                Ok(c) => parse_spec(s@) == Ok::<KeyShare, KeyConfigError>(c@),
                Err(e) => parse_spec(s@) == Err::<KeyShare, KeyConfigError>(e),
            },
    {
        let parts = split_text(s, ':');
        proof {
            assert(parts@.map_values(|p: String| p@).len() == parts@.len());
        }
        if parts.len() != 2 {
            return Err(KeyConfigError::Format);
        }
        proof {
            assert(parts@.map_values(|p: String| p@)[0] == parts@[0]@);
            assert(parts@.map_values(|p: String| p@)[1] == parts@[1]@);
        }
        let share_m = split_text(parts[0].as_str(), ',');
        proof {
            assert(share_m@.map_values(|p: String| p@).len() == share_m@.len());
        }
        if share_m.len() != 2 {
            return Err(KeyConfigError::ShareFormat);
        }
        proof {
            assert(share_m@.map_values(|p: String| p@)[0] == share_m@[0]@);
            assert(share_m@.map_values(|p: String| p@)[1] == share_m@[1]@);
        }
        let share = match parse_u64(share_m[0].as_str()) {
            Some(v) => v,
            None => return Err(KeyConfigError::InvalidNumber),
        };
        let m = match parse_u64(share_m[1].as_str()) {
            Some(v) => v,
            None => return Err(KeyConfigError::InvalidNumber),
        };
        let keys = split_text(parts[1].as_str(), ',');
        Ok(MiningKeyConfig { share, m, keys })
    }
}

impl std::str::FromStr for MiningKeyConfig {
    type Err = KeyConfigError;

    fn from_str(s: &str) -> Result<MiningKeyConfig, KeyConfigError> {
        MiningKeyConfig::parse(s)
    }
}

} // verus!

use vstd::prelude::*;
use vstd::utf8::encode_utf8;

verus! {

/// A structured term exchanged with the node and with a kernel: an atom (a
/// natural number, held as its little-endian bytes with no trailing zero byte)
/// or a cell of two terms.
#[derive(Debug, PartialEq, Eq)]
pub enum Noun {
    Atom(Vec<u8>),
    Cell(Box<Noun>, Box<Noun>),
}

/// The mathematical value of a [`Noun`].
pub enum NounModel {
    Atom(Seq<u8>),
    Cell(Box<NounModel>, Box<NounModel>),
}

pub open spec fn noun_view(n: &Noun) -> NounModel
    decreases n,
{
    match n {
        Noun::Atom(b) => NounModel::Atom(b@),
        Noun::Cell(h, t) => NounModel::Cell(Box::new(noun_view(h)), Box::new(noun_view(t))),
    }
}

impl View for Noun {
    type V = NounModel;

    open spec fn view(&self) -> NounModel {
        noun_view(self)
    }
}

/// Drops the trailing zero bytes of a little-endian byte string.
pub open spec fn trim_zeros(b: Seq<u8>) -> Seq<u8>
    decreases b.len(),
{
    if b.len() > 0 && b.last() == 0 {
        trim_zeros(b.drop_last())
    } else {
        b
    }
}

/// The little-endian bytes of a number, without trailing zero bytes.
pub open spec fn le_bytes(n: nat) -> Seq<u8>
    decreases n,
{
    if n == 0 {
        Seq::empty()
    } else {
        seq![(n % 256) as u8] + le_bytes(n / 256)
    }
}

/// The atom whose value is the number `n`.
pub open spec fn num_atom(n: nat) -> NounModel {
    NounModel::Atom(le_bytes(n))
}

/// The atom that holds the UTF-8 bytes of a text (a cord).
pub open spec fn cord(s: Seq<char>) -> NounModel {
    NounModel::Atom(trim_zeros(encode_utf8(s)))
}

pub open spec fn cell(h: NounModel, t: NounModel) -> NounModel {
    NounModel::Cell(Box::new(h), Box::new(t))
}

/// A null-terminated list of terms, in the given order.
pub open spec fn noun_list(items: Seq<NounModel>) -> NounModel
    decreases items.len(),
{
    if items.len() == 0 {
        num_atom(0)
    } else {
        cell(items[0], noun_list(items.drop_first()))
    }
}

/// Whether a term is a cell whose head is the cord of `tag`.
pub open spec fn has_tag(n: NounModel, tag: Seq<char>) -> bool {
    match n {
        NounModel::Cell(h, _) => *h == cord(tag),
        NounModel::Atom(_) => false,
    }
}

pub proof fn lemma_noun_list_step(items: Seq<NounModel>, i: int)
    requires
        0 <= i < items.len(),
    ensures
        noun_list(items.subrange(i, items.len() as int)) == cell(
            items[i],
            noun_list(items.subrange(i + 1, items.len() as int)),
        ),
{
    let s = items.subrange(i, items.len() as int);
    assert(s.drop_first() =~= items.subrange(i + 1, items.len() as int));
}

impl Noun {
    /// The atom holding `n`.
    pub fn from_u64(n: u64) -> (r: Noun)
        ensures
            r@ == num_atom(n as nat),
    {
        let mut bytes: Vec<u8> = Vec::new();
        let mut rest: u64 = n;
        while rest > 0
            invariant
                bytes@ + le_bytes(rest as nat) == le_bytes(n as nat),
            decreases rest,
        {
            let ghost old_bytes = bytes@;
            let ghost old_rest = rest as nat;
            bytes.push((rest % 256) as u8);
            rest = rest / 256;
            assert(le_bytes(old_rest) == seq![(old_rest % 256) as u8] + le_bytes(rest as nat));
            assert(bytes@ + le_bytes(rest as nat) =~= old_bytes + le_bytes(old_rest));
        }
        assert(bytes@ + le_bytes(0) =~= bytes@);
        Noun::Atom(bytes)
    }

    /// The cord of a text: its UTF-8 bytes as an atom.
    pub fn from_str(s: &str) -> (r: Noun)
        ensures
            r@ == cord(s@),
    {
        let src = s.as_bytes();
        let mut end: usize = src.len();
        assert(src@.subrange(0, end as int) =~= src@);
        while end > 0 && src[end - 1] == 0
            invariant
                end <= src@.len(),
                trim_zeros(src@.subrange(0, end as int)) == trim_zeros(src@),
            decreases end,
        {
            assert(src@.subrange(0, end as int).drop_last() =~= src@.subrange(0, end - 1));
            end = end - 1;
        }
        assert(trim_zeros(src@.subrange(0, end as int)) == src@.subrange(0, end as int));
        let mut bytes: Vec<u8> = Vec::new();
        let mut i: usize = 0;
        while i < end
            invariant
                i <= end <= src@.len(),
                bytes@ == src@.subrange(0, i as int),
            decreases end - i,
        {
            bytes.push(src[i]);
            i = i + 1;
            assert(bytes@ =~= src@.subrange(0, i as int));
        }
        Noun::Atom(bytes)
    }

    /// A copy of this term.
    pub fn duplicate(&self) -> (r: Noun)
        ensures
            r@ == self@,
        decreases self,
    {
        match self {
            Noun::Atom(b) => Noun::Atom(b.clone()),
            Noun::Cell(h, t) => Noun::cell((**h).duplicate(), (**t).duplicate()),
        }
    }

    pub fn cell(h: Noun, t: Noun) -> (r: Noun)
        ensures
            r@ == cell(h@, t@),
    {
        Noun::Cell(Box::new(h), Box::new(t))
    }

    /// Whether this term is a cell whose head is the cord of `tag`.
    pub fn is_tagged(&self, tag: &str) -> (r: bool)
        ensures
            r == has_tag(self@, tag@),
    {
        match self {
            Noun::Cell(h, _) => match &**h {
                Noun::Atom(b) => {
                    let t = Noun::from_str(tag);
                    match t {
                        Noun::Atom(tb) => {
                            assert(noun_view(&**h) == NounModel::Atom(b@));
                            bytes_eq(b, &tb)
                        },
                        Noun::Cell(_, _) => false,
                    }
                },
                Noun::Cell(_, _) => false,
            },
            Noun::Atom(_) => false,
        }
    }
}

fn bytes_eq(a: &Vec<u8>, b: &Vec<u8>) -> (r: bool)
    ensures
        r == (a@ == b@),
{
    if a.len() != b.len() {
        return false;
    }
    let mut i: usize = 0;
    while i < a.len()
        invariant
            a@.len() == b@.len(),
            i <= a@.len(),
            forall|j: int| 0 <= j < i ==> a@[j] == b@[j],
        decreases a@.len() - i,
    {
        if a[i] != b[i] {
            return false;
        }
        i = i + 1;
    }
    assert(a@ =~= b@);
    true
}

} // verus!

verus! {

/// The models of a sequence of terms.
pub open spec fn models(v: Seq<Noun>) -> Seq<NounModel> {
    v.map_values(|n: Noun| n@)
}

/// Builds the null-terminated list of `items`, keeping their order.
pub fn noun_list_of(items: Vec<Noun>) -> (r: Noun)
    ensures
        r@ == noun_list(models(items@)),
{
    let ghost all = models(items@);
    let mut items = items;
    let mut acc = Noun::from_u64(0);
    proof {
        assert(all.subrange(all.len() as int, all.len() as int) =~= Seq::<NounModel>::empty());
    }
    while items.len() > 0
        invariant
            items@.len() <= all.len(),
            models(items@) == all.subrange(0, items@.len() as int),
            acc@ == noun_list(all.subrange(items@.len() as int, all.len() as int)),
        decreases items@.len(),
    {
        let ghost k = items@.len() - 1;
        let ghost before = items@;
        let last = items.pop().unwrap();
        proof {
            assert(models(before)[k] == all.subrange(0, before.len() as int)[k]);
            assert(all[k] == last@);
            lemma_noun_list_step(all, k);
            assert(models(items@) =~= all.subrange(0, items@.len() as int));
        }
        acc = Noun::cell(last, acc);
    }
    proof {
        assert(all.subrange(0, all.len() as int) =~= all);
    }
    acc
}

} // verus!

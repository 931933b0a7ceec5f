use vstd::prelude::*;
use crate::key_config::{KeyShare, MiningKeyConfig, key_shares};
use crate::noun::{Noun, NounModel, cell, cord, models, noun_list, noun_list_of, num_atom};

verus! {

/// `[%command %set-mining-key key]`
pub open spec fn single_key_command(key: Seq<char>) -> NounModel {
    cell(cord("command"@), cell(cord("set-mining-key"@), cord(key)))
}

/// One configuration as `[share m keys]`, the keys as a list in their order.
pub open spec fn config_term(c: KeyShare) -> NounModel {
    cell(num_atom(c.0 as nat), cell(num_atom(c.1 as nat), noun_list(c.2.map_values(|k: Seq<char>| cord(k)))))
}

/// `[%command %set-mining-key-advanced configs]`, the configurations as a list
/// in their order.
pub open spec fn advanced_key_command(cs: Seq<KeyShare>) -> NounModel {
    cell(
        cord("command"@),
        cell(cord("set-mining-key-advanced"@), noun_list(cs.map_values(|c: KeyShare| config_term(c)))),
    )
}

/// One configuration of share 1 of 1 over a single key.
pub open spec fn is_simple(cs: Seq<KeyShare>) -> bool {
    cs.len() == 1 && cs[0].0 == 1 && cs[0].1 == 1 && cs[0].2.len() == 1
}

/// The command that configures the mining keys.
pub open spec fn key_command(cs: Seq<KeyShare>) -> NounModel {
    if is_simple(cs) {
        single_key_command(cs[0].2[0])
    } else {
        advanced_key_command(cs)
    }
}

/// `[%command %enable-mining flag]`, where the flag is 0 to enable and 1 to
/// disable.
pub open spec fn enable_command(enable: bool) -> NounModel {
    cell(cord("command"@), cell(cord("enable-mining"@), num_atom(if enable { 0 } else { 1 })))
}

fn tagged_command(verb: &str, payload: Noun) -> (r: Noun)
    ensures
        r@ == cell(cord("command"@), cell(cord(verb@), payload@)),
{
    let tag = Noun::from_str("command");
    let v = Noun::from_str(verb);
    Noun::cell(tag, Noun::cell(v, payload))
}

/// The command that sets a single mining key.
pub fn set_mining_key(pubkey: &str) -> (r: Noun)
    ensures
        r@ == single_key_command(pubkey@),
{
    tagged_command("set-mining-key", Noun::from_str(pubkey))
}

/// `[share m keys]` for one configuration.
pub fn config_noun(c: &MiningKeyConfig) -> (r: Noun)
    ensures
        r@ == config_term(c@),
{
    let ghost keys = c@.2;
    let mut atoms: Vec<Noun> = Vec::new();
    let mut i: usize = 0;
    while i < c.keys.len()
        invariant
            i <= c.keys@.len(),
            keys == c.keys@.map_values(|k: String| k@),
            models(atoms@) == keys.subrange(0, i as int).map_values(|k: Seq<char>| cord(k)),
        decreases c.keys@.len() - i,
    {
        let a = Noun::from_str(c.keys[i].as_str());
        let ghost before = atoms@;
        atoms.push(a);
        i = i + 1;
        proof {
            assert(keys[i - 1] == c.keys@[i - 1]@);
            assert(models(atoms@) =~= models(before).push(cord(keys[i - 1])));
            assert(keys.subrange(0, i as int).map_values(|k: Seq<char>| cord(k)) =~= keys.subrange(
                0,
                i - 1,
            ).map_values(|k: Seq<char>| cord(k)).push(cord(keys[i - 1])));
        }
    }
    proof {
        assert(keys.subrange(0, i as int) =~= keys);
    }
    let list = noun_list_of(atoms);
    Noun::cell(Noun::from_u64(c.share), Noun::cell(Noun::from_u64(c.m), list))
}

/// The command that sets several mining keys, keeping the order of the
/// configurations and of the keys within each.
pub fn set_mining_key_advanced(configs: &Vec<MiningKeyConfig>) -> (r: Noun)
    ensures
        r@ == advanced_key_command(key_shares(configs@)),
{
    let ghost cs = key_shares(configs@);
    let mut terms: Vec<Noun> = Vec::new();
    let mut i: usize = 0;
    while i < configs.len()
        invariant
            i <= configs@.len(),
            cs == key_shares(configs@),
            models(terms@) == cs.subrange(0, i as int).map_values(|c: KeyShare| config_term(c)),
        decreases configs@.len() - i,
    {
        let t = config_noun(&configs[i]);
        let ghost before = terms@;
        terms.push(t);
        i = i + 1;
        proof {
            assert(cs[i - 1] == configs@[i - 1]@);
            assert(models(terms@) =~= models(before).push(config_term(cs[i - 1])));
            assert(cs.subrange(0, i as int).map_values(|c: KeyShare| config_term(c)) =~= cs.subrange(
                0,
                i - 1,
            ).map_values(|c: KeyShare| config_term(c)).push(config_term(cs[i - 1])));
        }
    }
    proof {
        assert(cs.subrange(0, i as int) =~= cs);
    }
    tagged_command("set-mining-key-advanced", noun_list_of(terms))
}

/// Whether the configurations take the single-key command.
pub fn is_single_key(configs: &Vec<MiningKeyConfig>) -> (r: bool)
    ensures
        r == is_simple(key_shares(configs@)),
{
    configs.len() == 1 && configs[0].share == 1 && configs[0].m == 1 && configs[0].keys.len() == 1
}

/// The command that configures the mining keys: the single-key command for one
/// configuration of share 1 of 1 over one key, the advanced command otherwise.
pub fn key_config_command(configs: &Vec<MiningKeyConfig>) -> (r: Noun)
    ensures
        r@ == key_command(key_shares(configs@)),
{
    if is_single_key(configs) {
        proof {
            assert(key_shares(configs@)[0] == configs@[0]@);
            assert(configs@[0]@.2[0] == configs@[0].keys@[0]@);
        }
        set_mining_key(configs[0].keys[0].as_str())
    } else {
        set_mining_key_advanced(configs)
    }
}

/// The command that turns searching on or off.
pub fn enable_mining(enable: bool) -> (r: Noun)
    ensures
        r@ == enable_command(enable),
{
    let flag: u64 = if enable { 0 } else { 1 };
    tagged_command("enable-mining", Noun::from_u64(flag))
}

} // verus!

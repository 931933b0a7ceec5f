use vstd::prelude::*;
use crate::attempt::{AttemptOutcome, commands_of, forwards_spec};
use crate::command::{
    advanced_key_command, config_term, enable_command, is_simple, key_command, single_key_command,
};
use crate::driver::{
    ActionModel, DriverModel, driver_wf, on_candidate_spec, on_finished_spec, startup_spec,
};
use crate::key_config::{KeyConfigError, KeyShare, parse_spec, split_on};
use crate::noun::{NounModel, cord, has_tag, noun_list, num_atom};
use crate::wire::MiningWire;

verus! {

/// The items of a null-terminated list, read back in order.
pub open spec fn list_items(n: NounModel) -> Seq<NounModel>
    decreases n,
{
    match n {
        NounModel::Cell(h, t) => seq![*h] + list_items(*t),
        NounModel::Atom(_) => Seq::empty(),
    }
}

/// The payload of a command `[%command verb payload]`.
pub open spec fn command_payload(n: NounModel) -> NounModel {
    match n {
        NounModel::Cell(_, r) => match *r {
            NounModel::Cell(_, p) => *p,
            _ => n,
        },
        _ => n,
    }
}

/// The parts of a configuration term `[share m keys]`: the share, the total
/// and the keys read back as a list.
pub open spec fn config_parts(n: NounModel) -> (NounModel, NounModel, Seq<NounModel>) {
    match n {
        NounModel::Cell(s, r) => match *r {
            NounModel::Cell(m, k) => (*s, *m, list_items(*k)),
            _ => (n, n, Seq::empty()),
        },
        _ => (n, n, Seq::empty()),
    }
}

/// How often `c` occurs in `s`.
pub open spec fn occurrences(s: Seq<char>, c: char) -> nat
    decreases s.len(),
{
    if s.len() == 0 {
        0
    } else {
        occurrences(s.drop_last(), c) + if s.last() == c {
            1nat
        } else {
            0nat
        }
    }
}

/// Reading a list back gives its items in the order they were put in.
pub proof fn lemma_list_round_trip(items: Seq<NounModel>)
    ensures
        list_items(noun_list(items)) == items,
    decreases items.len(),
{
    if items.len() > 0 {
        lemma_list_round_trip(items.drop_first());
        assert(seq![items[0]] + items.drop_first() =~= items);
    }
}

/// A text splits into one more piece than it has separators.
pub proof fn lemma_split_count(s: Seq<char>, sep: char)
    ensures
        split_on(s, sep).len() == occurrences(s, sep) + 1,
    decreases s.len(),
{
    if s.len() > 0 {
        lemma_split_count(s.drop_last(), sep);
    }
}

/// Parsing a configuration and encoding it as the advanced command keeps its
/// share, its total and its keys, in the order in which the text gives them.
pub proof fn lemma_parse_then_encode(s: Seq<char>)
    requires
        parse_spec(s) is Ok,
    ensures
        ({
            let c = parse_spec(s)->Ok_0;
            let entries = list_items(command_payload(advanced_key_command(seq![c])));
            &&& c.2 == split_on(split_on(s, ':')[1], ',')
            &&& entries.len() == 1
            &&& config_parts(entries[0]) == (
                num_atom(c.0 as nat),
                num_atom(c.1 as nat),
                c.2.map_values(|k: Seq<char>| cord(k)),
            )
        }),
{
    let c = parse_spec(s)->Ok_0;
    let cs = seq![c];
    lemma_list_round_trip(cs.map_values(|x: KeyShare| config_term(x)));
    lemma_list_round_trip(c.2.map_values(|k: Seq<char>| cord(k)));
    assert(cs.map_values(|x: KeyShare| config_term(x)) =~= seq![config_term(c)]);
}

/// A configuration text is refused as malformed exactly when it does not hold
/// exactly one colon.
pub proof fn lemma_parse_needs_one_colon(s: Seq<char>)
    ensures
        (parse_spec(s) == Err::<KeyShare, KeyConfigError>(KeyConfigError::Format)) <==> occurrences(
            s,
            ':',
        ) != 1,
{
    lemma_split_count(s, ':');
}

/// After a colon with nothing behind it, the key list is one empty key.
pub proof fn lemma_empty_keys_part(s: Seq<char>)
    requires
        parse_spec(s) is Ok,
        split_on(s, ':')[1].len() == 0,
    ensures
        parse_spec(s)->Ok_0.2 == seq![Seq::<char>::empty()],
{
}

/// One configuration of share 1 of 1 over one key takes the single-key
/// command; every other list of configurations takes the advanced command.
pub proof fn lemma_key_command_path(cs: Seq<KeyShare>)
    ensures
        is_simple(cs) <==> (cs.len() == 1 && cs[0].0 == 1 && cs[0].1 == 1 && cs[0].2.len() == 1),
        is_simple(cs) ==> key_command(cs) == single_key_command(cs[0].2[0]),
        !is_simple(cs) ==> key_command(cs) == advanced_key_command(cs),
{
}

/// While attempts run, of several candidates that arrive only the last one
/// waits, and none is dispatched on arrival.
pub proof fn lemma_last_candidate_waits(s: DriverModel, c1: NounModel, c2: NounModel, c3: NounModel)
    requires
        driver_wf(s),
        s.enabled,
        s.in_flight > 0,
    ensures
        ({
            let (s1, a1) = on_candidate_spec(s, c1);
            let (s2, a2) = on_candidate_spec(s1, c2);
            let (s3, a3) = on_candidate_spec(s2, c3);
            &&& a1 == ActionModel::Wait
            &&& a2 == ActionModel::Wait
            &&& a3 == ActionModel::Wait
            &&& s3.queued == Some(c3)
            &&& s3.in_flight == s.in_flight
            &&& on_finished_spec(s3).1 == ActionModel::Dispatch(c3, s.core_budget)
        }),
{
}

/// When an attempt finishes and a candidate waits, exactly `core_budget`
/// attempts are dispatched for it and nothing waits any more.
pub proof fn lemma_waiting_candidate_dispatched(s: DriverModel)
    requires
        driver_wf(s),
        s.in_flight > 0,
        s.queued is Some,
    ensures
        on_finished_spec(s).1 == ActionModel::Dispatch(s.queued->Some_0, s.core_budget),
        on_finished_spec(s).0.queued is None,
        on_finished_spec(s).0.in_flight == s.in_flight - 1 + s.core_budget,
{
}

/// No event changes the number of attempts per candidate, and every event
/// keeps the scheduler's invariant.
pub proof fn lemma_budget_fixed(s: DriverModel, c: NounModel)
    requires
        driver_wf(s),
    ensures
        on_candidate_spec(s, c).0.core_budget == s.core_budget,
        driver_wf(on_candidate_spec(s, c).0),
        s.in_flight > 0 ==> on_finished_spec(s).0.core_budget == s.core_budget,
        s.in_flight > 0 ==> driver_wf(on_finished_spec(s).0),
{
}

/// An attempt whose kernel did not start in time forwards nothing, and its
/// end is counted off the running attempts.
pub proof fn lemma_timed_out_attempt(s: DriverModel)
    requires
        driver_wf(s),
        s.in_flight > 0,
        s.queued is None,
    ensures
        forwards_spec(AttemptOutcome::KernelLoadTimedOut) == Seq::<NounModel>::empty(),
        on_finished_spec(s).0.in_flight == s.in_flight - 1,
        on_finished_spec(s).1 == ActionModel::Wait,
{
}

/// Of a `command` message and a message with another tag, only the first is
/// forwarded.
pub proof fn lemma_one_command_forwarded(a: NounModel, b: NounModel)
    requires
        has_tag(a, "command"@),
        !has_tag(b, "command"@),
    ensures
        commands_of(seq![a, b]) == seq![a],
{
    let ab = seq![a, b];
    assert(ab.drop_last() =~= seq![a]);
    assert(ab.last() == b);
    assert(commands_of(ab) == commands_of(seq![a]));
    assert(seq![a].drop_last() =~= Seq::<NounModel>::empty());
    assert(seq![a].last() == a);
    assert(commands_of(seq![a]) == commands_of(Seq::<NounModel>::empty()).push(a));
    assert(Seq::<NounModel>::empty().push(a) =~= seq![a]);
}

/// With a configuration and `mine` off, startup configures the keys, sends
/// the disabling command, and never enters the loop.
pub proof fn lemma_configured_but_idle(cs: Seq<KeyShare>)
    ensures
        startup_spec(Some(cs), false) == (
            seq![(MiningWire::SetPubKey, key_command(cs)), (MiningWire::Enable, enable_command(false))],
            false,
        ),
{
}

} // verus!

use nockchain_mining::attempt::{attempt_forwards, candidate_of, mined_effects, AttemptOutcome};
use nockchain_mining::command::{
    config_noun, enable_mining, is_single_key, key_config_command, set_mining_key,
    set_mining_key_advanced,
};
use nockchain_mining::driver::{
    core_budget, memory_pressure_high, resource_check_due, startup_plan, Action, DriverState,
};
use nockchain_mining::key_config::{split_text, KeyConfigError, MiningKeyConfig};
use nockchain_mining::noun::{noun_list_of, Noun};
use nockchain_mining::wire::MiningWire;

fn atom(s: &str) -> Noun {
    Noun::Atom(s.as_bytes().to_vec())
}

fn num(bytes: &[u8]) -> Noun {
    Noun::Atom(bytes.to_vec())
}

fn cell(h: Noun, t: Noun) -> Noun {
    Noun::Cell(Box::new(h), Box::new(t))
}

fn list(items: Vec<Noun>) -> Noun {
    let mut acc = num(&[]);
    for item in items.into_iter().rev() {
        acc = cell(item, acc);
    }
    acc
}

fn command(verb: &str, payload: Noun) -> Noun {
    cell(atom("command"), cell(atom(verb), payload))
}

fn config(share: u64, m: u64, keys: &[&str]) -> MiningKeyConfig {
    MiningKeyConfig { share, m, keys: keys.iter().map(|k| k.to_string()).collect() }
}

#[test]
fn wire_verbs() {
    assert_eq!(MiningWire::Mined.verb(), "mined");
    assert_eq!(MiningWire::Candidate.verb(), "candidate");
    assert_eq!(MiningWire::SetPubKey.verb(), "setpubkey");
    assert_eq!(MiningWire::Enable.verb(), "enable");
}

#[test]
fn wire_address() {
    let w = MiningWire::SetPubKey.to_wire();
    assert_eq!(w.source, "miner");
    assert_eq!(w.version, 1);
    assert_eq!(w.tags, vec!["setpubkey".to_string()]);
}

#[test]
fn split_keeps_empty_pieces() {
    assert_eq!(split_text("a,,b", ','), vec!["a", "", "b"]);
    assert_eq!(split_text("", ','), vec![""]);
    assert_eq!(split_text("ä:ö", ':'), vec!["ä", "ö"]);
}

#[test]
fn parse_single_key() {
    let c = MiningKeyConfig::parse("1,1:K").unwrap();
    assert_eq!(c.share, 1);
    assert_eq!(c.m, 1);
    assert_eq!(c.keys, vec!["K"]);
}

#[test]
fn parse_keeps_key_order() {
    let c = MiningKeyConfig::parse("2,3:a,b,c").unwrap();
    assert_eq!((c.share, c.m), (2, 3));
    assert_eq!(c.keys, vec!["a", "b", "c"]);
}

#[test]
fn parse_through_from_str() {
    let c: MiningKeyConfig = "+7,0:key".parse().unwrap();
    assert_eq!((c.share, c.m), (7, 0));
    assert_eq!(c.keys, vec!["key"]);
}

#[test]
fn parse_missing_colon() {
    assert_eq!(MiningKeyConfig::parse("1,1").unwrap_err(), KeyConfigError::Format);
}

#[test]
fn parse_two_colons() {
    assert_eq!(MiningKeyConfig::parse("1,1:a:b").unwrap_err(), KeyConfigError::Format);
}

#[test]
fn parse_share_without_total() {
    assert_eq!(MiningKeyConfig::parse("1:a").unwrap_err(), KeyConfigError::ShareFormat);
    assert_eq!(MiningKeyConfig::parse("1,2,3:a").unwrap_err(), KeyConfigError::ShareFormat);
}

#[test]
fn parse_non_integer() {
    assert_eq!(MiningKeyConfig::parse("x,1:a").unwrap_err(), KeyConfigError::InvalidNumber);
    assert_eq!(MiningKeyConfig::parse("1,-1:a").unwrap_err(), KeyConfigError::InvalidNumber);
    assert_eq!(MiningKeyConfig::parse(",1:a").unwrap_err(), KeyConfigError::InvalidNumber);
    assert_eq!(
        MiningKeyConfig::parse("18446744073709551616,1:a").unwrap_err(),
        KeyConfigError::InvalidNumber
    );
}

#[test]
fn parse_largest_share() {
    let c = MiningKeyConfig::parse("18446744073709551615,1:a").unwrap();
    assert_eq!(c.share, u64::MAX);
}

#[test]
fn parse_trailing_colon_gives_one_empty_key() {
    let c = MiningKeyConfig::parse("1,1:").unwrap();
    assert_eq!(c.keys, vec![""]);
}

#[test]
fn number_atoms_are_little_endian() {
    assert_eq!(Noun::from_u64(0), num(&[]));
    assert_eq!(Noun::from_u64(1), num(&[1]));
    assert_eq!(Noun::from_u64(258), num(&[2, 1]));
    assert_eq!(Noun::from_u64(u64::MAX), num(&[255; 8]));
}

#[test]
fn cords_drop_trailing_zero_bytes() {
    assert_eq!(Noun::from_str("ab"), num(b"ab"));
    assert_eq!(Noun::from_str("ab\0\0"), num(b"ab"));
    assert_eq!(Noun::from_str(""), num(&[]));
}

#[test]
fn tag_test_reads_the_head() {
    assert!(command("x", num(&[])).is_tagged("command"));
    assert!(!command("x", num(&[])).is_tagged("comman"));
    assert!(!atom("command").is_tagged("command"));
}

#[test]
fn duplicate_is_equal() {
    let n = command("v", list(vec![atom("a"), num(&[3])]));
    assert_eq!(n.duplicate(), n);
}

#[test]
fn list_keeps_order() {
    assert_eq!(noun_list_of(vec![atom("a"), atom("b")]), list(vec![atom("a"), atom("b")]));
    assert_eq!(noun_list_of(vec![]), num(&[]));
}

#[test]
fn single_key_command_shape() {
    assert_eq!(set_mining_key("K"), command("set-mining-key", atom("K")));
}

#[test]
fn config_term_shape() {
    let c = config(2, 3, &["a", "b"]);
    assert_eq!(
        config_noun(&c),
        cell(num(&[2]), cell(num(&[3]), list(vec![atom("a"), atom("b")])))
    );
}

#[test]
fn advanced_command_keeps_orders() {
    let cs = vec![config(1, 2, &["a", "b"]), config(3, 4, &["c"])];
    let expected = command(
        "set-mining-key-advanced",
        list(vec![
            cell(num(&[1]), cell(num(&[2]), list(vec![atom("a"), atom("b")]))),
            cell(num(&[3]), cell(num(&[4]), list(vec![atom("c")]))),
        ]),
    );
    assert_eq!(set_mining_key_advanced(&cs), expected);
}

#[test]
fn parse_then_encode_keeps_fields() {
    let c = MiningKeyConfig::parse("5,9:k1,k2,k3").unwrap();
    let expected = command(
        "set-mining-key-advanced",
        list(vec![cell(
            num(&[5]),
            cell(num(&[9]), list(vec![atom("k1"), atom("k2"), atom("k3")])),
        )]),
    );
    assert_eq!(set_mining_key_advanced(&vec![c]), expected);
}

#[test]
fn simple_path_for_one_key_of_one() {
    let cs = vec![config(1, 1, &["K"])];
    assert!(is_single_key(&cs));
    assert_eq!(key_config_command(&cs), command("set-mining-key", atom("K")));
}

#[test]
fn advanced_path_otherwise() {
    for cs in [
        vec![config(1, 2, &["K"])],
        vec![config(2, 1, &["K"])],
        vec![config(1, 1, &["K", "L"])],
        vec![config(1, 1, &["K"]), config(1, 1, &["L"])],
        vec![],
    ] {
        assert!(!is_single_key(&cs));
        assert_eq!(key_config_command(&cs), set_mining_key_advanced(&cs));
        match key_config_command(&cs) {
            Noun::Cell(_, rest) => match *rest {
                Noun::Cell(verb, _) => assert_eq!(*verb, atom("set-mining-key-advanced")),
                Noun::Atom(_) => panic!("not a command"),
            },
            Noun::Atom(_) => panic!("not a command"),
        }
    }
}

#[test]
fn enable_flag_is_inverted() {
    assert_eq!(enable_mining(true), command("enable-mining", num(&[])));
    assert_eq!(enable_mining(false), command("enable-mining", num(&[1])));
}

#[test]
fn core_budget_by_parallelism() {
    for p in 0..=4 {
        assert_eq!(core_budget(p), 1);
    }
    for p in [5, 8, 64, usize::MAX] {
        assert_eq!(core_budget(p), 2);
    }
}

#[test]
fn resource_check_every_thirty_seconds() {
    assert!(!resource_check_due(29));
    assert!(resource_check_due(30));
    assert!(resource_check_due(31));
}

#[test]
fn memory_pressure_above_ninety_percent() {
    assert!(!memory_pressure_high(100, 10));
    assert!(memory_pressure_high(100, 9));
    assert!(memory_pressure_high(u64::MAX, 0));
    assert!(!memory_pressure_high(0, 0));
    assert!(!memory_pressure_high(10, 11));
}

#[test]
fn candidate_of_mine_message() {
    let payload = list(vec![atom("block"), num(&[7])]);
    let msg = cell(atom("mine"), list(vec![atom("block"), num(&[7])]));
    assert_eq!(candidate_of(msg), Some(payload));
    assert_eq!(candidate_of(cell(atom("other"), num(&[]))), None);
    assert_eq!(candidate_of(atom("mine")), None);
}

fn dispatched(a: Action) -> Option<(Noun, usize)> {
    match a {
        Action::Dispatch { candidate, count } => Some((candidate, count)),
        Action::Wait => None,
    }
}

#[test]
fn idle_driver_dispatches_budget() {
    let mut s = DriverState::new(8, true);
    let a = s.on_candidate(atom("c1"));
    assert_eq!(dispatched(a), Some((atom("c1"), 2)));
    assert_eq!(s.in_flight, 2);
    assert_eq!(s.queued_candidate, None);
}

#[test]
fn three_rapid_arrivals_keep_only_last() {
    let mut s = DriverState::new(2, true);
    assert_eq!(dispatched(s.on_candidate(atom("c0"))), Some((atom("c0"), 1)));
    assert!(dispatched(s.on_candidate(atom("c1"))).is_none());
    assert!(dispatched(s.on_candidate(atom("c2"))).is_none());
    assert!(dispatched(s.on_candidate(atom("c3"))).is_none());
    assert_eq!(s.queued_candidate, Some(atom("c3")));
    assert_eq!(dispatched(s.on_attempt_finished()), Some((atom("c3"), 1)));
    assert_eq!(s.queued_candidate, None);
    assert!(dispatched(s.on_attempt_finished()).is_none());
    assert_eq!(s.in_flight, 0);
}

#[test]
fn finished_attempt_dispatches_waiting_candidate() {
    let mut s = DriverState::new(6, true);
    s.on_candidate(atom("a"));
    s.on_candidate(atom("b"));
    assert_eq!(s.in_flight, 2);
    assert_eq!(dispatched(s.on_attempt_finished()), Some((atom("b"), 2)));
    assert_eq!(s.queued_candidate, None);
    assert_eq!(s.in_flight, 3);
    assert_eq!(s.core_budget, 2);
}

#[test]
fn disabled_driver_ignores_candidates() {
    let mut s = DriverState::new(8, false);
    assert!(dispatched(s.on_candidate(atom("c"))).is_none());
    assert_eq!(s.in_flight, 0);
    assert_eq!(s.queued_candidate, None);
}

#[test]
fn timed_out_attempt_forwards_nothing() {
    assert!(attempt_forwards(AttemptOutcome::KernelLoadTimedOut).is_empty());
    assert!(attempt_forwards(AttemptOutcome::KernelLoadFailed).is_empty());
    assert!(attempt_forwards(AttemptOutcome::NoScratch).is_empty());
    assert!(attempt_forwards(AttemptOutcome::SubmitFailed).is_empty());
    let mut s = DriverState::new(1, true);
    s.on_candidate(atom("c"));
    assert!(dispatched(s.on_attempt_finished()).is_none());
    assert_eq!(s.in_flight, 0);
}

#[test]
fn one_of_two_messages_forwarded() {
    let mined = cell(atom("command"), atom("pow"));
    let other = cell(atom("gossip"), atom("x"));
    let r = attempt_forwards(AttemptOutcome::Response(vec![mined.duplicate(), other]));
    assert_eq!(r, vec![mined]);
}

#[test]
fn malformed_messages_skipped_in_order() {
    let a = cell(atom("command"), num(&[1]));
    let b = cell(atom("command"), num(&[2]));
    let r = mined_effects(vec![a.duplicate(), atom("command"), num(&[]), b.duplicate()]);
    assert_eq!(r, vec![a, b]);
}

#[test]
fn startup_without_config_disables() {
    let p = startup_plan(&None, true);
    assert!(!p.enter_loop);
    assert_eq!(p.commands, vec![(MiningWire::Enable, command("enable-mining", num(&[1])))]);
}

#[test]
fn startup_configured_but_not_mining() {
    let p = startup_plan(&Some(vec![config(1, 1, &["K"])]), false);
    assert!(!p.enter_loop);
    assert_eq!(
        p.commands,
        vec![
            (MiningWire::SetPubKey, command("set-mining-key", atom("K"))),
            (MiningWire::Enable, command("enable-mining", num(&[1]))),
        ]
    );
}

#[test]
fn startup_configured_and_mining() {
    let p = startup_plan(&Some(vec![config(2, 3, &["a"])]), true);
    assert!(p.enter_loop);
    assert_eq!(p.commands.len(), 2);
    assert_eq!(p.commands[1], (MiningWire::Enable, command("enable-mining", num(&[]))));
}

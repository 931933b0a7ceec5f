use vstd::prelude::*;
use crate::noun::{Noun, NounModel, has_tag, models};

verus! {

/// The messages of a kernel response that are forwarded to the node: those
/// tagged `command`, in their order.
pub open spec fn commands_of(effects: Seq<NounModel>) -> Seq<NounModel>
    decreases effects.len(),
{
    if effects.len() == 0 {
        Seq::empty()
    } else {
        let p = commands_of(effects.drop_last());
        if has_tag(effects.last(), "command"@) {
            p.push(effects.last())
        } else {
            p
        }
    }
}

/// The payload of a node message tagged `mine`, if it is one.
pub open spec fn candidate_spec(effect: NounModel) -> Option<NounModel> {
    match effect {
        NounModel::Cell(_, t) => if has_tag(effect, "mine"@) {
            Some(*t)
        } else {
            None
        },
        NounModel::Atom(_) => None,
    }
}

/// How a mining attempt ended.
#[derive(Debug)]
pub enum AttemptOutcome {
    /// No scratch directory could be had for the kernel.
    NoScratch,
    /// The kernel failed to load.
    KernelLoadFailed,
    /// The kernel did not load within the startup timeout.
    KernelLoadTimedOut,
    /// The candidate could not be submitted, or no response came back.
    SubmitFailed,
    /// The kernel answered the candidate with these messages.
    Response(Vec<Noun>),
}

/// The messages to forward to the node under the `mined` topic.
pub open spec fn forwards_spec(outcome: AttemptOutcome) -> Seq<NounModel> {
    match outcome {
        AttemptOutcome::Response(effects) => commands_of(models(effects@)),
        _ => Seq::empty(),
    }
}

/// Keeps the messages tagged `command`, in their order; atoms and messages
/// with another tag are skipped.
pub fn mined_effects(effects: Vec<Noun>) -> (r: Vec<Noun>)
    ensures
        models(r@) == commands_of(models(effects@)),
{
    let ghost all = models(effects@);
    let mut rest = effects;
    let mut kept: Vec<Noun> = Vec::new();
    // Walk from the back, so that every message is moved out once.
    let mut tail_kept: Vec<Noun> = Vec::new();
    proof {
        assert(all.subrange(all.len() as int, all.len() as int) =~= Seq::<NounModel>::empty());
    }
    while rest.len() > 0
        invariant
            rest@.len() <= all.len(),
            models(rest@) == all.subrange(0, rest@.len() as int),
            commands_of(all) == commands_of(models(rest@)) + models(tail_kept@.reverse()),
        decreases rest@.len(),
    {
        let ghost before = rest@;
        let e = rest.pop().unwrap();
        proof {
            assert(models(before)[before.len() - 1] == e@);
            assert(models(rest@) =~= models(before).drop_last());
        }
        if e.is_tagged("command") {
            let ghost t = tail_kept@;
            tail_kept.push(e);
            proof {
                assert(models(tail_kept@.reverse()) =~= seq![models(before).last()] + models(t.reverse()));
            }
        }
    }
    // tail_kept holds the kept messages last first; put them back in order.
    while tail_kept.len() > 0
        invariant
            commands_of(all) == models(kept@) + models(tail_kept@.reverse()),
        decreases tail_kept@.len(),
    {
        let ghost before = tail_kept@;
        let ghost k = kept@;
        let e = tail_kept.pop().unwrap();
        kept.push(e);
        proof {
            assert(before.reverse() =~= seq![before.last()] + tail_kept@.reverse());
            assert(models(kept@) =~= models(k).push(before.last()@));
            assert(models(before.reverse()) =~= seq![before.last()@] + models(tail_kept@.reverse()));
        }
    }
    proof {
        assert(models(tail_kept@.reverse()) =~= Seq::<NounModel>::empty());
        assert(commands_of(all) =~= models(kept@));
    }
    kept
}

/// The messages that an attempt forwards: the `command` messages of the
/// kernel's response, and none when the attempt ended before a response.
pub fn attempt_forwards(outcome: AttemptOutcome) -> (r: Vec<Noun>)
    ensures
        models(r@) == forwards_spec(outcome),
{
    match outcome {
        AttemptOutcome::Response(effects) => mined_effects(effects),
        _ => {
            let r: Vec<Noun> = Vec::new();
            proof {
                assert(models(r@) =~= Seq::<NounModel>::empty());
            }
            r
        },
    }
}

/// The candidate carried by a node message: its payload when it is a cell
/// tagged `mine`.
pub fn candidate_of(effect: Noun) -> (r: Option<Noun>)
    ensures
        match r {
            Some(c) => candidate_spec(effect@) == Some(c@),
            None => candidate_spec(effect@) is None,
        },
{
    if effect.is_tagged("mine") {
        match effect {
            Noun::Cell(_, t) => Some(*t),
            Noun::Atom(_) => None,
        }
    } else {
        None
    }
}

} // verus!

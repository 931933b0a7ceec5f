use vstd::prelude::*;
use crate::command::{enable_command, enable_mining, key_command, key_config_command};
use crate::key_config::{KeyShare, MiningKeyConfig, key_shares};
use crate::noun::{Noun, NounModel};
use crate::wire::MiningWire;

verus! {

/// Host parallelism above which two attempts run per candidate.
pub const PARALLELISM_THRESHOLD: usize = 4;

/// Seconds between two checks of the host's memory.
pub const RESOURCE_CHECK_INTERVAL_SECS: u64 = 30;

/// Seconds a kernel may take to start before its attempt gives up.
pub const KERNEL_LOAD_TIMEOUT_SECS: u64 = 30;

/// The number of attempts dispatched per candidate.
pub open spec fn core_budget_spec(parallelism: nat) -> nat {
    if parallelism > 4 {
        2
    } else {
        1
    }
}

/// How many attempts to run per candidate on a host of the given parallelism.
pub fn core_budget(parallelism: usize) -> (r: usize)
    ensures
        r as nat == core_budget_spec(parallelism as nat),
{
    if parallelism > PARALLELISM_THRESHOLD {
        2
    } else {
        1
    }
}

/// The scheduler's state, as a value.
pub struct DriverModel {
    pub queued: Option<NounModel>,
    pub in_flight: nat,
    pub core_budget: nat,
    pub enabled: bool,
}

/// What the scheduler asks its runner to do, as a value.
pub enum ActionModel {
    Wait,
    Dispatch(NounModel, nat),
}

/// The scheduler's state.
pub struct DriverState {
    /// The most recent candidate that arrived while attempts were running.
    pub queued_candidate: Option<Noun>,
    /// The number of attempts running.
    pub in_flight: usize,
    /// The number of attempts dispatched per candidate.
    pub core_budget: usize,
    /// Whether candidates start attempts at all.
    pub mining_enabled: bool,
}

/// What the scheduler asks its runner to do.
#[derive(Debug)]
pub enum Action {
    /// Nothing to start.
    Wait,
    /// Start `count` attempts, each on its own copy of `candidate`.
    Dispatch { candidate: Noun, count: usize },
}

pub open spec fn option_model(o: Option<Noun>) -> Option<NounModel> {
    match o {
        Some(n) => Some(n@),
        None => None,
    }
}

impl View for DriverState {
    type V = DriverModel;

    open spec fn view(&self) -> DriverModel {
        DriverModel {
            queued: option_model(self.queued_candidate),
            in_flight: self.in_flight as nat,
            core_budget: self.core_budget as nat,
            enabled: self.mining_enabled,
        }
    }
}

impl View for Action {
    type V = ActionModel;

    open spec fn view(&self) -> ActionModel {
        match self {
            Action::Wait => ActionModel::Wait,
            Action::Dispatch { candidate, count } => ActionModel::Dispatch(candidate@, *count as nat),
        }
    }
}

/// The scheduler's invariant: one or two attempts per candidate, and a
/// candidate waits only while attempts run.
pub open spec fn driver_wf(s: DriverModel) -> bool {
    &&& (s.core_budget == 1 || s.core_budget == 2)
    &&& (s.in_flight == 0 ==> s.queued is None)
}

/// A candidate arrives. While attempts run it replaces any waiting
/// candidate; otherwise it is dispatched to `core_budget` new attempts.
pub open spec fn on_candidate_spec(s: DriverModel, c: NounModel) -> (DriverModel, ActionModel) {
    if !s.enabled {
        (s, ActionModel::Wait)
    } else if s.in_flight > 0 {
        (DriverModel { queued: Some(c), ..s }, ActionModel::Wait)
    } else {
        (
            DriverModel { in_flight: s.in_flight + s.core_budget, ..s },
            ActionModel::Dispatch(c, s.core_budget),
        )
    }
}

/// An attempt finishes, whatever its outcome. A waiting candidate, if any, is
/// taken and dispatched to `core_budget` new attempts.
pub open spec fn on_finished_spec(s: DriverModel) -> (DriverModel, ActionModel) {
    let left = (s.in_flight - 1) as nat;
    match s.queued {
        Some(c) => (
            DriverModel { queued: None, in_flight: left + s.core_budget, ..s },
            ActionModel::Dispatch(c, s.core_budget),
        ),
        None => (DriverModel { in_flight: left, ..s }, ActionModel::Wait),
    }
}

impl DriverState {
    /// A scheduler with nothing running and nothing waiting.
    pub fn new(parallelism: usize, mining_enabled: bool) -> (r: DriverState)
        ensures
            r@ == (DriverModel {
                queued: None,
                in_flight: 0,
                core_budget: core_budget_spec(parallelism as nat),
                enabled: mining_enabled,
            }),
            driver_wf(r@),
    {
        DriverState {
            queued_candidate: None,
            in_flight: 0,
            core_budget: core_budget(parallelism),
            mining_enabled,
        }
    }

    /// Handles a new candidate.
    pub fn on_candidate(&mut self, candidate: Noun) -> (r: Action)
        requires
            driver_wf(old(self)@),
            old(self).in_flight <= usize::MAX - 2,
        ensures
            (final(self)@, r@) == on_candidate_spec(old(self)@, candidate@),
            driver_wf(final(self)@),
    {
        if !self.mining_enabled {
            Action::Wait
        } else if self.in_flight > 0 {
            self.queued_candidate = Some(candidate);
            Action::Wait
        } else {
            self.in_flight = self.in_flight + self.core_budget;
            Action::Dispatch { candidate, count: self.core_budget }
        }
    }

    /// Handles the end of one running attempt.
    pub fn on_attempt_finished(&mut self) -> (r: Action)
        requires
            driver_wf(old(self)@),
            old(self).in_flight > 0,
            old(self).in_flight <= usize::MAX - 1,
        ensures
            (final(self)@, r@) == on_finished_spec(old(self)@),
            driver_wf(final(self)@),
    {
        self.in_flight = self.in_flight - 1;
        match self.queued_candidate.take() {
            Some(candidate) => {
                self.in_flight = self.in_flight + self.core_budget;
                Action::Dispatch { candidate, count: self.core_budget }
            },
            None => Action::Wait,
        }
    }
}

/// Whether the memory check is due, `elapsed_secs` after the last one.
pub fn resource_check_due(elapsed_secs: u64) -> (r: bool)
    ensures
        r == (elapsed_secs >= 30),
{
    elapsed_secs >= RESOURCE_CHECK_INTERVAL_SECS
}

/// Whether more than 90% of the host's memory is in use.
pub fn memory_pressure_high(total: u64, free: u64) -> (r: bool)
    ensures
        r == (total > 0 && free <= total && (total - free) * 10 > total * 9),
{
    if total == 0 || free > total {
        return false;
    }
    let used = (total - free) as u128;
    used * 10 > (total as u128) * 9
}

} // verus!

verus! {

/// The commands sent to the node before the loop, and whether the loop runs.
pub struct StartupPlan {
    pub commands: Vec<(MiningWire, Noun)>,
    pub enter_loop: bool,
}

pub open spec fn plan_commands(p: &StartupPlan) -> Seq<(MiningWire, NounModel)> {
    p.commands@.map_values(|c: (MiningWire, Noun)| (c.0, c.1@))
}

/// Without configuration: disable searching and stop. With one: configure the
/// keys, enable or disable searching as `mine` says, and run the loop only if
/// `mine`.
pub open spec fn startup_spec(config: Option<Seq<KeyShare>>, mine: bool) -> (Seq<(MiningWire, NounModel)>, bool) {
    match config {
        None => (seq![(MiningWire::Enable, enable_command(false))], false),
        Some(cs) => (
            seq![(MiningWire::SetPubKey, key_command(cs)), (MiningWire::Enable, enable_command(mine))],
            mine,
        ),
    }
}

/// Plans the driver's startup.
pub fn startup_plan(config: &Option<Vec<MiningKeyConfig>>, mine: bool) -> (r: StartupPlan)
    ensures
        (plan_commands(&r), r.enter_loop) == startup_spec(
            match config {
                Some(cs) => Some(key_shares(cs@)),
                None => None,
            },
            mine,
        ),
{
    let mut commands: Vec<(MiningWire, Noun)> = Vec::new();
    match config {
        None => {
            commands.push((MiningWire::Enable, enable_mining(false)));
            let r = StartupPlan { commands, enter_loop: false };
            proof {
                assert(plan_commands(&r) =~= seq![(MiningWire::Enable, enable_command(false))]);
            }
            r
        },
        Some(cs) => {
            commands.push((MiningWire::SetPubKey, key_config_command(cs)));
            commands.push((MiningWire::Enable, enable_mining(mine)));
            let r = StartupPlan { commands, enter_loop: mine };
            proof {
                assert(plan_commands(&r) =~= seq![
                    (MiningWire::SetPubKey, key_command(key_shares(cs@))),
                    (MiningWire::Enable, enable_command(mine)),
                ]);
            }
            r
        },
    }
}

} // verus!

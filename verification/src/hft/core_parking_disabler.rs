//! Power settings that keep cores awake: which commands to run, what their
//! outcomes mean, and when to go on. Running them is the caller's part.

use vstd::prelude::*;
use crate::base::text::{lowercase, lowercase_text, same, trim, trimmed, views};

verus! {

/// A command line.
#[derive(Debug, Clone)]
pub struct PowerCommand {
    pub program: String,
    pub args: Vec<String>,
}

/// What became of a command.
#[derive(Debug, Clone)]
pub enum CommandOutcome {
    /// It ran and succeeded.
    Succeeded,
    /// It ran and failed, with this on its error stream.
    Failed { stderr: String },
    /// It could not be run.
    NotRun { error: String },
}

/// A step of changing the power settings.
#[derive(Debug, Clone, Copy, PartialEq, Eq, Structural)]
pub enum PowerStep {
    /// Set the boost mode to aggressive, before parking is disabled.
    SetBoost,
    DisableParking,
    /// Activate the scheme after parking was disabled.
    Activate,
    EnableParking,
    /// Activate the scheme after parking was enabled.
    ActivateRestored,
    DisableIdleState,
    DisableDemotion,
}

/// What follows a step.
#[derive(Debug, Clone)]
pub enum NextStep {
    Run { step: PowerStep },
    Done,
    Fail { error: String },
}

/// What a step's outcome leads to: a line for the log where there is one, and
/// what follows.
#[derive(Debug, Clone)]
pub struct StepResult {
    pub log: Option<String>,
    pub next: NextStep,
}

/// The registry key of the parked cores setting.
pub open spec fn parking_key() -> Seq<char> {
    "HKLM\\SYSTEM\\CurrentControlSet\\Control\\Power\\PowerSettings\\54533251-82be-4824-96c1-47b60b740d00\\0cc5b647-c1df-4637-891a-dec35c318583"@
}

/// The registry key of the idle state setting.
pub open spec fn idle_state_key() -> Seq<char> {
    "HKLM\\SYSTEM\\CurrentControlSet\\Control\\Power\\PowerSettings\\54533251-82be-4824-96c1-47b60b740d00\\0b2d69d7-a2a1-449c-9680-f91c70521c60"@
}

/// The arguments that set a registry key's largest value.
pub open spec fn registry_args(key: Seq<char>, value: Seq<char>) -> Seq<Seq<char>> {
    seq!["ADD"@, key, "/v"@, "ValueMax"@, "/t"@, "REG_DWORD"@, "/d"@, value, "/f"@]
}

/// The arguments that set a value of the current scheme's processor settings.
pub open spec fn processor_args(setting: Seq<char>, value: Seq<char>) -> Seq<Seq<char>> {
    seq!["/setacvalueindex"@, "SCHEME_CURRENT"@, "SUB_PROCESSOR"@, setting, value]
}

impl PowerStep {
    /// The program that a step runs.
    pub open spec fn program(self) -> Seq<char> {
        match self {
            PowerStep::SetBoost
            | PowerStep::Activate
            | PowerStep::ActivateRestored
            | PowerStep::DisableDemotion => "powercfg"@,
            PowerStep::DisableParking | PowerStep::EnableParking | PowerStep::DisableIdleState =>
                "reg"@,
        }
    }

    /// The arguments of a step's program.
    pub open spec fn args(self) -> Seq<Seq<char>> {
        match self {
            PowerStep::SetBoost => processor_args("PERFBOOSTMODE"@, "3"@),
            PowerStep::DisableParking => registry_args(parking_key(), "0"@),
            PowerStep::Activate | PowerStep::ActivateRestored => seq![
                "/SETACTIVE"@,
                "SCHEME_CURRENT"@,
            ],
            PowerStep::EnableParking => registry_args(parking_key(), "100"@),
            PowerStep::DisableIdleState => registry_args(idle_state_key(), "0"@),
            PowerStep::DisableDemotion => processor_args("IDLEDEMOTE"@, "0"@),
        }
    }

    /// The command of a step.
    pub fn command(&self) -> (c: PowerCommand)
        ensures
            c.program@ == self.program(),
            views(c.args@) == self.args(),
    {
        match self {
            PowerStep::SetBoost => processor_command("PERFBOOSTMODE", "3"),
            PowerStep::DisableParking => registry_command(
                "HKLM\\SYSTEM\\CurrentControlSet\\Control\\Power\\PowerSettings\\54533251-82be-4824-96c1-47b60b740d00\\0cc5b647-c1df-4637-891a-dec35c318583",
                "0",
            ),
            PowerStep::Activate | PowerStep::ActivateRestored => {
                let mut args: Vec<String> = Vec::new();
                args.push("/SETACTIVE".to_string());
                args.push("SCHEME_CURRENT".to_string());
                assert(views(args@) =~= seq!["/SETACTIVE"@, "SCHEME_CURRENT"@]);
                PowerCommand { program: "powercfg".to_string(), args }
            },
            PowerStep::EnableParking => registry_command(
                "HKLM\\SYSTEM\\CurrentControlSet\\Control\\Power\\PowerSettings\\54533251-82be-4824-96c1-47b60b740d00\\0cc5b647-c1df-4637-891a-dec35c318583",
                "100",
            ),
            PowerStep::DisableIdleState => registry_command(
                "HKLM\\SYSTEM\\CurrentControlSet\\Control\\Power\\PowerSettings\\54533251-82be-4824-96c1-47b60b740d00\\0b2d69d7-a2a1-449c-9680-f91c70521c60",
                "0",
            ),
            PowerStep::DisableDemotion => processor_command("IDLEDEMOTE", "0"),
        }
    }

    /// What is logged after a step.
    pub open spec fn log(self, outcome: CommandOutcome) -> Option<Seq<char>> {
        match self {
            PowerStep::SetBoost => match outcome {
                CommandOutcome::Succeeded => Some("[CORE_PARKING] Boost mode set to aggressive"@),
                CommandOutcome::Failed { stderr } => Some(
                    "[WARNING] Boost mode command failed: "@ + stderr@,
                ),
                CommandOutcome::NotRun { error } => Some(
                    "[WARNING] Failed to set boost mode: "@ + error@,
                ),
            },
            PowerStep::DisableParking => if outcome is Succeeded {
                Some("[CORE_PARKING] Core parking disabled via registry"@)
            } else {
                None
            },
            PowerStep::Activate => if outcome is NotRun {
                Some("[WARNING] Failed to reactivate power scheme"@)
            } else {
                None
            },
            PowerStep::EnableParking => None,
            PowerStep::ActivateRestored => Some(
                "[CORE_PARKING] Core parking restored to defaults"@,
            ),
            PowerStep::DisableIdleState => if outcome is Succeeded {
                Some("[C_STATES] C1E state disabled"@)
            } else {
                Some("[WARNING] Could not disable C1E state"@)
            },
            PowerStep::DisableDemotion => if outcome is NotRun {
                None
            } else {
                Some("[C_STATES] Idle demotion disabled"@)
            },
        }
    }

    /// The step after this one, where its outcome allows to go on.
    pub open spec fn successor(self) -> Option<PowerStep> {
        match self {
            PowerStep::SetBoost => Some(PowerStep::DisableParking),
            PowerStep::DisableParking => Some(PowerStep::Activate),
            PowerStep::EnableParking => Some(PowerStep::ActivateRestored),
            PowerStep::DisableIdleState => Some(PowerStep::DisableDemotion),
            _ => None,
        }
    }

    /// Why the change fails after a step: only the two registry commands on
    /// parking are needed.
    pub open spec fn failure(self, outcome: CommandOutcome) -> Option<Seq<char>> {
        if self != PowerStep::DisableParking && self != PowerStep::EnableParking {
            None
        } else {
            match outcome {
                CommandOutcome::Succeeded => None,
                CommandOutcome::Failed { stderr } => Some(
                    if self == PowerStep::DisableParking {
                        "Failed to disable core parking: "@ + stderr@
                    } else {
                        "Failed to enable core parking: "@ + stderr@
                    },
                ),
                CommandOutcome::NotRun { error } => Some("Registry command failed: "@ + error@),
            }
        }
    }

    /// What follows a step that had an outcome.
    pub fn after(&self, outcome: &CommandOutcome) -> (r: StepResult)
        ensures
            match self.log(*outcome) {
                Some(t) => r.log is Some && r.log->0@ == t,
                None => r.log is None,
            },
            match self.failure(*outcome) {
                Some(t) => r.next is Fail && r.next->error@ == t,
                None => match self.successor() {
                    Some(s) => r.next == (NextStep::Run { step: s }),
                    None => r.next == NextStep::Done,
                },
            },
    {
        match self {
            PowerStep::SetBoost => {
                let log: String = match outcome {
                    CommandOutcome::Succeeded =>
                        "[CORE_PARKING] Boost mode set to aggressive".to_string(),
                    CommandOutcome::Failed { stderr } => joined_text(
                        "[WARNING] Boost mode command failed: ",
                        stderr.as_str(),
                    ),
                    CommandOutcome::NotRun { error } => joined_text(
                        "[WARNING] Failed to set boost mode: ",
                        error.as_str(),
                    ),
                };
                StepResult {
                    log: Some(log),
                    next: NextStep::Run { step: PowerStep::DisableParking },
                }
            },
            PowerStep::DisableParking => match outcome {
                CommandOutcome::Succeeded => StepResult {
                    log: Some("[CORE_PARKING] Core parking disabled via registry".to_string()),
                    next: NextStep::Run { step: PowerStep::Activate },
                },
                CommandOutcome::Failed { stderr } => StepResult {
                    log: None,
                    next: NextStep::Fail {
                        error: joined_text("Failed to disable core parking: ", stderr.as_str()),
                    },
                },
                CommandOutcome::NotRun { error } => StepResult {
                    log: None,
                    next: NextStep::Fail {
                        error: joined_text("Registry command failed: ", error.as_str()),
                    },
                },
            },
            PowerStep::Activate => {
                let log: Option<String> = match outcome {
                    CommandOutcome::NotRun { error: _ } => Some(
                        "[WARNING] Failed to reactivate power scheme".to_string(),
                    ),
                    _ => None,
                };
                StepResult { log, next: NextStep::Done }
            },
            PowerStep::EnableParking => match outcome {
                CommandOutcome::Succeeded => StepResult {
                    log: None,
                    next: NextStep::Run { step: PowerStep::ActivateRestored },
                },
                CommandOutcome::Failed { stderr } => StepResult {
                    log: None,
                    next: NextStep::Fail {
                        error: joined_text("Failed to enable core parking: ", stderr.as_str()),
                    },
                },
                CommandOutcome::NotRun { error } => StepResult {
                    log: None,
                    next: NextStep::Fail {
                        error: joined_text("Registry command failed: ", error.as_str()),
                    },
                },
            },
            PowerStep::ActivateRestored => StepResult {
                log: Some("[CORE_PARKING] Core parking restored to defaults".to_string()),
                next: NextStep::Done,
            },
            PowerStep::DisableIdleState => {
                let log: String = match outcome {
                    CommandOutcome::Succeeded => "[C_STATES] C1E state disabled".to_string(),
                    _ => "[WARNING] Could not disable C1E state".to_string(),
                };
                StepResult {
                    log: Some(log),
                    next: NextStep::Run { step: PowerStep::DisableDemotion },
                }
            },
            PowerStep::DisableDemotion => {
                let log: Option<String> = match outcome {
                    CommandOutcome::NotRun { error: _ } => None,
                    _ => Some("[C_STATES] Idle demotion disabled".to_string()),
                };
                StepResult { log, next: NextStep::Done }
            },
        }
    }
}

fn joined_text(a: &str, b: &str) -> (s: String)
    ensures
        s@ == a@ + b@,
{
    let mut s: String = a.to_string();
    s.push_str(b);
    s
}

fn registry_command(key: &str, value: &str) -> (c: PowerCommand)
    ensures
        c.program@ == "reg"@,
        views(c.args@) == registry_args(key@, value@),
{
    let mut args: Vec<String> = Vec::new();
    args.push("ADD".to_string());
    args.push(key.to_string());
    args.push("/v".to_string());
    args.push("ValueMax".to_string());
    args.push("/t".to_string());
    args.push("REG_DWORD".to_string());
    args.push("/d".to_string());
    args.push(value.to_string());
    args.push("/f".to_string());
    assert(views(args@) =~= registry_args(key@, value@));
    PowerCommand { program: "reg".to_string(), args }
}

fn processor_command(setting: &str, value: &str) -> (c: PowerCommand)
    ensures
        c.program@ == "powercfg"@,
        views(c.args@) == processor_args(setting@, value@),
{
    let mut args: Vec<String> = Vec::new();
    args.push("/setacvalueindex".to_string());
    args.push("SCHEME_CURRENT".to_string());
    args.push("SUB_PROCESSOR".to_string());
    args.push(setting.to_string());
    args.push(value.to_string());
    assert(views(args@) =~= processor_args(setting@, value@));
    PowerCommand { program: "powercfg".to_string(), args }
}

/// Whether a change that starts with `step` succeeds, given the outcome of each
/// of its commands.
pub open spec fn change_succeeds(step: PowerStep, outcomes: Seq<CommandOutcome>) -> bool
    decreases outcomes.len(),
{
    if outcomes.len() == 0 || step.failure(outcomes[0]) is Some {
        false
    } else {
        match step.successor() {
            Some(s) => change_succeeds(s, outcomes.skip(1)),
            None => true,
        }
    }
}

/// Disabling parking succeeds exactly when its registry command does, whatever
/// becomes of the boost mode and of the activation.
pub proof fn law_only_registry_decides(
    boost: CommandOutcome,
    registry: CommandOutcome,
    activate: CommandOutcome,
)
    ensures
        change_succeeds(PowerStep::SetBoost, seq![boost, registry, activate])
            <==> registry is Succeeded,
{
    reveal_with_fuel(change_succeeds, 4);
    let s = seq![boost, registry, activate];
    assert(s.skip(1)[0] == registry);
    assert(s.skip(1).skip(1)[0] == activate);
    assert(s.skip(1).len() == 2);
    assert(s.skip(1).skip(1).len() == 1);
}

/// Disabling idle states never fails.
pub proof fn law_idle_states_never_fail(first: CommandOutcome, second: CommandOutcome)
    ensures
        change_succeeds(PowerStep::DisableIdleState, seq![first, second]),
{
    reveal_with_fuel(change_succeeds, 3);
    assert(seq![first, second].skip(1).len() == 1);
}

/// Keeps cores awake while it runs.
#[derive(Debug, Clone, Copy, PartialEq, Eq, Structural)]
pub struct CoreParkingManager {
    pub running: bool,
    pub original_states_restored: bool,
}

impl CoreParkingManager {
    /// A manager that does not run.
    pub fn new() -> (m: Self)
        ensures
            m == (CoreParkingManager { running: false, original_states_restored: false }),
    {
        CoreParkingManager { running: false, original_states_restored: false }
    }

    /// Whether a query's output says that parking is enabled.
    pub fn is_core_parking_enabled(stdout: &str) -> (r: bool)
        ensures
            r == (lowercase_text(trimmed(stdout@)) == "true"@),
    {
        let lowered: String = lowercase(trim(stdout).as_str());
        Self::says_true(lowered.as_str())
    }

    /// Whether a word is `true`.
    pub fn says_true(word: &str) -> (r: bool)
        ensures
            r == (word@ == "true"@),
    {
        same(word, "true")
    }

    /// The first step of disabling parking.
    pub fn disable_core_parking() -> (s: PowerStep)
        ensures
            s == PowerStep::SetBoost,
    {
        PowerStep::SetBoost
    }

    /// The first step of enabling parking.
    pub fn enable_core_parking() -> (s: PowerStep)
        ensures
            s == PowerStep::EnableParking,
    {
        PowerStep::EnableParking
    }

    /// The first step of disabling idle states.
    pub fn disable_c_states() -> (s: PowerStep)
        ensures
            s == PowerStep::DisableIdleState,
    {
        PowerStep::DisableIdleState
    }

    /// Whether the manager may start: it does not run yet.
    pub fn start(&self) -> (r: Result<(), String>)
        ensures
            r is Ok <==> !self.running,
            r is Err ==> r->Err_0@ == "Already running"@,
    {
        if self.running {
            return Err("Already running".to_string());
        }
        Ok(())
    }

    /// Notes that the changes were made.
    pub fn started(&mut self)
        ensures
            *final(self) == (CoreParkingManager { running: true, ..*old(self) }),
    {
        self.running = true;
    }

    /// The first step of stopping, where the manager runs.
    pub fn stop(&self) -> (r: Option<PowerStep>)
        ensures
            r == (if self.running {
                Some(PowerStep::EnableParking)
            } else {
                None
            }),
    {
        if self.running {
            Some(Self::enable_core_parking())
        } else {
            None
        }
    }

    /// Notes that the settings were restored.
    pub fn stopped(&mut self)
        ensures
            *final(self) == (CoreParkingManager { running: false, original_states_restored: true }),
    {
        self.original_states_restored = true;
        self.running = false;
    }

    /// Whether the manager runs.
    pub fn is_running(&self) -> (r: bool)
        ensures
            r == self.running,
    {
        self.running
    }
}

impl Default for CoreParkingManager {
    fn default() -> (m: Self)
        ensures
            m == (CoreParkingManager { running: false, original_states_restored: false }),
    {
        CoreParkingManager::new()
    }
}

} // verus!

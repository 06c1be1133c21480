//! The closed set of actions a teacher can send a PC, their stable names, and how their outcomes are
//! reported and audited.
//!
//! The user interface and the tools speak in action names; a name that is not on the closed list
//! is refused, never guessed. Outcomes travel back as short codes the interface translates.

use crate::text::{chars_of, is_word};
use vstd::prelude::*;

verus! {

/// Something a teacher asks a student PC to do.
#[derive(Debug, Clone, Copy, PartialEq, Eq, Structural)]
pub enum Action {
    /// Shut down after a countdown.
    Shutdown { delay_seconds: u16 },
    /// Restart after a countdown.
    Reboot { delay_seconds: u16 },
    /// Sign the student out.
    LogOff,
    /// Lock the screen.
    LockScreen,
    /// Cancel a shutdown or restart countdown.
    CancelShutdown,
    /// Stop the student changing the wallpaper.
    LockWallpaper,
    /// Let the student change the wallpaper again.
    UnlockWallpaper,
}

/// The stable name of an action.
pub open spec fn action_name(a: Action) -> Seq<char> {
    match a {
        Action::Shutdown { .. } => "shutdown"@,
        Action::Reboot { .. } => "reboot"@,
        Action::LogOff => "log-off"@,
        Action::LockScreen => "lock-screen"@,
        Action::CancelShutdown => "cancel-shutdown"@,
        Action::LockWallpaper => "lock-wallpaper"@,
        Action::UnlockWallpaper => "unlock-wallpaper"@,
    }
}

/// The action a name stands for, with `delay_seconds` for the two countdown actions; `None` for a
/// name not on the closed list.
pub open spec fn action_for(name: Seq<char>, delay_seconds: u16) -> Option<Action> {
    if name == "shutdown"@ {
        Some(Action::Shutdown { delay_seconds })
    } else if name == "reboot"@ {
        Some(Action::Reboot { delay_seconds })
    } else if name == "log-off"@ {
        Some(Action::LogOff)
    } else if name == "lock-screen"@ {
        Some(Action::LockScreen)
    } else if name == "cancel-shutdown"@ {
        Some(Action::CancelShutdown)
    } else if name == "lock-wallpaper"@ {
        Some(Action::LockWallpaper)
    } else if name == "unlock-wallpaper"@ {
        Some(Action::UnlockWallpaper)
    } else {
        None
    }
}

impl Action {
    /// The stable name of this action.
    pub fn name(self) -> (n: &'static str)
        ensures
            n@ == action_name(self),
    {
        match self {
            Action::Shutdown { .. } => "shutdown",
            Action::Reboot { .. } => "reboot",
            Action::LogOff => "log-off",
            Action::LockScreen => "lock-screen",
            Action::CancelShutdown => "cancel-shutdown",
            Action::LockWallpaper => "lock-wallpaper",
            Action::UnlockWallpaper => "unlock-wallpaper",
        }
    }
}

/// The countdown an action carries, or zero.
pub open spec fn delay_of(a: Action) -> u16 {
    match a {
        Action::Shutdown { delay_seconds } => delay_seconds,
        Action::Reboot { delay_seconds } => delay_seconds,
        _ => 0,
    }
}

/// Every action's name reads back as that action, with its own countdown.
pub proof fn lemma_names_round_trip(a: Action)
    ensures
        action_for(action_name(a), delay_of(a)) == Some(a),
{
    reveal_strlit("shutdown");
    reveal_strlit("reboot");
    reveal_strlit("log-off");
    reveal_strlit("lock-screen");
    reveal_strlit("cancel-shutdown");
    reveal_strlit("lock-wallpaper");
    reveal_strlit("unlock-wallpaper");
    let names = seq![
        "shutdown"@,
        "reboot"@,
        "log-off"@,
        "lock-screen"@,
        "cancel-shutdown"@,
        "lock-wallpaper"@,
        "unlock-wallpaper"@,
    ];
    assert(names[0].len() == 8 && names[1].len() == 6 && names[2].len() == 7 && names[3].len()
        == 11 && names[4].len() == 15 && names[5].len() == 14 && names[6].len() == 16);
}

/// Turns an action name back into a typed action. Unknown names are refused, never guessed.
pub fn parse_action(name: &str, delay_seconds: u16) -> (a: Option<Action>)
    ensures
        a == action_for(name@, delay_seconds),
{
    let v = chars_of(name);
    if is_word(&v, "shutdown") {
        Some(Action::Shutdown { delay_seconds })
    } else if is_word(&v, "reboot") {
        Some(Action::Reboot { delay_seconds })
    } else if is_word(&v, "log-off") {
        Some(Action::LogOff)
    } else if is_word(&v, "lock-screen") {
        Some(Action::LockScreen)
    } else if is_word(&v, "cancel-shutdown") {
        Some(Action::CancelShutdown)
    } else if is_word(&v, "lock-wallpaper") {
        Some(Action::LockWallpaper)
    } else if is_word(&v, "unlock-wallpaper") {
        Some(Action::UnlockWallpaper)
    } else {
        None
    }
}

/// Maps a tool's action name to a typed action: the same closed list as [`parse_action`].
pub fn build_action(name: &str, delay_seconds: u16) -> (a: Option<Action>)
    ensures
        a == action_for(name@, delay_seconds),
{
    parse_action(name, delay_seconds)
}

/// Why a PC did not carry out an action.
#[derive(Debug, Clone, Copy, PartialEq, Eq, Structural)]
pub enum ActionFailure {
    /// This PC cannot do that.
    NotSupported,
    /// This PC is not allowed to do that.
    NotPermitted,
    /// There was no countdown to cancel.
    NothingScheduled,
    /// The action was tried and failed.
    Failed,
}

/// What a PC answered to an action.
#[derive(Debug, Clone, Copy, PartialEq, Eq, Structural)]
pub enum ActionOutcome {
    /// Started, with the countdown the PC actually applied.
    Started { delay_seconds: u16 },
    /// Not carried out.
    Failed(ActionFailure),
}

/// The code the interface translates for an outcome.
pub open spec fn result_code(o: ActionOutcome) -> Seq<char> {
    match o {
        ActionOutcome::Started { .. } => "started"@,
        ActionOutcome::Failed(ActionFailure::NotSupported) => "notSupported"@,
        ActionOutcome::Failed(ActionFailure::NotPermitted) => "notPermitted"@,
        ActionOutcome::Failed(ActionFailure::NothingScheduled) => "nothingScheduled"@,
        ActionOutcome::Failed(ActionFailure::Failed) => "failed"@,
    }
}

/// The answer to one action, in codes the interface translates.
#[derive(Debug, Clone, Copy, PartialEq, Eq)]
pub struct ActionReport {
    /// The stable action name.
    pub action: &'static str,
    /// `started`, or why not: `notSupported`, `notPermitted`, `nothingScheduled`, `failed`.
    pub result: &'static str,
    /// Countdown the PC actually started, after its own clamping.
    pub delay_seconds: u16,
    /// When the answer arrived, so the interface can fade old reports.
    pub at_ms: u64,
}

impl ActionReport {
    /// The report of `outcome` for `action`, received at `at_ms`.
    pub fn new(action: Action, outcome: ActionOutcome, at_ms: u64) -> (r: Self)
        ensures
            r.action@ == action_name(action),
            r.result@ == result_code(outcome),
            r.delay_seconds == (match outcome {
                ActionOutcome::Started { delay_seconds } => delay_seconds,
                ActionOutcome::Failed(_) => 0,
            }),
            r.at_ms == at_ms,
    {
        let (result, delay_seconds): (&'static str, u16) = match outcome {
            ActionOutcome::Started { delay_seconds } => ("started", delay_seconds),
            ActionOutcome::Failed(ActionFailure::NotSupported) => ("notSupported", 0),
            ActionOutcome::Failed(ActionFailure::NotPermitted) => ("notPermitted", 0),
            ActionOutcome::Failed(ActionFailure::NothingScheduled) => ("nothingScheduled", 0),
            ActionOutcome::Failed(ActionFailure::Failed) => ("failed", 0),
        };
        ActionReport { action: action.name(), result, delay_seconds, at_ms }
    }
}

/// Connection state of one device, in the order the interface colours them.
#[derive(Debug, Clone, Copy, PartialEq, Eq, Structural)]
pub enum DeviceStatus {
    /// Paired but not being watched (nothing is captured).
    Idle,
    /// Trying to reach the device.
    Connecting,
    /// Connected and receiving screens.
    Live,
    /// Unreachable: powered off, asleep, or off the network.
    Offline,
}

/// The lower-case name of a status, as the interface and the dashboard show it.
pub open spec fn status_name(s: DeviceStatus) -> Seq<char> {
    match s {
        DeviceStatus::Idle => "idle"@,
        DeviceStatus::Connecting => "connecting"@,
        DeviceStatus::Live => "live"@,
        DeviceStatus::Offline => "offline"@,
    }
}

impl DeviceStatus {
    /// The lower-case name of this status.
    pub fn name(self) -> (n: &'static str)
        ensures
            n@ == status_name(self),
    {
        match self {
            DeviceStatus::Idle => "idle",
            DeviceStatus::Connecting => "connecting",
            DeviceStatus::Live => "live",
            DeviceStatus::Offline => "offline",
        }
    }
}


/// Each action name stands for its own action, and each action is named by it: `shutdown` and
/// `reboot` (with the countdown given), `log-off`, `lock-screen`, `cancel-shutdown`,
/// `lock-wallpaper` locks the wallpaper and `unlock-wallpaper` unlocks it.
pub proof fn lemma_action_names_mean_their_actions(delay_seconds: u16)
    ensures
        action_for("shutdown"@, delay_seconds) == Some(Action::Shutdown { delay_seconds }),
        action_for("reboot"@, delay_seconds) == Some(Action::Reboot { delay_seconds }),
        action_for("log-off"@, delay_seconds) == Some(Action::LogOff),
        action_for("lock-screen"@, delay_seconds) == Some(Action::LockScreen),
        action_for("cancel-shutdown"@, delay_seconds) == Some(Action::CancelShutdown),
        action_for("lock-wallpaper"@, delay_seconds) == Some(Action::LockWallpaper),
        action_for("unlock-wallpaper"@, delay_seconds) == Some(Action::UnlockWallpaper),
        action_name(Action::Shutdown { delay_seconds }) == "shutdown"@,
        action_name(Action::Reboot { delay_seconds }) == "reboot"@,
        action_name(Action::LogOff) == "log-off"@,
        action_name(Action::LockScreen) == "lock-screen"@,
        action_name(Action::CancelShutdown) == "cancel-shutdown"@,
        action_name(Action::LockWallpaper) == "lock-wallpaper"@,
        action_name(Action::UnlockWallpaper) == "unlock-wallpaper"@,
{
    reveal_strlit("shutdown");
    reveal_strlit("reboot");
    reveal_strlit("log-off");
    reveal_strlit("lock-screen");
    reveal_strlit("cancel-shutdown");
    reveal_strlit("lock-wallpaper");
    reveal_strlit("unlock-wallpaper");
    assert("shutdown"@[0] != "reboot"@[0]);
    assert("shutdown"@[0] != "log-off"@[0]);
    assert("shutdown"@[0] != "lock-screen"@[0]);
    assert("shutdown"@[0] != "cancel-shutdown"@[0]);
    assert("shutdown"@[0] != "lock-wallpaper"@[0]);
    assert("shutdown"@[0] != "unlock-wallpaper"@[0]);
    assert("reboot"@[0] != "log-off"@[0]);
    assert("reboot"@[0] != "lock-screen"@[0]);
    assert("reboot"@[0] != "cancel-shutdown"@[0]);
    assert("reboot"@[0] != "lock-wallpaper"@[0]);
    assert("reboot"@[0] != "unlock-wallpaper"@[0]);
    assert("log-off"@[2] != "lock-screen"@[2]);
    assert("log-off"@[0] != "cancel-shutdown"@[0]);
    assert("log-off"@[2] != "lock-wallpaper"@[2]);
    assert("log-off"@[0] != "unlock-wallpaper"@[0]);
    assert("lock-screen"@[0] != "cancel-shutdown"@[0]);
    assert("lock-screen"@[5] != "lock-wallpaper"@[5]);
    assert("lock-screen"@[0] != "unlock-wallpaper"@[0]);
    assert("cancel-shutdown"@[0] != "lock-wallpaper"@[0]);
    assert("cancel-shutdown"@[0] != "unlock-wallpaper"@[0]);
    assert("lock-wallpaper"@[0] != "unlock-wallpaper"@[0]);
}

} // verus!

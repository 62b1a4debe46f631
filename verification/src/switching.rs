//! Entry serials, and the short, ordered hooks that accompany a switch.

use vstd::prelude::*;

verus! {

/// Number of values of a serial.
pub const SERIAL_RANGE: u64 = 0x1_0000_0000;

/// Half of the serial circle: a serial is newer than the ones less than this far behind it.
pub const SERIAL_HALF: u32 = 0x8000_0000;

/// How many increments lead from `previous` to `serial` on the serial circle.
pub open spec fn serial_distance(serial: u32, previous: u32) -> int {
    (serial - previous) % (SERIAL_RANGE as int)
}

/// What [`newer`] decides.
pub open spec fn is_newer(serial: u32, previous: u32) -> bool {
    0 < serial_distance(serial, previous) < SERIAL_HALF
}

/// Compares wrapping serials; duplicate or older entry packets never reactivate a session.
pub fn newer(serial: u32, previous: u32) -> (res: bool)
    ensures
        res == is_newer(serial, previous),
{
    serial != previous && serial.wrapping_sub(previous) < SERIAL_HALF
}

/// The serial that follows `previous`: the next number, where zero, which marks
/// an entry that is not a hotkey entry, is passed over.
pub open spec fn serial_after(previous: u32) -> u32 {
    if previous == u32::MAX {
        1
    } else {
        (previous + 1) as u32
    }
}

/// Picks the serial of the hotkey entry after the one with serial `previous`.
pub fn following_serial(previous: u32) -> (res: u32)
    ensures
        res == serial_after(previous),
{
    let next: u32 = previous.wrapping_add(1);
    if next < 1 {
        1
    } else {
        next
    }
}

/// The serial of the `count`-th hotkey entry after one with serial `first`.
pub open spec fn nth_serial(first: u32, count: nat) -> u32
    decreases count,
{
    if count == 0 {
        first
    } else {
        serial_after(nth_serial(first, (count - 1) as nat))
    }
}

/// The transitions that the switch hook is told about.
#[derive(Clone, Copy, Debug, PartialEq, Eq, Structural)]
pub enum HookState {
    /// an entry was requested
    Connecting,
    /// the client acknowledged the entry
    Remote,
    /// input is local again
    Local,
    /// a switch or the capture session failed
    Error,
    /// the capture session ended without a failure
    Reset,
}

/// The word that the hook finds in its environment for `state`.
pub open spec fn hook_word(state: HookState) -> Seq<char> {
    match state {
        HookState::Connecting => "connecting"@,
        HookState::Remote => "remote"@,
        HookState::Local => "local"@,
        HookState::Error => "error"@,
        HookState::Reset => "reset"@,
    }
}

impl HookState {
    /// The word that names this transition.
    pub fn word(self) -> (res: &'static str)
        ensures
            res@ == hook_word(self),
    {
        match self {
            HookState::Connecting => "connecting",
            HookState::Remote => "remote",
            HookState::Local => "local",
            HookState::Error => "error",
            HookState::Reset => "reset",
        }
    }
}

/// Nanoseconds after which a hook is given up and killed.
pub const HOOK_TIMEOUT_NANOS: u64 = 1_000_000_000;

/// A process to run: a program, its arguments, one variable of its environment, and
/// the time in which it has to end.
#[derive(Clone, Debug)]
pub struct HookCommand {
    pub program: String,
    pub args: Vec<String>,
    pub variable: String,
    pub value: String,
    pub timeout_nanos: u64,
}

/// Turns the configured hook into the process that announces `state`.
/// Without a hook there is nothing to run.
pub fn hook_command(command: Option<String>, state: &str) -> (res: Option<HookCommand>)
    ensures
        command is None ==> res is None,
        command matches Some(script) ==> {
            &&& res is Some
            &&& res->0.program@ == "sh"@
            &&& res->0.args@.len() == 2
            &&& res->0.args@[0]@ == "-c"@
            &&& res->0.args@[1]@ == script@
            &&& res->0.variable@ == "LAN_MOUSE_STATE"@
            &&& res->0.value@ == state@
            &&& res->0.timeout_nanos == HOOK_TIMEOUT_NANOS
        },
{
    match command {
        None => None,
        Some(script) => {
            let mut args: Vec<String> = Vec::new();
            args.push("-c".to_string());
            args.push(script);
            Some(
                HookCommand {
                    program: "sh".to_string(),
                    args,
                    variable: "LAN_MOUSE_STATE".to_string(),
                    value: state.to_string(),
                    timeout_nanos: HOOK_TIMEOUT_NANOS,
                },
            )
        },
    }
}

/// How an attempt to run a hook ended.
#[derive(Clone, Copy, Debug, PartialEq, Eq, Structural)]
pub enum HookOutcome {
    /// no hook is configured
    NotConfigured,
    /// the hook did not end in time
    TimedOut,
    /// the process could not be started or waited for
    NotRun,
    /// the process ended
    Exited { success: bool },
}

/// Whether a hook succeeded: there was none, or it ended in time and with success.
pub fn hook_ok(outcome: HookOutcome) -> (res: bool)
    ensures
        res <==> outcome == HookOutcome::NotConfigured || outcome == (HookOutcome::Exited {
            success: true,
        }),
{
    match outcome {
        HookOutcome::NotConfigured => true,
        HookOutcome::TimedOut => false,
        HookOutcome::NotRun => false,
        HookOutcome::Exited { success } => success,
    }
}

} // verus!

use lan_mouse::switching::{
    following_serial, hook_command, hook_ok, newer, HookOutcome, HookState, HOOK_TIMEOUT_NANOS,
};
use std::time::Duration;

#[test]
fn serial_order_rejects_duplicates_and_stale_packets() {
    assert!(!newer(7, 7));
    assert!(!newer(6, 7));
    assert!(newer(8, 7));
    assert!(newer(1, u32::MAX));
    assert!(!newer(u32::MAX, 1));
}

#[test]
fn opposite_serials_are_not_newer_than_each_other() {
    assert!(!newer(0x8000_0000, 0));
    assert!(!newer(0, 0x8000_0000));
    assert!(newer(0x7fff_ffff, 0));
    assert!(!newer(0, 0x7fff_ffff));
    assert!(!newer(0x8000_0001, 0));
    assert!(newer(0, 0x8000_0001));
}

#[test]
fn serials_skip_zero() {
    assert_eq!(following_serial(0), 1);
    assert_eq!(following_serial(1), 2);
    assert_eq!(following_serial(u32::MAX - 1), u32::MAX);
    assert_eq!(following_serial(u32::MAX), 1);
    assert!(newer(following_serial(u32::MAX), u32::MAX));
}

fn run_hook(command: Option<String>, state: &str) -> bool {
    let outcome = match hook_command(command, state) {
        None => HookOutcome::NotConfigured,
        Some(hook) => {
            let runtime = tokio::runtime::Builder::new_current_thread()
                .enable_all()
                .build()
                .unwrap();
            runtime.block_on(async {
                let mut process = tokio::process::Command::new(&hook.program);
                process
                    .args(&hook.args)
                    .env(&hook.variable, &hook.value)
                    .kill_on_drop(true);
                let limit = Duration::from_nanos(hook.timeout_nanos);
                match tokio::time::timeout(limit, process.status()).await {
                    Ok(Ok(status)) => HookOutcome::Exited {
                        success: status.success(),
                    },
                    Ok(Err(_)) => HookOutcome::NotRun,
                    Err(_) => HookOutcome::TimedOut,
                }
            })
        }
    };
    hook_ok(outcome)
}

#[test]
fn hook_reports_failure() {
    assert!(run_hook(None, "connecting"));
    assert!(!run_hook(Some("exit 1".into()), "connecting"));
    assert!(run_hook(
        Some("test \"$LAN_MOUSE_STATE\" = remote".into()),
        "remote"
    ));
}

#[test]
fn hook_is_a_shell_command_with_the_state_in_its_environment() {
    assert!(hook_command(None, "remote").is_none());
    let hook = hook_command(Some("lm-feedback --now".to_string()), "remote").unwrap();
    assert_eq!(hook.program, "sh");
    assert_eq!(hook.args, vec!["-c".to_string(), "lm-feedback --now".to_string()]);
    assert_eq!(hook.variable, "LAN_MOUSE_STATE");
    assert_eq!(hook.value, "remote");
    assert_eq!(hook.timeout_nanos, 1_000_000_000);
}

#[test]
fn only_a_successful_hook_is_ok() {
    assert!(hook_ok(HookOutcome::NotConfigured));
    assert!(hook_ok(HookOutcome::Exited { success: true }));
    assert!(!hook_ok(HookOutcome::Exited { success: false }));
    assert!(!hook_ok(HookOutcome::NotRun));
    assert!(!hook_ok(HookOutcome::TimedOut));
    assert_eq!(HOOK_TIMEOUT_NANOS, 1_000_000_000);
}

#[test]
fn states_have_their_words() {
    assert_eq!(HookState::Connecting.word(), "connecting");
    assert_eq!(HookState::Remote.word(), "remote");
    assert_eq!(HookState::Local.word(), "local");
    assert_eq!(HookState::Error.word(), "error");
    assert_eq!(HookState::Reset.word(), "reset");
}

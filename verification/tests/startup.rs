use exchange_sim::startup::{startup_step, StartupStep};

#[test]
fn waits_double_up_to_sixteen_seconds() {
    let delays: Vec<StartupStep> = (0..9).map(|failed| startup_step(failed, false)).collect();
    let expected: Vec<StartupStep> = [2u64, 4, 8, 16, 16, 16, 16, 16, 16]
        .iter()
        .map(|secs| StartupStep::Retry { delay_secs: *secs })
        .collect();
    assert_eq!(delays, expected);
}

#[test]
fn gives_up_at_the_tenth_failure() {
    assert_eq!(startup_step(9, false), StartupStep::GiveUp);
    assert_eq!(startup_step(u32::MAX, false), StartupStep::GiveUp);
}

#[test]
fn goes_when_the_store_is_ready() {
    assert_eq!(startup_step(0, true), StartupStep::Go);
    assert_eq!(startup_step(9, true), StartupStep::Go);
}

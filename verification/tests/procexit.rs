use rustquit::procexit::{after_wait, exit_kind, ExitKind, ProcExitWatcher, WaitStep};

#[test]
fn signals_are_crashes() {
    assert_eq!(exit_kind(0), ExitKind::Clean);
    assert_eq!(exit_kind(1 << 8), ExitKind::Clean);
    assert_eq!(exit_kind(9), ExitKind::Crashed);
    assert_eq!(exit_kind(11), ExitKind::Crashed);
    assert_eq!(exit_kind(11 | 0x80), ExitKind::Crashed);
    assert_eq!(exit_kind(126), ExitKind::Crashed);
    assert_eq!(exit_kind(127), ExitKind::Clean);
    assert_eq!(exit_kind(-1), ExitKind::Clean);
    assert_eq!(exit_kind(-128), ExitKind::Clean);
    assert_eq!(exit_kind(-127), ExitKind::Crashed);
    for status in -1000..1000 {
        let low = status & 0x7f;
        let crashed = low != 0 && low != 0x7f;
        assert_eq!(exit_kind(status) == ExitKind::Crashed, crashed);
    }
}

#[test]
fn exits_are_handed_out_once() {
    let mut exits = ProcExitWatcher::new();
    exits.record(5, 9);
    exits.record(6, 0);
    assert_eq!(exits.take_exit_kind(5), Some(ExitKind::Crashed));
    assert_eq!(exits.take_exit_kind(5), None);
    assert_eq!(exits.take_exit_kind(6), Some(ExitKind::Clean));
    assert_eq!(exits.take_exit_kind(7), None);
}

#[test]
fn waiting_goes_on_until_the_queue_fails() {
    assert_eq!(after_wait(-1, true, false), WaitStep::Again);
    assert_eq!(after_wait(-1, false, true), WaitStep::Stop);
    assert_eq!(after_wait(0, false, true), WaitStep::Again);
    assert_eq!(after_wait(1, false, false), WaitStep::Again);
    assert_eq!(after_wait(1, false, true), WaitStep::Record);
}

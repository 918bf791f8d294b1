use rackctl::port::{
    log_line, IdleWait, ScanWait, DRAIN_QUIET_POLLS, REPLY_POLLS, SCAN_QUIET_POLLS,
};

#[test]
fn reply_wait_gives_up_after_its_silent_polls() {
    let mut w = IdleWait::reply();
    let mut polls = 0;
    while w.waiting() {
        w.silence();
        polls += 1;
    }
    assert_eq!(polls, REPLY_POLLS);
    assert_eq!(polls, 1200);
}

#[test]
fn bytes_restart_the_idle_count() {
    let mut w = IdleWait::reply();
    for _ in 0..1000 {
        w.silence();
    }
    w.bytes();
    assert_eq!(w.idle, 0);
    for _ in 0..1100 {
        assert!(w.waiting());
        w.silence();
    }
    assert!(w.waiting());
    assert_eq!(w.idle, 1100);
}

#[test]
fn drain_ends_after_twenty_quiet_polls() {
    let mut w = IdleWait::drain();
    assert_eq!(w.limit, DRAIN_QUIET_POLLS);
    let mut polls = 0;
    while w.waiting() {
        if polls == 5 {
            w.bytes();
        } else {
            w.silence();
        }
        polls += 1;
    }
    assert_eq!(polls, 6 + 20);
}

#[test]
fn scan_stops_on_quiet_once_a_reply_arrived() {
    let mut w = ScanWait::new();
    for _ in 0..SCAN_QUIET_POLLS - 1 {
        assert!(!w.silence(true));
    }
    assert!(w.silence(true));
    assert_eq!(w.quiet, 50);
}

#[test]
fn scan_waits_the_full_reply_time_while_nothing_arrived() {
    let mut w = ScanWait::new();
    for _ in 0..REPLY_POLLS - 1 {
        assert!(!w.silence(false));
    }
    w.bytes();
    assert_eq!(w.quiet, 0);
    assert_eq!(w.waited, REPLY_POLLS - 1);
    assert!(w.silence(false));
}

#[test]
fn log_line_layout() {
    assert_eq!(log_line(15, '>', &[0xF0, 0x7E, 0x7F]), "      15 >    3 F0 7E 7F");
    assert_eq!(log_line(123456789, '<', &[0x0B]), "123456789 <    1 0B");
    assert_eq!(log_line(0, '<', &[]), "       0 <    0 ");
}

use rmcmc::discrete::propose_discrete;
use rmcmc::{AdaptState, AdaptWindow};

#[test]
fn window_closes_every_interval() {
    // 100 updates with an interval of 10 close the window 10 times
    let mut w = AdaptWindow::new(10);
    w.enable();
    let mut closed = 0;
    for _ in 0..100 {
        if w.record() {
            closed += 1;
        }
    }
    assert_eq!(closed, 10);
    assert_eq!(w.n_updates(), 0);
    assert_eq!(w.adapt_interval(), 10);
}

#[test]
fn disabled_window_ignores_updates() {
    let mut w = AdaptWindow::new(3);
    for _ in 0..10 {
        assert!(!w.record());
    }
    assert_eq!(w.n_updates(), 0);
    assert!(w.state() == AdaptState::Off);
    w.enable();
    assert!(w.state() == AdaptState::On);
    assert!(!w.record());
    assert!(!w.record());
    assert!(w.record());
    w.record();
    w.disable();
    assert_eq!(w.n_updates(), 1);
}

#[test]
fn reset_restores_fresh_window() {
    let mut w = AdaptWindow::new(4);
    w.enable();
    for _ in 0..7 {
        w.record();
    }
    assert_eq!(w.n_updates(), 3);
    w.reset();
    assert_eq!(w, AdaptWindow::new(4));
    assert!(w.state() == AdaptState::Off);
}

#[test]
fn zero_interval_closes_every_update() {
    let mut w = AdaptWindow::new(0);
    w.enable();
    assert!(w.record());
    assert!(w.record());
    assert_eq!(w.n_updates(), 0);
}

#[test]
fn discrete_proposal_moves_and_saturates() {
    assert_eq!(propose_discrete(5, 3, true), 8);
    assert_eq!(propose_discrete(5, 3, false), 2);
    assert_eq!(propose_discrete(-100, 0, true), -100);
    assert_eq!(propose_discrete(i64::MAX - 1, 5, true), i64::MAX);
    assert_eq!(propose_discrete(i64::MIN + 1, 5, false), i64::MIN);
    assert_eq!(propose_discrete(0, u64::MAX, true), i64::MAX);
    assert_eq!(propose_discrete(0, u64::MAX, false), i64::MIN);
    // a move and its reverse cancel away from the bounds
    assert_eq!(propose_discrete(propose_discrete(17, 40, false), 40, true), 17);
}

use microscan::scheduler::{radio, timer0, NextUpdate, ScanCommand, ScanState};

fn in_step(s: &ScanState) -> bool {
    s.timer_wake == s.scanner_wake && s.radio_listen == s.scanner_listen
}

#[test]
fn configured_state_is_consistent() {
    let s = ScanState::configured(ScanCommand { listen: Some(37), next_update: NextUpdate::At(500) });
    assert_eq!(s.timer_wake, Some(500));
    assert_eq!(s.radio_listen, Some(37));
    assert!(in_step(&s));
}

#[test]
fn radio_rearms_timer_only_when_asked() {
    let mut s = ScanState::configured(ScanCommand { listen: Some(37), next_update: NextUpdate::At(500) });
    assert_eq!(radio(&mut s, None), None);
    assert_eq!(s.timer_wake, Some(500));
    assert_eq!(radio(&mut s, Some(900)), Some(900));
    assert_eq!(s.timer_wake, Some(900));
    assert_eq!(s.scanner_wake, Some(900));
    assert!(in_step(&s));
}

#[test]
fn spurious_timer_interrupt_is_ignored() {
    let mut s = ScanState::configured(ScanCommand { listen: Some(38), next_update: NextUpdate::At(10) });
    assert!(timer0(&mut s, None).is_none());
    assert_eq!(s.timer_wake, Some(10));
    assert_eq!(s.radio_listen, Some(38));
}

#[test]
fn timer_applies_scanner_command() {
    let mut s = ScanState::configured(ScanCommand { listen: Some(37), next_update: NextUpdate::At(10) });
    let c = timer0(&mut s, Some(ScanCommand { listen: Some(39), next_update: NextUpdate::At(20) }));
    assert!(c.is_some());
    assert_eq!(s.radio_listen, Some(39));
    assert_eq!(s.timer_wake, Some(20));
    timer0(&mut s, Some(ScanCommand { listen: None, next_update: NextUpdate::Keep }));
    assert_eq!(s.timer_wake, Some(20));
    assert_eq!(s.radio_listen, None);
    timer0(&mut s, Some(ScanCommand { listen: Some(37), next_update: NextUpdate::Disable }));
    assert_eq!(s.timer_wake, None);
    assert!(in_step(&s));
}

#[test]
fn interleaved_handlers_stay_consistent() {
    let mut s = ScanState::configured(ScanCommand { listen: Some(37), next_update: NextUpdate::At(0) });
    for k in 0..50u32 {
        if k % 3 == 0 {
            radio(&mut s, if k % 2 == 0 { Some(k * 7) } else { None });
        } else {
            let listen = Some(37 + (k % 3) as u8);
            let next = if k % 5 == 0 { NextUpdate::Keep } else { NextUpdate::At(k * 11) };
            timer0(&mut s, if k % 4 == 0 { None } else { Some(ScanCommand { listen, next_update: next }) });
        }
        assert!(in_step(&s));
    }
}

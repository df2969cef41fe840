use inject::client::{add10, add5, client_next, wtf, ClientAction};

#[test]
fn add5_adds_five() {
    assert_eq!(add5(1), 6);
    assert_eq!(add5(-5), 0);
    assert_eq!(add5(i32::MAX - 5), i32::MAX);
}

#[test]
fn add10_adds_two_hundred_ten() {
    assert_eq!(add10(0), 210);
    assert_eq!(add10(-210), 0);
}

#[test]
fn wtf_reports_69() {
    assert_eq!(wtf(), 69);
}

#[test]
fn client_routine() {
    assert_eq!(client_next(0), Some(ClientAction::Greet));
    assert_eq!(client_next(1), Some(ClientAction::HurtPlayer));
    assert_eq!(client_next(2), Some(ClientAction::SwingOffHand));
    assert_eq!(client_next(3), Some(ClientAction::AllowFlying));
    assert_eq!(client_next(4), Some(ClientAction::StartFlying));
    assert_eq!(client_next(5), Some(ClientAction::PrintStatus));
    assert_eq!(client_next(6), Some(ClientAction::Pause { millis: 50 }));
    assert_eq!(client_next(7), Some(ClientAction::SwingOffHand));
    assert_eq!(client_next(501), Some(ClientAction::Pause { millis: 50 }));
    assert_eq!(client_next(502), Some(ClientAction::Detach));
    assert_eq!(client_next(503), None);
    assert_eq!(client_next(u32::MAX), None);
}

#[test]
fn client_routine_counts() {
    let mut step = 0u32;
    let mut pauses = 0;
    let mut swings = 0;
    let mut last = None;
    while let Some(action) = client_next(step) {
        match action {
            ClientAction::Pause { millis } => {
                assert_eq!(millis, 50);
                pauses += 1;
            }
            ClientAction::SwingOffHand => swings += 1,
            _ => {}
        }
        last = Some(action);
        step += 1;
    }
    assert_eq!(step, 503);
    assert_eq!(pauses, 100);
    assert_eq!(swings, 100);
    assert_eq!(last, Some(ClientAction::Detach));
}

use ombrac_mux::error::Error;
use ombrac_mux::stream::window::{WindowControl, DEFAULT_WINDOW_SIZE, MAX_WINDOW_SIZE};

#[test]
fn test_window_overflow() {
    let mut control = WindowControl::new();
    let max_increment = usize::MAX - DEFAULT_WINDOW_SIZE + 1;

    assert!(control.update_send_window(max_increment).is_err());
}

#[test]
fn windows_start_at_their_default() {
    let control = WindowControl::new();
    assert_eq!(control.send_window(), 65_535);
    assert_eq!(control.recv_window(), 65_535);
}

#[test]
fn overflow_and_excess_are_told_apart() {
    let mut control = WindowControl::new();
    assert_eq!(control.update_send_window(usize::MAX), Err(Error::WindowOverflow));
    assert_eq!(control.update_send_window(usize::MAX - 65_535), Err(Error::WindowExceeded));
    assert_eq!(control.update_send_window(MAX_WINDOW_SIZE - 65_534), Err(Error::WindowExceeded));
    assert_eq!(control.send_window(), 65_535);
    assert_eq!(control.update_send_window(MAX_WINDOW_SIZE - 65_535), Ok(()));
    assert_eq!(control.send_window(), 1_073_741_823);
}

#[test]
fn spending_stops_at_zero() {
    let mut control = WindowControl::new();
    assert_eq!(control.consume_send_window(65_536), Err(Error::WindowInsufficient));
    assert_eq!(control.consume_send_window(65_535), Ok(()));
    assert_eq!(control.send_window(), 0);
    assert_eq!(control.consume_send_window(1), Err(Error::WindowInsufficient));
    assert_eq!(control.consume_send_window(0), Ok(()));
}

#[test]
fn what_was_spent_can_be_granted_or_taken_back() {
    let mut control = WindowControl::new();
    control.consume_send_window(1000).unwrap();
    assert_eq!(control.send_window(), 64_535);
    control.update_send_window(1000).unwrap();
    assert_eq!(control.send_window(), 65_535);
    control.consume_send_window(7).unwrap();
    control.restore_send_window(7);
    assert_eq!(control.send_window(), 65_535);
}

#[test]
fn a_run_of_events_balances() {
    let mut control = WindowControl::new();
    let mut granted = 0;
    let mut spent = 0;
    for n in [60_000usize, 10_000, 5_000, 70_000, 535] {
        if control.consume_send_window(n).is_ok() {
            spent += n;
        }
        if control.update_send_window(n / 2).is_ok() {
            granted += n / 2;
        }
    }
    assert_eq!(control.send_window() + spent, 65_535 + granted);
}

#[test]
fn grants_come_when_half_is_gone() {
    let mut control = WindowControl::new();
    assert_eq!(control.should_update_recv_window(32_767), None);
    assert_eq!(control.recv_window(), 32_768);
    assert_eq!(control.should_update_recv_window(1), Some(32_768));
    assert_eq!(control.should_update_recv_window(0), Some(32_768));
    assert_eq!(control.should_update_recv_window(32_767), Some(65_535));
    assert_eq!(control.recv_window(), 0);
    assert_eq!(control.should_update_recv_window(1), Some(65_535));
    assert_eq!(control.recv_window(), 0);
}

#[test]
fn arrivals_stop_at_zero() {
    let mut control = WindowControl::new();
    assert_eq!(control.consume_recv_window(65_536), Err(Error::WindowInsufficient));
    assert_eq!(control.recv_window(), 65_535);
    assert_eq!(control.consume_recv_window(65_535), Ok(()));
    assert_eq!(control.recv_window(), 0);
    assert_eq!(control.consume_recv_window(1), Err(Error::WindowInsufficient));
    assert_eq!(control.consume_recv_window(0), Ok(()));
}

#[test]
fn the_windows_count_the_two_directions() {
    let mut control = WindowControl::new();
    control.consume_send_window(10).unwrap();
    control.update_send_window(3).unwrap();
    assert_eq!((control.send_window(), control.recv_window()), (65_528, 65_535));
    control.consume_recv_window(100).unwrap();
    control.should_update_recv_window(20);
    assert_eq!((control.send_window(), control.recv_window()), (65_528, 65_415));
}

#[test]
fn nothing_raises_the_receive_window() {
    let mut control = WindowControl::new();
    let mut arrived = 0;
    for n in [30_000usize, 20_000, 10_000, 30_000, 5_000] {
        if control.consume_recv_window(n).is_ok() {
            arrived += n;
        }
        let grant = control.should_update_recv_window(n / 10);
        if let Some(grant) = grant {
            assert_eq!(control.recv_window() + grant, 65_535);
        }
        control.update_send_window(1_000).unwrap();
        assert!(control.recv_window() + arrived <= 65_535);
    }
    assert_eq!(arrived, 60_000);
}

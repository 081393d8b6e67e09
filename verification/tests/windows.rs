use gpui2::{AppContext, BridgeError, Violation, WindowId, WindowMap};

#[test]
fn windows_are_numbered_in_the_order_they_open() {
    let mut windows: WindowMap<&'static str, u8> = WindowMap::new();
    assert!(windows.can_open());
    assert_eq!(windows.open("first"), WindowId(0));
    assert_eq!(windows.open("second"), WindowId(1));
    assert!(windows.is_open(WindowId(0)));
    assert!(windows.is_open(WindowId(1)));
    assert!(!windows.is_open(WindowId(2)));
}

#[test]
fn the_state_of_a_window_is_absent_while_it_is_updated() {
    let mut app: AppContext<i64, u8> = AppContext::new();
    let id = app.open_window(10);
    let mut lease = app.lease_window(id).unwrap();
    assert_eq!(lease.window_id(), id);
    assert_eq!(*lease.window(), 10);
    assert!(app.windows().is_open(id));
    assert_eq!(
        app.lease_window(id).err(),
        Some(BridgeError::Violation(Violation::Absent))
    );
    *lease.window_mut() = 11;
    assert_eq!(app.end_window_lease(lease), Ok(()));
    let lease = app.lease_window(id).unwrap();
    assert_eq!(*lease.window(), 11);
    app.end_window_lease(lease).unwrap();
}

#[test]
fn a_window_that_is_not_open_is_not_found() {
    let mut app: AppContext<i64, u8> = AppContext::new();
    assert_eq!(app.lease_window(WindowId(3)).err(), Some(BridgeError::WindowNotFound));
    assert_eq!(app.close_window(WindowId(3)), Err(BridgeError::WindowNotFound));
    assert_eq!(app.on_next_frame(WindowId(3), 1), Err(BridgeError::WindowNotFound));
    assert!(app.take_frame_callbacks(WindowId(3)).is_empty());
    let id = app.open_window(1);
    assert_eq!(app.close_window(id), Ok(Some(1)));
    assert_eq!(app.lease_window(id).err(), Some(BridgeError::WindowNotFound));
    assert_eq!(app.open_window(2), WindowId(1));
}

#[test]
fn a_window_closed_during_its_update_is_not_found_at_the_end() {
    let mut app: AppContext<i64, u8> = AppContext::new();
    let id = app.open_window(10);
    let lease = app.lease_window(id).unwrap();
    assert_eq!(app.close_window(id), Ok(None));
    assert_eq!(app.end_window_lease(lease), Err(BridgeError::WindowNotFound));
    assert!(!app.windows().is_open(id));
}

#[test]
fn the_state_of_a_window_is_put_back_once() {
    let mut a: WindowMap<i64, u8> = WindowMap::new();
    let mut b: WindowMap<i64, u8> = WindowMap::new();
    let id = a.open(1);
    assert_eq!(b.open(2), id);
    let lease = a.lease(id).unwrap();
    assert_eq!(
        b.end_lease(lease),
        Err(BridgeError::Violation(Violation::NotLeased))
    );
    assert_eq!(b.close(id), Ok(Some(2)));
}

#[test]
fn frame_callbacks_wait_in_order_and_are_taken_once() {
    let mut app: AppContext<i64, u8> = AppContext::new();
    let id = app.open_window(0);
    let other = app.open_window(0);
    assert_eq!(app.on_next_frame(id, 7), Ok(true));
    assert_eq!(app.on_next_frame(id, 8), Ok(false));
    assert_eq!(app.on_next_frame(other, 9), Ok(true));
    let lease = app.lease_window(id).unwrap();
    assert_eq!(app.on_next_frame(id, 10), Ok(false));
    app.end_window_lease(lease).unwrap();
    assert_eq!(app.take_frame_callbacks(id), vec![7, 8, 10]);
    assert!(app.take_frame_callbacks(id).is_empty());
    assert_eq!(app.on_next_frame(id, 11), Ok(true));
    assert_eq!(app.take_frame_callbacks(other), vec![9]);
}

use poll_selector::event::{POLLERR, POLLHUP, POLLIN, POLLOUT, POLLPRI, READ_BITS, WRITE_BITS};
use poll_selector::{poll_timeout, Event, Events, Interest, Selector, SelectorError, Token};

fn fds(selector: &Selector) -> Vec<i32> {
    selector.registrations().iter().map(|e| e.fd).collect()
}

#[test]
fn ready_descriptor_gives_one_event_with_its_token() {
    let mut selector = Selector::new(1);
    assert_eq!(selector.register(5, Token(5), Interest::readable()), Ok(()));
    let mut events: Events = Vec::new();
    selector.select(&mut events, &vec![POLLIN]);
    assert_eq!(events.len(), 1);
    assert_eq!(events[0].fd, 5);
    assert_eq!(events[0].token, Token(5));
    assert_eq!(events[0].revents, POLLIN);
}

#[test]
fn register_twice_is_refused() {
    let mut selector = Selector::new(1);
    assert_eq!(selector.register(3, Token(30), Interest::readable()), Ok(()));
    let before: Vec<Event> = selector.registrations().clone();
    assert_eq!(selector.register(3, Token(31), Interest::writable()), Err(SelectorError::AlreadyRegistered(3)));
    assert_eq!(selector.registrations(), &before);
}

#[test]
fn register_adds_translated_entry() {
    let mut selector = Selector::new(1);
    selector.register(4, Token(40), Interest::writable()).unwrap();
    let e = selector.registrations()[0];
    assert_eq!(e, Event { fd: 4, events: WRITE_BITS, revents: 0, token: Token(40) });
}

#[test]
fn reregister_unknown_is_not_found() {
    let mut selector = Selector::new(1);
    assert_eq!(selector.reregister(9, Token(9), Interest::readable()), Err(SelectorError::NotFound(9)));
    assert!(selector.registrations().is_empty());
}

#[test]
fn reregister_replaces_interest_and_token() {
    let mut selector = Selector::new(1);
    selector.register(4, Token(40), Interest::readable()).unwrap();
    selector.register(6, Token(60), Interest::readable()).unwrap();
    let mut events: Events = Vec::new();
    selector.select(&mut events, &vec![POLLIN, 0]);
    assert_eq!(selector.reregister(4, Token(41), Interest::writable()), Ok(()));
    let e = selector.registrations()[0];
    assert_eq!(e, Event { fd: 4, events: WRITE_BITS, revents: POLLIN, token: Token(41) });
    assert_eq!(selector.registrations()[1].events, READ_BITS);
}

#[test]
fn deregister_removes_one_entry_in_order() {
    let mut selector = Selector::new(1);
    for fd in [3, 4, 5] {
        selector.register(fd, Token(fd as usize), Interest::readable()).unwrap();
    }
    assert_eq!(selector.deregister(4), Ok(()));
    assert_eq!(fds(&selector), vec![3, 5]);
    assert_eq!(selector.deregister(4), Err(SelectorError::NotFound(4)));
    assert_eq!(fds(&selector), vec![3, 5]);
}

#[test]
fn deregistered_descriptor_is_never_reported() {
    let mut selector = Selector::new(1);
    selector.register(3, Token(3), Interest::readable()).unwrap();
    selector.register(4, Token(4), Interest::readable()).unwrap();
    selector.deregister(3).unwrap();
    let mut events: Events = Vec::new();
    selector.select(&mut events, &vec![POLLIN]);
    assert_eq!(events.len(), 1);
    assert_eq!(events[0].fd, 4);
    selector.select(&mut events, &vec![POLLIN | POLLHUP]);
    assert!(events.iter().all(|e| e.fd != 3));
}

#[test]
fn select_reports_only_tracked_classes_in_table_order() {
    let mut selector = Selector::new(1);
    for fd in [10, 11, 12, 13, 14] {
        selector.register(fd, Token(fd as usize + 100), Interest::readable().add(Interest::writable())).unwrap();
    }
    let mut events: Events = vec![Event { fd: 99, events: 0, revents: 0, token: Token(0) }];
    selector.select(&mut events, &vec![POLLOUT, 0, POLLHUP, 0x400, POLLPRI]);
    let got: Vec<(i32, Token)> = events.iter().map(|e| (e.fd, e.token)).collect();
    assert_eq!(got, vec![(10, Token(110)), (12, Token(112)), (14, Token(114))]);
    assert_eq!(selector.registrations()[3].revents, 0x400);
}

#[test]
fn select_on_empty_table_clears_batch() {
    let mut selector = Selector::new(1);
    let mut events: Events = vec![Event { fd: 1, events: 0, revents: POLLERR, token: Token(1) }];
    selector.select(&mut events, &Vec::new());
    assert!(events.is_empty());
}

#[test]
fn timeout_conversion() {
    assert_eq!(poll_timeout(None), -1);
    assert_eq!(poll_timeout(Some(0)), 0);
    assert_eq!(poll_timeout(Some(1500)), 1500);
    assert_eq!(poll_timeout(Some(i32::MAX as u128)), i32::MAX);
    assert_eq!(poll_timeout(Some(u128::MAX)), i32::MAX);
}

#[test]
fn clone_keeps_identity_and_owns_its_table() {
    let mut source = Selector::new(42);
    source.register(3, Token(3), Interest::readable()).unwrap();
    let mut clone = source.try_clone();
    assert_eq!(clone.id(), source.id());
    assert_eq!(clone.registrations(), source.registrations());
    clone.register(8, Token(8), Interest::writable()).unwrap();
    clone.deregister(3).unwrap();
    assert_eq!(fds(&source), vec![3]);
    assert_eq!(fds(&clone), vec![8]);
}

#[test]
fn waker_latch_is_one_shot() {
    let mut selector = Selector::new(2);
    assert!(!selector.has_waker());
    assert!(!selector.register_waker());
    assert!(selector.register_waker());
    let clone = selector.try_clone();
    assert!(clone.has_waker());
}

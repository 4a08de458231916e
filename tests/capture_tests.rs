use image_proc::capture::{on_frame, Action, Command, Discovery, Registry, MAX_MISSES};

#[test]
fn open_for_unregistered_id_does_nothing() {
    let mut r = Registry::new();
    assert_eq!(r.handle(Command::Open(3)), Action::Idle);
    r.opened(3, true);
    assert!(!r.is_polled(3));
    assert!(r.polled().is_empty());
    // other devices come and go; 3 is never read
    assert_eq!(r.handle(Command::Register(1)), Action::Store(1));
    assert_eq!(r.handle(Command::Open(1)), Action::TryOpen(1));
    r.opened(1, true);
    assert_eq!(r.handle(Command::Open(3)), Action::Idle);
    assert_eq!(r.handle(Command::Close(3)), Action::Idle);
    assert_eq!(r.polled(), vec![1]);
    assert!(!r.is_polled(3));
}

#[test]
fn registered_device_is_read_only_once_open() {
    let mut r = Registry::new();
    assert_eq!(r.handle(Command::Register(0)), Action::Store(0));
    assert!(r.polled().is_empty());
    assert_eq!(r.handle(Command::Open(0)), Action::TryOpen(0));
    r.opened(0, false);
    assert!(!r.is_polled(0));
    assert_eq!(r.handle(Command::Open(0)), Action::TryOpen(0));
    r.opened(0, true);
    assert!(r.is_polled(0));
    // already open: nothing more to do
    assert_eq!(r.handle(Command::Open(0)), Action::Idle);
    assert_eq!(r.handle(Command::Close(0)), Action::Release(0));
    assert!(!r.is_polled(0));
}

#[test]
fn registering_again_replaces_the_device_closed() {
    let mut r = Registry::new();
    r.handle(Command::Register(2));
    r.handle(Command::Open(2));
    r.opened(2, true);
    assert_eq!(r.handle(Command::Register(2)), Action::Store(2));
    assert!(!r.is_polled(2));
    r.handle(Command::Register(4));
    r.handle(Command::Open(4));
    r.opened(4, true);
    r.handle(Command::Open(2));
    r.opened(2, true);
    let mut ids = r.polled();
    ids.sort();
    assert_eq!(ids, vec![2, 4]);
}

#[test]
fn shutdown_stops_the_loop() {
    let mut r = Registry::new();
    assert_eq!(r.handle(Command::Shutdown), Action::Stop);
}

#[test]
fn frames_of_other_devices_close_them() {
    assert_eq!(on_frame(Some(1), 2), Some(Command::Close(2)));
    assert_eq!(on_frame(Some(2), 2), None);
    assert_eq!(on_frame(None, 2), None);
}

#[test]
fn discovery_stops_after_consecutive_misses() {
    let mut d = Discovery::new();
    // devices 0 and 2 answer, then nothing
    let answers = [true, false, true, false, false, false, false, false, true];
    let mut probed = Vec::new();
    let mut k = 0;
    while let Some(id) = d.next_probe() {
        probed.push(id);
        d.record(answers[k]);
        k += 1;
    }
    assert_eq!(MAX_MISSES, 5);
    assert_eq!(probed, vec![0, 1, 2, 3, 4, 5, 6, 7]);
    assert_eq!(d.found(), &vec![0, 2]);
}

#[test]
fn discovery_with_no_devices_probes_five_ids() {
    let mut d = Discovery::new();
    let mut n = 0;
    while d.next_probe().is_some() {
        d.record(false);
        n += 1;
    }
    assert_eq!(n, 5);
    assert!(d.found().is_empty());
}

use lightguide::drivers::kk_mk2::DeviceEntry;
use lightguide::hotplug::{same_path, transition_events, HotplugEvent, HotplugWatcher};

fn path(p: &str) -> Option<Vec<u8>> {
    Some(p.as_bytes().to_vec())
}

#[test]
fn arrival_departure_and_move() {
    assert_eq!(
        transition_events(&None, &path("/a")),
        vec![HotplugEvent::KkMk2Connected { path: b"/a".to_vec() }]
    );
    assert_eq!(transition_events(&path("/a"), &None), vec![HotplugEvent::KkMk2Disconnected]);
    assert_eq!(
        transition_events(&path("/a"), &path("/b")),
        vec![HotplugEvent::KkMk2Disconnected, HotplugEvent::KkMk2Connected { path: b"/b".to_vec() }]
    );
    assert!(transition_events(&path("/a"), &path("/a")).is_empty());
    assert!(transition_events(&None, &None).is_empty());
}

#[test]
fn watcher_tracks_the_device() {
    let mut watcher = HotplugWatcher::new(None);
    assert!(!watcher.is_present());
    let devices = vec![
        DeviceEntry { vendor_id: 0x17CC, product_id: 0x1630, path: b"/dev/hidraw7".to_vec() },
    ];
    assert_eq!(
        watcher.observe_devices(&devices),
        vec![HotplugEvent::KkMk2Connected { path: b"/dev/hidraw7".to_vec() }]
    );
    assert!(watcher.is_present());
    assert!(watcher.observe_devices(&devices).is_empty());
    assert_eq!(watcher.observe(None), vec![HotplugEvent::KkMk2Disconnected]);
    assert!(watcher.observe(None).is_empty());
}

#[test]
fn listener_replaying_events_knows_the_path() {
    let states = [None, path("/a"), path("/b"), None, path("/b"), path("/b")];
    let mut watcher = HotplugWatcher::new(None);
    let mut known: Option<Vec<u8>> = None;
    for state in states.iter() {
        for event in watcher.observe(state.clone()) {
            known = match event {
                HotplugEvent::KkMk2Connected { path } => Some(path),
                HotplugEvent::KkMk2Disconnected => None,
            };
        }
        assert!(same_path(&known, state));
    }
}

#[test]
fn events_alternate_over_many_polls() {
    let polls = [path("/a"), path("/a"), None, path("/b"), path("/c"), None, None, path("/c")];
    let mut watcher = HotplugWatcher::new(None);
    let mut events = Vec::new();
    for poll in polls.iter() {
        events.extend(watcher.observe(poll.clone()));
    }
    assert!(matches!(events[0], HotplugEvent::KkMk2Connected { .. }));
    for pair in events.windows(2) {
        let first_connects = matches!(pair[0], HotplugEvent::KkMk2Connected { .. });
        let second_connects = matches!(pair[1], HotplugEvent::KkMk2Connected { .. });
        assert_ne!(first_connects, second_connects);
    }
    assert_eq!(events.last().cloned(), Some(HotplugEvent::KkMk2Connected { path: b"/c".to_vec() }));
    assert_eq!(events.len(), 7);
}

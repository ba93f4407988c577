//! Hot-plug detection for lightguide-supported devices.
//!
//! A watcher polls the HID device list every couple of seconds, compares the
//! current Komplete Kontrol MK2 path with the last known one, and reports
//! the change as events. [`HotplugWatcher`] holds the last known path and
//! turns each new observation into exactly the events of that transition; the
//! polling itself (sleeping, refreshing the device list) belongs to the caller.

use vstd::prelude::*;

use crate::drivers::kk_mk2::{copy_bytes, find_kk_mk2_path, first_kk_mk2_path, DeviceEntry};

verus! {

/// Topology event observed by the watcher.
#[derive(Debug, PartialEq, Eq)]
pub enum HotplugEvent {
    /// A KK MK2 became reachable at this device path.
    KkMk2Connected { path: Vec<u8> },
    /// The previously connected KK MK2 became unreachable.
    KkMk2Disconnected,
}

impl Clone for HotplugEvent {
    fn clone(&self) -> (copy: Self)
        ensures
            change_of(copy) == change_of(*self),
    {
        match self {
            HotplugEvent::KkMk2Connected { path } => HotplugEvent::KkMk2Connected { path: copy_bytes(path) },
            HotplugEvent::KkMk2Disconnected => HotplugEvent::KkMk2Disconnected,
        }
    }
}

/// What an event says about the device path, as a mathematical value.
pub enum PathChange {
    Connected(Seq<u8>),
    Disconnected,
}

pub open spec fn change_of(event: HotplugEvent) -> PathChange {
    match event {
        HotplugEvent::KkMk2Connected { path } => PathChange::Connected(path@),
        HotplugEvent::KkMk2Disconnected => PathChange::Disconnected,
    }
}

pub open spec fn changes_of(events: Seq<HotplugEvent>) -> Seq<PathChange> {
    Seq::new(events.len(), |i: int| change_of(events[i]))
}

pub open spec fn path_of(path: Option<Vec<u8>>) -> Option<Seq<u8>> {
    match path {
        Some(p) => Some(p@),
        None => None,
    }
}

/// The events for one transition of the device path: nothing when it is
/// unchanged, one event for an arrival or a departure, and a disconnect
/// followed by a connect when the device reappears under another path.
pub open spec fn transition_changes(last: Option<Seq<u8>>, current: Option<Seq<u8>>) -> Seq<PathChange> {
    if last == current {
        Seq::empty()
    } else {
        match (last, current) {
            (None, Some(p)) => seq![PathChange::Connected(p)],
            (Some(_), None) => seq![PathChange::Disconnected],
            (Some(_), Some(p)) => seq![PathChange::Disconnected, PathChange::Connected(p)],
            (None, None) => Seq::empty(),
        }
    }
}

/// The device path that a listener knows after hearing a series of events.
pub open spec fn apply_changes(known: Option<Seq<u8>>, changes: Seq<PathChange>) -> Option<Seq<u8>>
    decreases changes.len(),
{
    if changes.len() == 0 {
        known
    } else {
        let next = match changes[0] {
            PathChange::Connected(p) => Some(p),
            PathChange::Disconnected => None,
        };
        apply_changes(next, changes.drop_first())
    }
}

/// Whether two optional device paths are the same.
pub fn same_path(a: &Option<Vec<u8>>, b: &Option<Vec<u8>>) -> (same: bool)
    ensures
        same == (path_of(*a) == path_of(*b)),
{
    match (a, b) {
        (None, None) => true,
        (Some(x), Some(y)) => {
            if x.len() != y.len() {
                return false;
            }
            let mut i: usize = 0;
            while i < x.len()
                invariant
                    x@.len() == y@.len(),
                    path_of(*a) == Some(x@),
                    path_of(*b) == Some(y@),
                    i <= x@.len(),
                    forall|j: int| 0 <= j < i ==> x@[j] == y@[j],
                decreases x@.len() - i,
            {
                if x[i] != y[i] {
                    assert(x@[i as int] != y@[i as int]);
                    return false;
                }
                i = i + 1;
            }
            assert(x@ =~= y@);
            true
        },
        _ => false,
    }
}

/// The path of the first Komplete Kontrol MK2 in a device enumeration.
pub fn current_kk_mk2_path(devices: &Vec<DeviceEntry>) -> (path: Option<Vec<u8>>)
    ensures
        path_of(path) == first_kk_mk2_path(devices@),
{
    find_kk_mk2_path(devices)
}

/// The events for a transition from `last` to `current`.
pub fn transition_events(last: &Option<Vec<u8>>, current: &Option<Vec<u8>>) -> (events: Vec<HotplugEvent>)
    ensures
        changes_of(events@) == transition_changes(path_of(*last), path_of(*current)),
{
    let mut events: Vec<HotplugEvent> = Vec::new();
    if same_path(last, current) {
        assert(changes_of(events@) =~= transition_changes(path_of(*last), path_of(*current)));
        return events;
    }
    match (last, current) {
        (None, Some(p)) => {
            events.push(HotplugEvent::KkMk2Connected { path: copy_bytes(p) });
        },
        (Some(_), None) => {
            events.push(HotplugEvent::KkMk2Disconnected);
        },
        (Some(_), Some(p)) => {
            events.push(HotplugEvent::KkMk2Disconnected);
            events.push(HotplugEvent::KkMk2Connected { path: copy_bytes(p) });
        },
        (None, None) => {},
    }
    assert(changes_of(events@) =~= transition_changes(path_of(*last), path_of(*current)));
    events
}

/// The watcher's memory: the device path seen at the last poll.
pub struct HotplugWatcher {
    last_path: Option<Vec<u8>>,
}

impl HotplugWatcher {
    /// The device path seen at the last poll.
    pub closed spec fn last_path(&self) -> Option<Seq<u8>> {
        path_of(self.last_path)
    }

    /// A watcher that starts from the state found at start-up.
    pub fn new(initial: Option<Vec<u8>>) -> (watcher: HotplugWatcher)
        ensures
            watcher.last_path() == path_of(initial),
    {
        HotplugWatcher { last_path: initial }
    }

    /// Whether a device was present at the last poll.
    pub fn is_present(&self) -> (present: bool)
        ensures
            present == self.last_path() is Some,
    {
        self.last_path.is_some()
    }

    /// Take one poll's result: report the events of the transition and
    /// remember the new path.
    pub fn observe(&mut self, current: Option<Vec<u8>>) -> (events: Vec<HotplugEvent>)
        ensures
            changes_of(events@) == transition_changes(old(self).last_path(), path_of(current)),
            final(self).last_path() == path_of(current),
    {
        let events = transition_events(&self.last_path, &current);
        self.last_path = current;
        events
    }

    /// Take one poll's device enumeration.
    pub fn observe_devices(&mut self, devices: &Vec<DeviceEntry>) -> (events: Vec<HotplugEvent>)
        ensures
            changes_of(events@) == transition_changes(old(self).last_path(), first_kk_mk2_path(devices@)),
            final(self).last_path() == first_kk_mk2_path(devices@),
    {
        let current = current_kk_mk2_path(devices);
        self.observe(current)
    }
}

/// A listener that applies the events of a transition to what it knew before
/// ends up knowing the current device path; no event is fired exactly when
/// nothing changed, and a transition fires at most two events.
pub proof fn lemma_events_track_device_path(last: Option<Seq<u8>>, current: Option<Seq<u8>>)
    ensures
        apply_changes(last, transition_changes(last, current)) == current,
        transition_changes(last, current).len() == 0 <==> last == current,
        transition_changes(last, current).len() <= 2,
{
    reveal_with_fuel(apply_changes, 3);
    let changes = transition_changes(last, current);
    if last != current {
        match (last, current) {
            (None, Some(p)) => {
                assert(changes.drop_first() =~= Seq::<PathChange>::empty());
            },
            (Some(_), None) => {
                assert(changes.drop_first() =~= Seq::<PathChange>::empty());
            },
            (Some(_), Some(p)) => {
                assert(changes.drop_first() =~= seq![PathChange::Connected(p)]);
                assert(changes.drop_first().drop_first() =~= Seq::<PathChange>::empty());
            },
            (None, None) => {},
        }
    }
}

/// Whether a change announces a connected device.
pub open spec fn is_connect(change: PathChange) -> bool {
    change is Connected
}

/// The device path known after a series of polls that started from `start`.
pub open spec fn last_seen(start: Option<Seq<u8>>, polls: Seq<Option<Seq<u8>>>) -> Option<Seq<u8>> {
    if polls.len() == 0 {
        start
    } else {
        polls.last()
    }
}

/// All events a watcher that started from `start` fires over a series of
/// polls, in order.
pub open spec fn poll_changes(start: Option<Seq<u8>>, polls: Seq<Option<Seq<u8>>>) -> Seq<PathChange>
    decreases polls.len(),
{
    if polls.len() == 0 {
        Seq::empty()
    } else {
        poll_changes(start, polls.drop_last()).add(
            transition_changes(last_seen(start, polls.drop_last()), polls.last()),
        )
    }
}

proof fn lemma_transition_shape(last: Option<Seq<u8>>, current: Option<Seq<u8>>)
    ensures
        ({
            let t = transition_changes(last, current);
            &&& t.len() == 0 ==> last == current
            &&& t.len() > 0 ==> (is_connect(t[0]) <==> last is None)
            &&& t.len() > 0 ==> (is_connect(t.last()) <==> current is Some)
            &&& forall|i: int, j: int|
                0 <= i && j == i + 1 && j < t.len() ==> is_connect(#[trigger] t[i]) != is_connect(#[trigger] t[j])
            &&& forall|i: int| 0 <= i < t.len() ==> (#[trigger] t[i] matches PathChange::Connected(p) ==> current == Some(p))
            &&& forall|i: int| 0 <= i < t.len() && is_connect(#[trigger] t[i]) ==> i == t.len() - 1
        }),
{
}

/// Over any series of polls, the watcher's events alternate between connect
/// and disconnect; the first event is a connect exactly when no device was
/// present at start; the last is a connect exactly when a device is present
/// now; and every connect is the last event fired by one of the polls and
/// carries the path seen at that poll.
pub proof fn lemma_poll_events_alternate(start: Option<Seq<u8>>, polls: Seq<Option<Seq<u8>>>)
    ensures
        ({
            let e = poll_changes(start, polls);
            &&& forall|i: int, j: int|
                0 <= i && j == i + 1 && j < e.len() ==> is_connect(#[trigger] e[i]) != is_connect(#[trigger] e[j])
            &&& e.len() > 0 ==> (is_connect(e[0]) <==> start is None)
            &&& e.len() > 0 ==> (is_connect(e.last()) <==> last_seen(start, polls) is Some)
            &&& e.len() == 0 ==> last_seen(start, polls) == start
            &&& forall|i: int| 0 <= i < e.len() ==> (#[trigger] e[i] matches PathChange::Connected(p) ==>
                exists|k: int| 0 <= k < polls.len() && #[trigger] polls[k] == Some(p)
                    && poll_changes(start, polls.take(k + 1)).len() == i + 1)
        }),
    decreases polls.len(),
{
    if polls.len() > 0 {
        let prev = polls.drop_last();
        let c = polls.last();
        let s = last_seen(start, prev);
        let e0 = poll_changes(start, prev);
        let t = transition_changes(s, c);
        let e = poll_changes(start, polls);
        lemma_poll_events_alternate(start, prev);
        lemma_transition_shape(s, c);
        assert(e == e0.add(t));
        assert forall|i: int, j: int| 0 <= i && j == i + 1 && j < e.len() implies is_connect(#[trigger] e[i]) != is_connect(#[trigger] e[j]) by {
            if j < e0.len() {
                assert(e[i] == e0[i] && e[j] == e0[j]);
            } else if i >= e0.len() {
                assert(e[i] == t[i - e0.len()] && e[j] == t[j - e0.len()]);
            } else {
                assert(e[i] == e0.last());
                assert(e[j] == t[0]);
            }
        }
        if e.len() > 0 {
            if e0.len() > 0 {
                assert(e[0] == e0[0]);
            } else {
                assert(e[0] == t[0]);
            }
            if t.len() > 0 {
                assert(e.last() == t.last());
            } else {
                assert(e.last() == e0.last());
            }
        }
        assert forall|i: int| 0 <= i < e.len() implies (#[trigger] e[i] matches PathChange::Connected(p) ==>
            exists|k: int| 0 <= k < polls.len() && #[trigger] polls[k] == Some(p)
                && poll_changes(start, polls.take(k + 1)).len() == i + 1) by {
            if i < e0.len() {
                assert(e[i] == e0[i]);
                if let PathChange::Connected(p) = e[i] {
                    let k = choose|k: int| 0 <= k < prev.len() && #[trigger] prev[k] == Some(p)
                        && poll_changes(start, prev.take(k + 1)).len() == i + 1;
                    assert(polls[k] == prev[k]);
                    assert(polls.take(k + 1) =~= prev.take(k + 1));
                }
            } else {
                assert(e[i] == t[i - e0.len()]);
                if let PathChange::Connected(p) = e[i] {
                    assert(is_connect(t[i - e0.len()]));
                    assert(polls[polls.len() - 1] == Some(p));
                    assert(polls.take(polls.len() - 1 + 1) =~= polls);
                }
            }
        }
    }
}

} // verus!

//! File-change events of the routes directory, filtered to route files.

use vstd::prelude::*;
use crate::paths::extension;
use crate::text::{chars_of, contains_chars, contains_seq};

verus! {

/// A change to a `.tsx` or `.ts` file.
#[derive(Debug)]
pub enum WatchEvent {
    Changed(String),
    Created(String),
    Deleted(String),
}

impl Clone for WatchEvent {
    fn clone(&self) -> (r: Self)
        ensures
            r == *self,
    {
        match self {
            WatchEvent::Changed(p) => WatchEvent::Changed(p.clone()),
            WatchEvent::Created(p) => WatchEvent::Created(p.clone()),
            WatchEvent::Deleted(p) => WatchEvent::Deleted(p.clone()),
        }
    }
}

/// Whether a changed path concerns a route file: not under a `.rotiv`
/// directory (no `.rotiv` anywhere in it) and with extension `tsx` or `ts`.
pub open spec fn spec_is_route_file(path: Seq<char>) -> bool {
    !contains_seq(path, ".rotiv"@)
        && (extension(path) == Some(seq!['t', 's', 'x']) || extension(path) == Some(seq!['t', 's']))
}

/// Whether a changed path concerns a route file.
pub fn is_route_file(path: &str) -> (r: bool)
    ensures
        r == spec_is_route_file(path@),
{
    let v = chars_of(path);
    let marker = chars_of(".rotiv");
    if contains_chars(&v, &marker) {
        return false;
    }
    let tsx = vec!['t', 's', 'x'];
    let ts = vec!['t', 's'];
    match crate::paths::extension_of_path(&v) {
        Some(e) => crate::text::eq_chars(&e, &tsx) || crate::text::eq_chars(&e, &ts),
        None => false,
    }
}

/// The kind of a file-system event, as the polling watcher reports it.
#[derive(Debug, Clone, Copy, PartialEq, Eq, Structural)]
pub enum ChangeKind {
    Create,
    Remove,
    Other,
}

/// The event for a polled change: creations and removals are told apart,
/// anything else is a change; paths that are not route files give none.
pub fn polled_event(kind: ChangeKind, path: String) -> (r: Option<WatchEvent>)
    ensures
        !spec_is_route_file(path@) ==> r is None,
        spec_is_route_file(path@) ==> r == Some(match kind {
            ChangeKind::Create => WatchEvent::Created(path),
            ChangeKind::Remove => WatchEvent::Deleted(path),
            ChangeKind::Other => WatchEvent::Changed(path),
        }),
{
    if !is_route_file(path.as_str()) {
        return None;
    }
    Some(match kind {
        ChangeKind::Create => WatchEvent::Created(path),
        ChangeKind::Remove => WatchEvent::Deleted(path),
        ChangeKind::Other => WatchEvent::Changed(path),
    })
}

/// The event for a debounced change, whose kind is not reported: a path that
/// no longer exists was deleted, any other was changed; paths that are not
/// route files give none.
pub fn debounced_event(path: String, exists: bool) -> (r: Option<WatchEvent>)
    ensures
        !spec_is_route_file(path@) ==> r is None,
        spec_is_route_file(path@) ==> r == Some(if exists {
            WatchEvent::Changed(path)
        } else {
            WatchEvent::Deleted(path)
        }),
{
    if !is_route_file(path.as_str()) {
        return None;
    }
    if exists {
        Some(WatchEvent::Changed(path))
    } else {
        Some(WatchEvent::Deleted(path))
    }
}


impl WatchEvent {
    /// The path that the event concerns.
    pub open spec fn path(self) -> Seq<char> {
        match self {
            WatchEvent::Changed(p) => p@,
            WatchEvent::Created(p) => p@,
            WatchEvent::Deleted(p) => p@,
        }
    }
}

/// An event that concerns a route file. The only way to make one is
/// through the filters above, so every such value passed them.
pub struct RouteEvent {
    event: WatchEvent,
}

impl RouteEvent {
    #[verifier::type_invariant]
    spec fn concerns_route_file(self) -> bool {
        spec_is_route_file(self.event.path())
    }

    /// The event carried.
    pub closed spec fn event(self) -> WatchEvent {
        self.event
    }

    /// The route event for a polled change, as `polled_event` gives it.
    pub fn polled(kind: ChangeKind, path: String) -> (r: Option<RouteEvent>)
        ensures
            r is None <==> !spec_is_route_file(path@),
            r matches Some(e) ==> e.event() == (match kind {
                ChangeKind::Create => WatchEvent::Created(path),
                ChangeKind::Remove => WatchEvent::Deleted(path),
                ChangeKind::Other => WatchEvent::Changed(path),
            }),
    {
        let ghost p = path;
        match polled_event(kind, path) {
            Some(event) => {
                assert(event.path() == p@);
                Some(RouteEvent { event })
            },
            None => None,
        }
    }

    /// The route event for a debounced change, as `debounced_event` gives it.
    pub fn debounced(path: String, exists: bool) -> (r: Option<RouteEvent>)
        ensures
            r is None <==> !spec_is_route_file(path@),
            r matches Some(e) ==> e.event() == (if exists {
                WatchEvent::Changed(path)
            } else {
                WatchEvent::Deleted(path)
            }),
    {
        let ghost p = path;
        match debounced_event(path, exists) {
            Some(event) => {
                assert(event.path() == p@);
                Some(RouteEvent { event })
            },
            None => None,
        }
    }

    /// The event carried, which concerns a route file.
    pub fn into_event(self) -> (r: WatchEvent)
        ensures
            r == self.event(),
            spec_is_route_file(r.path()),
    {
        proof {
            use_type_invariant(&self);
        }
        self.event
    }
}

/// The receiving end of a standard channel (`std::sync::mpsc::Receiver`).
#[verifier::external_type_specification]
#[verifier::external_body]
#[verifier::reject_recursive_types(T)]
pub struct ExReceiver<T>(std::sync::mpsc::Receiver<T>);

/// Calls `Receiver::try_recv`, mapping its error (no event waiting, or the
/// sending side gone) to `None`. Which event comes, if any, depends on the
/// other threads and is not stated.
#[verifier::external_body]
fn channel_try_recv(rx: &std::sync::mpsc::Receiver<RouteEvent>) -> (r: Option<RouteEvent>) {
    rx.try_recv().ok()
}

/// Calls `Receiver::recv_timeout`, mapping its error (the time ran out, or the
/// sending side is gone) to `None`. Which event comes, if any, depends on the
/// other threads and is not stated.
#[verifier::external_body]
fn channel_recv_timeout(rx: &std::sync::mpsc::Receiver<RouteEvent>, timeout: std::time::Duration) -> (r: Option<RouteEvent>) {
    rx.recv_timeout(timeout).ok()
}

/// The events of a file watcher, as its background watcher sends them.
pub struct FileWatcher {
    receiver: std::sync::mpsc::Receiver<RouteEvent>,
}

impl FileWatcher {
    /// The channel whose events this watcher reads.
    pub closed spec fn channel(self) -> std::sync::mpsc::Receiver<RouteEvent> {
        self.receiver
    }

    /// A watcher reading the events sent on the channel of `receiver`.
    pub fn from_receiver(receiver: std::sync::mpsc::Receiver<RouteEvent>) -> (r: Self)
        ensures
            r.channel() == receiver,
    {
        FileWatcher { receiver }
    }

    /// The next event, if one is waiting; any event given concerns a route
    /// file.
    pub fn try_recv(&self) -> (r: Option<WatchEvent>)
        ensures
            r matches Some(e) ==> spec_is_route_file(e.path()),
    {
        match channel_try_recv(&self.receiver) {
            Some(e) => Some(e.into_event()),
            None => None,
        }
    }

    /// The next event, waiting for one up to `timeout`; any event given
    /// concerns a route file.
    pub fn recv_timeout(&self, timeout: std::time::Duration) -> (r: Option<WatchEvent>)
        ensures
            r matches Some(e) ==> spec_is_route_file(e.path()),
    {
        match channel_recv_timeout(&self.receiver, timeout) {
            Some(e) => Some(e.into_event()),
            None => None,
        }
    }
}

} // verus!

//! Watching over an application that wants its mount to go when it does.
//!
//! The helper cannot do this: the socket it would watch is the daemon's. The
//! application's own socket is held open for the life of its session where
//! this was asked for, so its end means that the application is gone.
use vstd::prelude::*;

use crate::registry::Registry;
#[allow(unused_imports)]
use crate::registry::{orderly, recorded, without_mount, Books};
use crate::removal::Removal;
#[allow(unused_imports)]
use crate::removal::Removing;

verus! {

/// What is to be done next.
#[derive(Debug)]
pub enum WatchStage {
    /// Wait until the application's socket or the stop pipe has something to
    /// say.
    Poll,
    /// Read one byte from the application's socket.
    Read,
    /// The mount is gone already: leave.
    Leave,
    /// Watching does not work: leave, and say why.
    GiveUp(String),
    /// The application is gone: take its mount down.
    TakeDown,
}

/// The same, as plain values.
pub ghost enum WatchPhase {
    Poll,
    Read,
    Leave,
    GiveUp(Seq<char>),
    TakeDown,
}

impl View for WatchStage {
    type V = WatchPhase;

    open spec fn view(&self) -> WatchPhase {
        match self {
            WatchStage::Poll => WatchPhase::Poll,
            WatchStage::Read => WatchPhase::Read,
            WatchStage::Leave => WatchPhase::Leave,
            WatchStage::GiveUp(e) => WatchPhase::GiveUp(e@),
            WatchStage::TakeDown => WatchPhase::TakeDown,
        }
    }
}

/// What came of it.
#[derive(Debug)]
pub enum WatchEvent {
    /// Whether the stop pipe and the application's socket have something.
    Ready { stop: bool, socket: bool },
    /// How many bytes were read.
    Got(usize),
    Interrupted,
    Failed(String),
}

/// The stage that follows. Only a read of nothing proves that the far end is
/// gone; anything else is data of no use.
pub open spec fn next_watch(phase: WatchPhase, event: WatchEvent) -> WatchPhase {
    match (phase, event) {
        (WatchPhase::Poll, WatchEvent::Ready { stop, socket }) => if stop {
            WatchPhase::Leave
        } else if socket {
            WatchPhase::Read
        } else {
            WatchPhase::Poll
        },
        (WatchPhase::Poll, WatchEvent::Failed(e)) => WatchPhase::GiveUp(e@),
        (WatchPhase::Read, WatchEvent::Got(count)) => if count == 0 {
            WatchPhase::TakeDown
        } else {
            WatchPhase::Poll
        },
        (WatchPhase::Read, WatchEvent::Interrupted) => WatchPhase::Poll,
        (WatchPhase::Read, WatchEvent::Failed(e)) => WatchPhase::GiveUp(e@),
        _ => phase,
    }
}

/// Goes on watching.
pub fn watch_on(stage: WatchStage, event: WatchEvent) -> (next: WatchStage)
    ensures
        next@ == next_watch(stage@, event),
{
    match stage {
        WatchStage::Poll => match event {
            WatchEvent::Ready { stop, socket } => if stop {
                WatchStage::Leave
            } else if socket {
                WatchStage::Read
            } else {
                WatchStage::Poll
            },
            WatchEvent::Failed(e) => WatchStage::GiveUp(e),
            _ => WatchStage::Poll,
        },
        WatchStage::Read => match event {
            WatchEvent::Got(count) => if count == 0 {
                WatchStage::TakeDown
            } else {
                WatchStage::Poll
            },
            WatchEvent::Interrupted => WatchStage::Poll,
            WatchEvent::Failed(e) => WatchStage::GiveUp(e),
            _ => WatchStage::Read,
        },
        WatchStage::Leave => WatchStage::Leave,
        WatchStage::GiveUp(e) => WatchStage::GiveUp(e),
        WatchStage::TakeDown => WatchStage::TakeDown,
    }
}

/// The application whose mount is to be taken down at a place, and how.
pub open spec fn taken_down(books: Books, place: Seq<char>) -> Option<(Seq<char>, Removing)> {
    match recorded(books.mounts, place) {
        Some(record) => Some(
            (
                record.app_id,
                Removing { path: place, identity: Some(record.identity), attempts: 0 },
            ),
        ),
        None => None,
    }
}

/// Forgets the mount of an application that is gone, and starts to take it
/// down: the mount that was recorded and no other. `None` where somebody has
/// unmounted it first. The application's id comes with it.
pub fn take_down(registry: &mut Registry, place: &str) -> (removal: Option<(String, Removal)>)
    ensures
        final(registry)@ == without_mount(old(registry)@, place@),
        match removal {
            Some(r) => taken_down(old(registry)@, place@) == Some((r.0@, r.1@)),
            None => taken_down(old(registry)@, place@) is None,
        },
        orderly(final(registry)@),
{
    match registry.remove(place) {
        Some(record) => Some((record.app_id, Removal::of_mount(place, record.identity))),
        None => None,
    }
}

/// A mount is taken down only after a read that came back empty while the
/// watch was not told to stop.
pub proof fn law_only_the_end_of_the_socket_takes_down(phase: WatchPhase, event: WatchEvent)
    requires
        !(phase is TakeDown),
    ensures
        next_watch(phase, event) is TakeDown <==> phase is Read && event == WatchEvent::Got(0),
{
}

/// A watch that is told to stop leaves, whatever else there is, and takes
/// nothing down afterwards.
pub proof fn law_a_stopped_watch_takes_nothing_down(socket: bool, event: WatchEvent)
    ensures
        next_watch(WatchPhase::Poll, WatchEvent::Ready { stop: true, socket }) is Leave,
        next_watch(WatchPhase::Leave, event) is Leave,
{
}

/// Being interrupted changes nothing but that the watch polls again.
pub proof fn law_interruptions_do_not_matter(phase: WatchPhase)
    requires
        phase is Poll || phase is Read,
    ensures
        next_watch(phase, WatchEvent::Interrupted) is Poll,
{
}

} // verus!

//! A cross-boundary bridge between a native capture/session engine and a
//! host UI runtime that cannot share memory with it.
//!
//! The bridge hands four kinds of state across the boundary:
//! single-slot media frames with a staleness timeout and duplicate
//! suppression ([`frame`]), take-once clipboard mailboxes ([`clipboard`]),
//! a session registry with reconnection-round fencing ([`session`]), and
//! named event channels that hold at most one sink each and notify a sink
//! when it is replaced ([`channels`]).
use vstd::prelude::*;

pub mod assoc;
pub mod channels;
pub mod clipboard;
pub mod frame;
pub mod rounds;
pub mod session;
pub mod sink;

verus! {

use crate::channels::close_all_witness;
use crate::channels::EventChannelRegistry;
use crate::clipboard::clip_init;
use crate::clipboard::ClipboardMailbox;
use crate::frame::frame_init;
use crate::frame::MediaKind;
use crate::frame::RawFrameRelay;
use crate::frame::AUDIO_TIMEOUT_MS;
use crate::frame::VIDEO_TIMEOUT_MS;
use crate::session::sever_all_witness;
use crate::session::sinked_sessions;
use crate::session::SessionModel;
use crate::session::SessionRegistry;
use crate::sink::EventSink;

/// The failures the bridge surfaces to its callers.
///
/// Lookup misses on session operations are routine (the UI may race a
/// session's teardown), so callers usually treat `SessionNotFound` as a
/// benign no-op; `DuplicateSession` signals a caller bug and is always
/// surfaced.
#[derive(Debug, Clone, Copy, PartialEq, Eq, Structural)]
pub enum BridgeError {
    /// `add` was called with a session id that is already registered.
    DuplicateSession,
    /// The session id names no registered session.
    SessionNotFound,
    /// The channel name has no registered sink.
    ChannelNotFound,
    /// The registered sink reported failure when invoked.
    SinkInvocationFailed,
}

/// The whole bridge as one explicitly constructed value: the frame relay,
/// the clipboard mailboxes, the session registry and the global channel
/// registry.
///
/// The process constructs one at start and owns it for its lifetime; tests
/// construct isolated instances. The components are independent and are used
/// directly through the fields; [`Bridge::shutdown`] is the documented
/// teardown.
pub struct Bridge<S: EventSink> {
    /// Single-slot dead-drops for raw video and audio frames.
    pub frames: RawFrameRelay,
    /// Take-once clipboard mailboxes, one per direction.
    pub clipboard: ClipboardMailbox,
    /// The session registry, with per-session sinks and rounds.
    pub sessions: SessionRegistry<S>,
    /// The named global event channels.
    pub channels: EventChannelRegistry<S>,
}

impl<S: EventSink> Bridge<S> {
    /// Creates a bridge with both frame slots disabled, nothing pending in
    /// the clipboard, no sessions and no channels.
    pub fn new() -> (bridge: Self)
        ensures
            bridge.frames.slot(MediaKind::Video) == frame_init(VIDEO_TIMEOUT_MS),
            bridge.frames.slot(MediaKind::Audio) == frame_init(AUDIO_TIMEOUT_MS),
            bridge.clipboard@ == clip_init(),
            bridge.sessions@ == Map::<u128, SessionModel<S>>::empty(),
            bridge.sessions.wf(),
            bridge.channels@ == Map::<Seq<char>, S>::empty(),
            bridge.channels.wf(),
    {
        Bridge {
            frames: RawFrameRelay::new(),
            clipboard: ClipboardMailbox::new(),
            sessions: SessionRegistry::new(),
            channels: EventChannelRegistry::new(),
        }
    }

    /// Tears the bridge down: disables and clears both frame slots, discards
    /// pending clipboard payloads, removes every session and unregisters
    /// every channel, delivering each sink its terminal close notification.
    /// The closed sinks — one per session that had a sink, then one per
    /// registered channel, each with its delivered events exactly as they
    /// stood — are handed back so the caller can release them.
    pub fn shutdown(&mut self) -> (closed: Vec<S>)
        requires
            old(self).sessions.wf(),
            old(self).channels.wf(),
        ensures
            forall|k: MediaKind|
                (#[trigger] final(self).frames.slot(k)).enabled == false && final(self).frames.slot(
                    k,
                ).buffer is None,
            final(self).clipboard@ == clip_init(),
            final(self).sessions@ == Map::<u128, SessionModel<S>>::empty(),
            final(self).sessions.wf(),
            final(self).channels@ == Map::<Seq<char>, S>::empty(),
            final(self).channels.wf(),
            closed@.len() == sinked_sessions(old(self).sessions@).len()
                + old(self).channels@.dom().len(),
            exists|n: int| shutdown_split(old(self).sessions@, old(self).channels@, closed@, n),
            forall|i: int| #![trigger closed@[i]] 0 <= i < closed@.len() ==> closed@[i].is_closed(),
    {
        self.frames.set_enabled(MediaKind::Video, false);
        self.frames.set_enabled(MediaKind::Audio, false);
        self.clipboard.clear();
        let mut closed = self.sessions.close_all();
        let mut from_channels = self.channels.close_all();
        let ghost closed_before = closed@;
        let ghost channels_before = from_channels@;
        closed.append(&mut from_channels);
        proof {
            let n = closed_before.len() as int;
            assert(closed@.take(n) =~= closed_before);
            assert(closed@.skip(n) =~= channels_before);
            let ids = choose|ids: Seq<u128>|
                sever_all_witness(old(self).sessions@, closed_before, ids);
            let names = choose|names: Seq<Seq<char>>|
                close_all_witness(old(self).channels@, channels_before, names);
            assert(sever_all_witness(old(self).sessions@, closed@.take(n), ids));
            assert(close_all_witness(old(self).channels@, closed@.skip(n), names));
            assert(shutdown_split(old(self).sessions@, old(self).channels@, closed@, n));
            assert(ids.len() == n);
            assert(names.len() == closed@.len() - n);
            assert forall|i: int| 0 <= i < closed@.len() implies #[trigger] closed@[i].is_closed()
            by {
                if i < n {
                    assert(closed@[i] == closed@.take(n)[i]);
                    assert(old(self).sessions@.contains_key(ids[i]));
                } else {
                    assert(closed@[i] == closed@.skip(n)[i - n]);
                    assert(old(self).channels@.contains_key(names[i - n]));
                }
            }
        }
        closed
    }
}

/// How a bridge teardown's returned sinks split: the first `n` are the
/// severed session sinks, the rest the closed channel sinks, each group a
/// faithful teardown of its registry (see [`sever_all_witness`] and
/// [`close_all_witness`]).
pub open spec fn shutdown_split<S: EventSink>(
    sessions_pre: Map<u128, SessionModel<S>>,
    channels_pre: Map<Seq<char>, S>,
    closed: Seq<S>,
    n: int,
) -> bool {
    &&& 0 <= n <= closed.len()
    &&& exists|ids: Seq<u128>| sever_all_witness(sessions_pre, closed.take(n), ids)
    &&& exists|names: Seq<Seq<char>>| close_all_witness(channels_pre, closed.skip(n), names)
}

/// Connection-manager initialisation hook for the host runtime. The
/// connection manager needs no per-process setup on this platform, so this
/// does nothing; it exists so every backend offers the same entry points.
pub fn cm_init() {
}

} // verus!

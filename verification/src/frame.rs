//! Single-slot dead-drop for raw media frames.
//!
//! One slot exists per media kind. A producer replaces the slot's buffer on
//! every update; a consumer takes the buffer, which clears the slot. A take
//! yields nothing when the slot is disabled, empty, older than its staleness
//! timeout, or byte-identical to the bytes the consumer saw last (duplicate
//! suppression). Timestamps are plain milliseconds supplied by the caller,
//! so the behaviour is a pure function of the call sequence.
use vstd::prelude::*;

verus! {

/// The two media kinds the relay serves, each with its own slot.
#[derive(Debug, Clone, Copy, PartialEq, Eq, Structural)]
pub enum MediaKind {
    Video,
    Audio,
}

/// Staleness timeout of the video slot, in milliseconds.
pub const VIDEO_TIMEOUT_MS: u64 = 100;

/// Staleness timeout of the audio slot, in milliseconds.
pub const AUDIO_TIMEOUT_MS: u64 = 1000;

/// Mathematical state of one frame slot.
pub ghost struct FrameModel {
    /// Whether producers may fill the slot and consumers may drain it.
    pub enabled: bool,
    /// The pending frame bytes, if any.
    pub buffer: Option<Seq<u8>>,
    /// When the pending frame was stored, in caller-supplied milliseconds.
    pub last_update_ms: u64,
    /// Maximum age, in milliseconds, at which a frame may still be taken.
    pub timeout_ms: u64,
}

/// The slot state right after construction with the given timeout.
pub open spec fn frame_init(timeout_ms: u64) -> FrameModel {
    FrameModel { enabled: false, buffer: None, last_update_ms: 0, timeout_ms }
}

/// Effect of enabling or disabling a slot: the buffer is discarded either
/// way, so a consumer can never take bytes produced before the toggle.
pub open spec fn frame_set_enabled(m: FrameModel, value: bool) -> FrameModel {
    FrameModel { enabled: value, buffer: None, ..m }
}

/// Effect of a producer update: a no-op while the slot is disabled,
/// otherwise the buffer is replaced (never queued) and stamped with `now_ms`.
pub open spec fn frame_update(m: FrameModel, data: Seq<u8>, now_ms: u64) -> FrameModel {
    if m.enabled {
        FrameModel { buffer: Some(data), last_update_ms: now_ms, ..m }
    } else {
        m
    }
}

/// Age of the slot's content at time `now_ms`. A clock that appears to run
/// backwards counts as age zero rather than wrapping.
pub open spec fn frame_age(m: FrameModel, now_ms: u64) -> int {
    if now_ms >= m.last_update_ms {
        now_ms - m.last_update_ms
    } else {
        0
    }
}

/// Whether the slot's content is too old to deliver at time `now_ms`.
pub open spec fn frame_is_stale(m: FrameModel, now_ms: u64) -> bool {
    frame_age(m, now_ms) > m.timeout_ms
}

/// Effect and result of a consumer take at time `now_ms`, where `previous`
/// holds the bytes the consumer received last.
///
/// Nothing is delivered when the slot is disabled, empty, or stale; a stale
/// or empty slot is left as it is. Otherwise the slot is cleared, and the
/// bytes are delivered unless they equal `previous` (duplicate suppression:
/// the slot is still cleared, but nothing is handed over).
pub open spec fn frame_take(m: FrameModel, previous: Seq<u8>, now_ms: u64) -> (FrameModel, Option<
    Seq<u8>,
>) {
    if !m.enabled {
        (m, None)
    } else {
        match m.buffer {
            None => (m, None),
            Some(bytes) => {
                if bytes.len() == 0 {
                    (m, None)
                } else if frame_is_stale(m, now_ms) {
                    (m, None)
                } else {
                    let cleared = FrameModel { buffer: None, ..m };
                    if bytes == previous {
                        (cleared, None)
                    } else {
                        (cleared, Some(bytes))
                    }
                }
            },
        }
    }
}

/// One single-value, overwrite-on-write, take-once cell for raw frame bytes.
///
/// The buffer is an owned byte vector exchanged as one unit, so a consumer
/// can never observe a mix of two updates.
pub struct FrameSlot {
    enabled: bool,
    buffer: Option<Vec<u8>>,
    last_update_ms: u64,
    timeout_ms: u64,
}

impl View for FrameSlot {
    type V = FrameModel;

    closed spec fn view(&self) -> FrameModel {
        FrameModel {
            enabled: self.enabled,
            buffer: match self.buffer {
                Some(b) => Some(b@),
                None => None,
            },
            last_update_ms: self.last_update_ms,
            timeout_ms: self.timeout_ms,
        }
    }
}

impl FrameSlot {
    /// Creates a disabled, empty slot with the given staleness timeout.
    pub fn new(timeout_ms: u64) -> (slot: Self)
        ensures
            slot@ == frame_init(timeout_ms),
    {
        FrameSlot { enabled: false, buffer: None, last_update_ms: 0, timeout_ms }
    }

    /// Enables or disables the slot, discarding any pending buffer.
    pub fn set_enabled(&mut self, value: bool)
        ensures
            final(self)@ == frame_set_enabled(old(self)@, value),
    {
        self.enabled = value;
        self.buffer = None;
    }

    /// Stores a frame produced at time `now_ms`, replacing any pending one.
    /// Does nothing while the slot is disabled.
    pub fn update(&mut self, data: Vec<u8>, now_ms: u64)
        ensures
            final(self)@ == frame_update(old(self)@, data@, now_ms),
    {
        if self.enabled {
            self.buffer = Some(data);
            self.last_update_ms = now_ms;
        }
    }

    /// Takes the pending frame at time `now_ms`, writing its bytes into
    /// `dst` and clearing the slot on success. `previous` holds the bytes
    /// the consumer received last; a frame equal to them is suppressed.
    /// Returns whether `dst` now holds a fresh frame; on `None`, `dst` is
    /// left unchanged.
    pub fn take(&mut self, previous: &Vec<u8>, now_ms: u64, dst: &mut Vec<u8>) -> (got: Option<()>)
        ensures
            final(self)@ == frame_take(old(self)@, previous@, now_ms).0,
            match frame_take(old(self)@, previous@, now_ms).1 {
                Some(bytes) => got == Some(()) && final(dst)@ == bytes,
                None => got == None::<()> && final(dst)@ == old(dst)@,
            },
    {
        if !self.enabled {
            return None;
        }
        let stale = self.is_stale(now_ms);
        match self.buffer.take() {
            None => None,
            Some(bytes) => {
                if bytes.len() == 0 {
                    self.buffer = Some(bytes);
                    None
                } else if stale {
                    self.buffer = Some(bytes);
                    None
                } else {
                    let duplicate = &bytes == previous;
                    proof {
                        if duplicate {
                            assert(bytes@ =~= previous@);
                        }
                    }
                    if duplicate {
                        None
                    } else {
                        *dst = bytes;
                        Some(())
                    }
                }
            },
        }
    }

    /// Whether the slot's content is older than the staleness timeout at
    /// time `now_ms`.
    pub fn is_stale(&self, now_ms: u64) -> (stale: bool)
        ensures
            stale == frame_is_stale(self@, now_ms),
    {
        let age: u64 = if now_ms >= self.last_update_ms {
            now_ms - self.last_update_ms
        } else {
            0
        };
        age > self.timeout_ms
    }
}

/// Which media kind a frame-slot name selects, if any.
pub open spec fn spec_kind_of_name(name: Seq<char>) -> Option<MediaKind> {
    if name == "video"@ {
        Some(MediaKind::Video)
    } else if name == "audio"@ {
        Some(MediaKind::Audio)
    } else {
        None
    }
}

/// Resolves a frame-slot name, as received over the boundary, to a media
/// kind. Only `"video"` and `"audio"` name a slot.
pub fn kind_of_name(name: &str) -> (kind: Option<MediaKind>)
    ensures
        kind == spec_kind_of_name(name@),
{
    let owned: String = name.to_owned();
    if owned == "video".to_owned() {
        Some(MediaKind::Video)
    } else if owned == "audio".to_owned() {
        Some(MediaKind::Audio)
    } else {
        None
    }
}

/// The frame relay: one slot per media kind, each with its own staleness
/// timeout. Constructed explicitly at process start; tests may construct
/// isolated instances.
pub struct RawFrameRelay {
    video: FrameSlot,
    audio: FrameSlot,
}

impl RawFrameRelay {
    /// The model of the slot serving `kind`.
    pub closed spec fn slot(&self, kind: MediaKind) -> FrameModel {
        match kind {
            MediaKind::Video => self.video@,
            MediaKind::Audio => self.audio@,
        }
    }

    /// Creates a relay with both slots disabled and empty, video frames
    /// timing out after [`VIDEO_TIMEOUT_MS`] and audio frames after
    /// [`AUDIO_TIMEOUT_MS`].
    pub fn new() -> (relay: Self)
        ensures
            relay.slot(MediaKind::Video) == frame_init(VIDEO_TIMEOUT_MS),
            relay.slot(MediaKind::Audio) == frame_init(AUDIO_TIMEOUT_MS),
    {
        RawFrameRelay {
            video: FrameSlot::new(VIDEO_TIMEOUT_MS),
            audio: FrameSlot::new(AUDIO_TIMEOUT_MS),
        }
    }

    /// Enables or disables the slot for `kind`; the other slot is untouched.
    pub fn set_enabled(&mut self, kind: MediaKind, value: bool)
        ensures
            final(self).slot(kind) == frame_set_enabled(old(self).slot(kind), value),
            forall|k: MediaKind| k != kind ==> final(self).slot(k) == old(self).slot(k),
    {
        match kind {
            MediaKind::Video => self.video.set_enabled(value),
            MediaKind::Audio => self.audio.set_enabled(value),
        }
    }

    /// Enables or disables the slot that `name` selects; a name that selects
    /// no slot leaves the relay unchanged.
    pub fn set_enabled_by_name(&mut self, name: &str, value: bool)
        ensures
            match spec_kind_of_name(name@) {
                Some(kind) => final(self).slot(kind) == frame_set_enabled(
                    old(self).slot(kind),
                    value,
                ) && forall|k: MediaKind| k != kind ==> final(self).slot(k) == old(self).slot(k),
                None => forall|k: MediaKind| final(self).slot(k) == old(self).slot(k),
            },
    {
        match kind_of_name(name) {
            Some(kind) => self.set_enabled(kind, value),
            None => (),
        }
    }

    /// Stores a frame for `kind` produced at time `now_ms`; see
    /// [`FrameSlot::update`]. The other slot is untouched.
    pub fn update(&mut self, kind: MediaKind, data: Vec<u8>, now_ms: u64)
        ensures
            final(self).slot(kind) == frame_update(old(self).slot(kind), data@, now_ms),
            forall|k: MediaKind| k != kind ==> final(self).slot(k) == old(self).slot(k),
    {
        match kind {
            MediaKind::Video => self.video.update(data, now_ms),
            MediaKind::Audio => self.audio.update(data, now_ms),
        }
    }

    /// Takes the pending frame for `kind` at time `now_ms`; see
    /// [`FrameSlot::take`]. The other slot is untouched.
    pub fn take(
        &mut self,
        kind: MediaKind,
        previous: &Vec<u8>,
        now_ms: u64,
        dst: &mut Vec<u8>,
    ) -> (got: Option<()>)
        ensures
            final(self).slot(kind) == frame_take(old(self).slot(kind), previous@, now_ms).0,
            forall|k: MediaKind| k != kind ==> final(self).slot(k) == old(self).slot(k),
            match frame_take(old(self).slot(kind), previous@, now_ms).1 {
                Some(bytes) => got == Some(()) && final(dst)@ == bytes,
                None => got == None::<()> && final(dst)@ == old(dst)@,
            },
    {
        match kind {
            MediaKind::Video => self.video.take(previous, now_ms, dst),
            MediaKind::Audio => self.audio.take(previous, now_ms, dst),
        }
    }
}

/// Law: an update overwrites any pending frame, so only the most recent
/// update can ever be observed.
pub proof fn lemma_update_overwrites(m: FrameModel, d1: Seq<u8>, t1: u64, d2: Seq<u8>, t2: u64)
    requires
        m.enabled,
    ensures
        frame_update(frame_update(m, d1, t1), d2, t2) == frame_update(m, d2, t2),
{
}

/// Law: a take within the staleness timeout, after an update whose bytes
/// differ from what the consumer saw last, delivers exactly the bytes of
/// that update and clears the slot.
pub proof fn lemma_take_within_timeout_delivers(
    m: FrameModel,
    data: Seq<u8>,
    previous: Seq<u8>,
    t_update: u64,
    t_take: u64,
)
    requires
        m.enabled,
        data.len() > 0,
        data != previous,
        t_update <= t_take,
        t_take - t_update <= m.timeout_ms,
    ensures
        frame_take(frame_update(m, data, t_update), previous, t_take).1 == Some(data),
        frame_take(frame_update(m, data, t_update), previous, t_take).0.buffer is None,
{
}

/// Law: a take after the staleness timeout has elapsed delivers nothing and
/// leaves the slot exactly as it was, unconsumed bytes included.
pub proof fn lemma_stale_take_delivers_nothing(m: FrameModel, previous: Seq<u8>, now_ms: u64)
    requires
        frame_is_stale(m, now_ms),
    ensures
        frame_take(m, previous, now_ms).1 is None,
        frame_take(m, previous, now_ms).0 == m,
{
}

/// Law: a take that delivered bytes consumed them, so a second take with no
/// intervening update delivers nothing.
pub proof fn lemma_take_consumes(
    m: FrameModel,
    prev1: Seq<u8>,
    t1: u64,
    prev2: Seq<u8>,
    t2: u64,
)
    requires
        frame_take(m, prev1, t1).1 is Some,
    ensures
        frame_take(frame_take(m, prev1, t1).0, prev2, t2).1 is None,
{
}

/// Law: a pending frame equal to the bytes the consumer saw last is
/// suppressed: the take delivers nothing, yet the slot is cleared.
pub proof fn lemma_duplicate_suppressed(m: FrameModel, previous: Seq<u8>, now_ms: u64)
    requires
        m.enabled,
        m.buffer == Some(previous),
        previous.len() > 0,
        !frame_is_stale(m, now_ms),
    ensures
        frame_take(m, previous, now_ms).1 is None,
        frame_take(m, previous, now_ms).0.buffer is None,
{
}

/// Law: after disabling a slot, every take delivers nothing until the slot
/// is re-enabled — whatever was pending when it was disabled, and whatever a
/// producer tried to store afterwards.
pub proof fn lemma_disabled_take_delivers_nothing(
    m: FrameModel,
    data: Seq<u8>,
    t_update: u64,
    previous: Seq<u8>,
    now_ms: u64,
)
    ensures
        frame_take(frame_set_enabled(m, false), previous, now_ms).1 is None,
        frame_take(frame_update(frame_set_enabled(m, false), data, t_update), previous, now_ms).1
            is None,
{
}

} // verus!

//! Take-once clipboard mailboxes, one per traffic direction.
//!
//! Each direction holds at most one pending payload. A publish overwrites
//! any unconsumed payload (last-write-wins, no queueing); a take removes and
//! returns the payload. Clipboard content does not go stale the way frames
//! do, so there is no timeout.
use vstd::prelude::*;

verus! {

/// The two directions clipboard payloads travel in.
#[derive(Debug, Clone, Copy, PartialEq, Eq, Structural)]
pub enum ClipDirection {
    HostToClient,
    ClientToHost,
}

/// Mathematical state of the mailbox pair: the pending payload per
/// direction, if any.
pub ghost struct ClipModel {
    pub host_to_client: Option<Seq<u8>>,
    pub client_to_host: Option<Seq<u8>>,
}

impl ClipModel {
    /// The pending payload for one direction.
    pub open spec fn pending(self, direction: ClipDirection) -> Option<Seq<u8>> {
        match direction {
            ClipDirection::HostToClient => self.host_to_client,
            ClipDirection::ClientToHost => self.client_to_host,
        }
    }
}

/// The mailbox state right after construction: nothing pending.
pub open spec fn clip_init() -> ClipModel {
    ClipModel { host_to_client: None, client_to_host: None }
}

/// Effect of publishing a payload: the direction's slot is overwritten
/// whether or not its previous payload was consumed; the other direction is
/// untouched.
pub open spec fn clip_publish(m: ClipModel, direction: ClipDirection, payload: Seq<u8>) -> ClipModel {
    match direction {
        ClipDirection::HostToClient => ClipModel { host_to_client: Some(payload), ..m },
        ClipDirection::ClientToHost => ClipModel { client_to_host: Some(payload), ..m },
    }
}

/// Effect and result of a take: the direction's slot is emptied and its
/// payload, if any, handed to the caller; the other direction is untouched.
pub open spec fn clip_take(m: ClipModel, direction: ClipDirection) -> (ClipModel, Option<Seq<u8>>) {
    match direction {
        ClipDirection::HostToClient => (
            ClipModel { host_to_client: None, ..m },
            m.host_to_client,
        ),
        ClipDirection::ClientToHost => (
            ClipModel { client_to_host: None, ..m },
            m.client_to_host,
        ),
    }
}

/// Two independent take-once single-slot mailboxes for parsed clipboard
/// payloads, one per traffic direction.
pub struct ClipboardMailbox {
    host_to_client: Option<Vec<u8>>,
    client_to_host: Option<Vec<u8>>,
}

impl View for ClipboardMailbox {
    type V = ClipModel;

    closed spec fn view(&self) -> ClipModel {
        ClipModel {
            host_to_client: match self.host_to_client {
                Some(p) => Some(p@),
                None => None,
            },
            client_to_host: match self.client_to_host {
                Some(p) => Some(p@),
                None => None,
            },
        }
    }
}

impl ClipboardMailbox {
    /// Creates a mailbox pair with nothing pending in either direction.
    pub fn new() -> (mailbox: Self)
        ensures
            mailbox@ == clip_init(),
    {
        ClipboardMailbox { host_to_client: None, client_to_host: None }
    }

    /// Publishes a payload for one direction, overwriting any unconsumed
    /// payload there (callers must tolerate loss of a superseded payload).
    pub fn publish(&mut self, direction: ClipDirection, payload: Vec<u8>)
        ensures
            final(self)@ == clip_publish(old(self)@, direction, payload@),
    {
        match direction {
            ClipDirection::HostToClient => self.host_to_client = Some(payload),
            ClipDirection::ClientToHost => self.client_to_host = Some(payload),
        }
    }

    /// Atomically removes and returns the pending payload for one direction,
    /// or `None` when nothing is pending.
    pub fn take(&mut self, direction: ClipDirection) -> (payload: Option<Vec<u8>>)
        ensures
            final(self)@ == clip_take(old(self)@, direction).0,
            match clip_take(old(self)@, direction).1 {
                Some(bytes) => payload matches Some(p) && p@ == bytes,
                None => payload is None,
            },
    {
        match direction {
            ClipDirection::HostToClient => self.host_to_client.take(),
            ClipDirection::ClientToHost => self.client_to_host.take(),
        }
    }

    /// Discards whatever is pending in both directions: part of the
    /// documented teardown at process end.
    pub fn clear(&mut self)
        ensures
            final(self)@ == clip_init(),
    {
        self.host_to_client = None;
        self.client_to_host = None;
    }
}

/// Which direction a raw clipboard notification's tag byte selects.
pub open spec fn spec_direction_of_tag(tag: u8) -> ClipDirection {
    if tag == 1 {
        ClipDirection::ClientToHost
    } else {
        ClipDirection::HostToClient
    }
}

/// Splits a raw clipboard notification into the direction its first byte
/// selects (tag `1` means client to host, anything else host to client) and
/// the payload that follows. An empty notification carries nothing and
/// yields `None`.
pub fn route_clipboard_update(data: &Vec<u8>) -> (routed: Option<(ClipDirection, Vec<u8>)>)
    ensures
        match routed {
            Some((direction, payload)) => data@.len() >= 1 && direction == spec_direction_of_tag(
                data@[0],
            ) && payload@ == data@.skip(1),
            None => data@.len() == 0,
        },
{
    if data.len() == 0 {
        return None;
    }
    let direction = if data[0] == 1 {
        ClipDirection::ClientToHost
    } else {
        ClipDirection::HostToClient
    };
    let mut payload: Vec<u8> = Vec::new();
    let mut i: usize = 1;
    while i < data.len()
        invariant
            1 <= i <= data@.len(),
            payload@ == data@.subrange(1, i as int),
        decreases data@.len() - i,
    {
        payload.push(data[i]);
        i = i + 1;
    }
    proof {
        assert(payload@ =~= data@.skip(1));
    }
    Some((direction, payload))
}

/// Feeds a raw clipboard notification from the engine into the mailboxes:
/// the payload is published for the direction the tag byte selects (see
/// [`route_clipboard_update`]). An empty notification carries nothing and
/// leaves the mailboxes unchanged.
pub fn on_clipboard_update(mailbox: &mut ClipboardMailbox, raw: &Vec<u8>)
    ensures
        raw@.len() == 0 ==> final(mailbox)@ == old(mailbox)@,
        raw@.len() >= 1 ==> final(mailbox)@ == clip_publish(
            old(mailbox)@,
            spec_direction_of_tag(raw@[0]),
            raw@.skip(1),
        ),
{
    match route_clipboard_update(raw) {
        Some((direction, payload)) => mailbox.publish(direction, payload),
        None => (),
    }
}

/// Law: a payload published before an earlier one was consumed supersedes
/// it, and the next take for that direction returns the later payload only.
pub proof fn lemma_publish_overwrites(
    m: ClipModel,
    direction: ClipDirection,
    first: Seq<u8>,
    second: Seq<u8>,
)
    ensures
        clip_take(clip_publish(clip_publish(m, direction, first), direction, second), direction).1
            == Some(second),
{
}

/// Law: a take empties its direction's slot, so a second take with no
/// intervening publish returns nothing.
pub proof fn lemma_take_is_take_once(m: ClipModel, direction: ClipDirection)
    ensures
        clip_take(clip_take(m, direction).0, direction).1 is None,
{
}

/// Law: the two directions are independent: an operation on one never
/// changes what is pending for the other.
pub proof fn lemma_directions_independent(
    m: ClipModel,
    direction: ClipDirection,
    other: ClipDirection,
    payload: Seq<u8>,
)
    requires
        direction != other,
    ensures
        clip_publish(m, direction, payload).pending(other) == m.pending(other),
        clip_take(m, direction).0.pending(other) == m.pending(other),
{
}

} // verus!

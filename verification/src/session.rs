//! The session registry: a map from process-unique session id to the
//! session's handle.
//!
//! A handle owns the peer identifier, the session's one mutable event sink,
//! and its reconnection round counter. The registry is a pure lifetime map:
//! `add` rejects an id that is already present (a caller bug, surfaced as
//! `DuplicateSession`), `remove` hands the session back to the caller, who
//! runs teardown; holders that keep only an id must re-look-up and never
//! assume the session still exists.
use crate::assoc::assoc_map;
use crate::assoc::distinct_keys;
use crate::assoc::lemma_assoc_map_contains;
use crate::assoc::lemma_assoc_map_index;
use crate::assoc::lemma_assoc_map_len;
use crate::assoc::lemma_assoc_map_push;
use crate::assoc::lemma_assoc_map_remove;
use crate::assoc::lemma_distinct_keys_push;
use crate::assoc::lemma_distinct_keys_remove;
use crate::assoc::lemma_map_values_push;
use crate::assoc::lemma_map_values_remove;
use crate::rounds::RoundCounter;
use crate::sink::EventSink;
use crate::BridgeError;
use vstd::prelude::*;

verus! {

/// Mathematical state of one session.
pub ghost struct SessionModel<S> {
    /// The peer this session is connected to.
    pub peer_id: Seq<char>,
    /// The session's one active event sink, if one is installed.
    pub sink: Option<S>,
    /// The session's current reconnection round.
    pub round: u64,
}

/// A session as the registry owns it.
pub struct SessionEntry<S: EventSink> {
    peer_id: String,
    sink: Option<S>,
    rounds: RoundCounter,
}

impl<S: EventSink> View for SessionEntry<S> {
    type V = SessionModel<S>;

    closed spec fn view(&self) -> SessionModel<S> {
        SessionModel { peer_id: self.peer_id@, sink: self.sink, round: self.rounds@ }
    }
}

impl<S: EventSink> SessionEntry<S> {
    /// The identifier of the peer this session is connected to.
    pub fn peer_id(&self) -> (peer: &String)
        ensures
            peer@ == self@.peer_id,
    {
        &self.peer_id
    }

    /// The session's current reconnection round.
    pub fn round(&self) -> (round: u64)
        ensures
            round == self@.round,
    {
        self.rounds.current()
    }

    /// Teardown of a session the registry handed back: severs the sink,
    /// delivering its terminal close notification, and returns it so the
    /// caller can release it. The registry never cascades this itself.
    pub fn close(self) -> (severed: Option<S>)
        ensures
            match self@.sink {
                Some(q) => severed matches Some(p) && p.is_closed() && p.delivered()
                    == q.delivered() && p.outcomes() == q.outcomes(),
                None => severed is None,
            },
    {
        match self.sink {
            Some(mut s) => {
                s.on_close();
                Some(s)
            },
            None => None,
        }
    }
}

/// The state a freshly added session starts in: no sink, round zero.
pub open spec fn session_init<S>(peer_id: Seq<char>) -> SessionModel<S> {
    SessionModel { peer_id, sink: None, round: 0 }
}

/// Effect and result of adding a session: an id already present is a caller
/// error and changes nothing; otherwise the session is registered in its
/// initial state.
pub open spec fn spec_add<S>(
    m: Map<u128, SessionModel<S>>,
    id: u128,
    peer_id: Seq<char>,
) -> (Map<u128, SessionModel<S>>, Result<(), BridgeError>) {
    if m.contains_key(id) {
        (m, Err(BridgeError::DuplicateSession))
    } else {
        (m.insert(id, session_init(peer_id)), Ok(()))
    }
}

/// Effect and result of removing a session: the session, if present, leaves
/// the registry and is handed to the caller.
pub open spec fn spec_remove<S>(m: Map<u128, SessionModel<S>>, id: u128) -> (
    Map<u128, SessionModel<S>>,
    Option<SessionModel<S>>,
) {
    if m.contains_key(id) {
        (m.remove(id), Some(m[id]))
    } else {
        (m, None)
    }
}

/// Concurrent map from session identifier to session handle.
pub struct SessionRegistry<S: EventSink> {
    entries: Vec<(u128, SessionEntry<S>)>,
}

impl<S: EventSink> View for SessionRegistry<S> {
    type V = Map<u128, SessionModel<S>>;

    closed spec fn view(&self) -> Map<u128, SessionModel<S>> {
        assoc_map(self.id_pairs())
    }
}

impl<S: EventSink> SessionRegistry<S> {
    /// The registry's entries with handles abstracted to their models.
    closed spec fn id_pairs(&self) -> Seq<(u128, SessionModel<S>)> {
        self.entries@.map_values(|e: (u128, SessionEntry<S>)| (e.0, e.1@))
    }

    /// Well-formed: one entry per session id, and no installed sink has been
    /// closed — a closed sink is never invoked again, so it never stays
    /// installed.
    pub closed spec fn wf(&self) -> bool {
        &&& distinct_keys(self.id_pairs())
        &&& forall|i: int|
            #![trigger self.entries@[i]]
            0 <= i < self.entries@.len() ==> match self.entries@[i].1@.sink {
                Some(s) => !s.is_closed(),
                None => true,
            }
    }

    /// Creates an empty registry.
    pub fn new() -> (registry: Self)
        ensures
            registry@ == Map::<u128, SessionModel<S>>::empty(),
            registry.wf(),
    {
        SessionRegistry { entries: Vec::new() }
    }

    /// The index of the entry for `id`, if one exists.
    fn find_index(&self, id: u128) -> (found: Option<usize>)
        ensures
            match found {
                Some(i) => i < self.entries@.len() && self.entries@[i as int].0 == id,
                None => forall|j: int|
                    #![trigger self.entries@[j]]
                    0 <= j < self.entries@.len() ==> self.entries@[j].0 != id,
            },
    {
        let mut i: usize = 0;
        while i < self.entries.len()
            invariant
                i <= self.entries@.len(),
                forall|j: int|
                    #![trigger self.entries@[j]]
                    0 <= j < i ==> self.entries@[j].0 != id,
            decreases self.entries@.len() - i,
        {
            if self.entries[i].0 == id {
                return Some(i);
            }
            i = i + 1;
        }
        None
    }

    /// Whether a session with this id is registered.
    pub fn contains(&self, id: u128) -> (registered: bool)
        ensures
            registered == self@.contains_key(id),
    {
        proof {
            lemma_assoc_map_contains(self.id_pairs(), id);
        }
        match self.find_index(id) {
            Some(i) => {
                proof {
                    assert(self.id_pairs()[i as int].0 == id);
                }
                true
            },
            None => {
                proof {
                    assert(forall|j: int|
                        0 <= j < self.id_pairs().len() ==> #[trigger] self.id_pairs()[j].0 != id);
                }
                false
            },
        }
    }

    /// Registers a new session for `id`, connected to `peer_id`, with no
    /// sink and at round zero. An id already present is a caller error:
    /// nothing is overwritten and `DuplicateSession` is returned.
    pub fn add(&mut self, id: u128, peer_id: String) -> (outcome: Result<(), BridgeError>)
        requires
            old(self).wf(),
        ensures
            final(self).wf(),
            final(self)@ == spec_add(old(self)@, id, peer_id@).0,
            outcome == spec_add(old(self)@, id, peer_id@).1,
    {
        let ghost pairs0 = self.id_pairs();
        proof {
            lemma_assoc_map_contains(pairs0, id);
        }
        match self.find_index(id) {
            Some(i) => {
                proof {
                    assert(pairs0[i as int].0 == id);
                }
                Err(BridgeError::DuplicateSession)
            },
            None => {
                proof {
                    assert(forall|j: int| 0 <= j < pairs0.len() ==> #[trigger] pairs0[j].0 != id);
                }
                let entry = SessionEntry { peer_id, sink: None, rounds: RoundCounter::new() };
                proof {
                    lemma_map_values_push(
                        self.entries@,
                        |e: (u128, SessionEntry<S>)| (e.0, e.1@),
                        (id, entry),
                    );
                    lemma_assoc_map_push(pairs0, id, entry@);
                    lemma_distinct_keys_push(pairs0, id, entry@);
                }
                self.entries.push((id, entry));
                Ok(())
            },
        }
    }

    /// A cheap concurrent read: the peer identifier of the session with this
    /// id, or `None` when no such session exists (query calls on a missing
    /// session are routine, not an error).
    pub fn peer_id_of(&self, id: u128) -> (peer: Option<String>)
        requires
            self.wf(),
        ensures
            match peer {
                Some(p) => self@.contains_key(id) && p@ == self@[id].peer_id,
                None => !self@.contains_key(id),
            },
    {
        proof {
            lemma_assoc_map_contains(self.id_pairs(), id);
        }
        match self.find_index(id) {
            Some(i) => {
                proof {
                    lemma_assoc_map_index(self.id_pairs(), i as int);
                }
                Some(self.entries[i].1.peer_id.clone())
            },
            None => {
                proof {
                    assert(forall|j: int|
                        0 <= j < self.id_pairs().len() ==> #[trigger] self.id_pairs()[j].0 != id);
                }
                None
            },
        }
    }

    /// The session's current reconnection round, or `None` when no such
    /// session exists.
    pub fn current_round(&self, id: u128) -> (round: Option<u64>)
        requires
            self.wf(),
        ensures
            match round {
                Some(r) => self@.contains_key(id) && r == self@[id].round,
                None => !self@.contains_key(id),
            },
    {
        proof {
            lemma_assoc_map_contains(self.id_pairs(), id);
        }
        match self.find_index(id) {
            Some(i) => {
                proof {
                    lemma_assoc_map_index(self.id_pairs(), i as int);
                }
                Some(self.entries[i].1.rounds.current())
            },
            None => {
                proof {
                    assert(forall|j: int|
                        0 <= j < self.id_pairs().len() ==> #[trigger] self.id_pairs()[j].0 != id);
                }
                None
            },
        }
    }

    /// Removes the session with this id and returns ownership to the caller,
    /// who is responsible for teardown (see [`SessionEntry::close`]); the
    /// registry does not cascade it. Removing an unknown id is a no-op.
    pub fn remove(&mut self, id: u128) -> (removed: Option<SessionEntry<S>>)
        requires
            old(self).wf(),
        ensures
            final(self).wf(),
            final(self)@ == spec_remove(old(self)@, id).0,
            match removed {
                Some(entry) => spec_remove(old(self)@, id).1 == Some(entry@),
                None => spec_remove(old(self)@, id).1 is None,
            },
    {
        let ghost pairs0 = self.id_pairs();
        proof {
            lemma_assoc_map_contains(pairs0, id);
        }
        match self.find_index(id) {
            Some(i) => {
                proof {
                    assert(pairs0[i as int].0 == id);
                    lemma_assoc_map_index(pairs0, i as int);
                    lemma_map_values_remove(
                        self.entries@,
                        |e: (u128, SessionEntry<S>)| (e.0, e.1@),
                        i as int,
                    );
                    lemma_assoc_map_remove(pairs0, i as int);
                    lemma_distinct_keys_remove(pairs0, i as int);
                }
                let (_, entry) = self.entries.remove(i);
                Some(entry)
            },
            None => {
                proof {
                    assert(forall|j: int| 0 <= j < pairs0.len() ==> #[trigger] pairs0[j].0 != id);
                }
                None
            },
        }
    }

    /// Installs `sink` as the session's one active sink.
    ///
    /// If a sink is already installed, it first receives its terminal close
    /// notification — so the superseded consumer can tell "another consumer
    /// took over" apart from silence — and is handed back to the caller. An
    /// unknown id changes nothing and returns `SessionNotFound`.
    pub fn install_sink(&mut self, id: u128, sink: S) -> (outcome: Result<Option<S>, BridgeError>)
        requires
            old(self).wf(),
            !sink.is_closed(),
        ensures
            final(self).wf(),
            !old(self)@.contains_key(id) ==> final(self)@ == old(self)@ && outcome == Err::<
                Option<S>,
                BridgeError,
            >(BridgeError::SessionNotFound),
            old(self)@.contains_key(id) ==> {
                &&& final(self)@ == old(self)@.insert(
                    id,
                    SessionModel { sink: Some(sink), ..old(self)@[id] },
                )
                &&& match old(self)@[id].sink {
                    Some(q) => outcome matches Ok(Some(p)) && p.is_closed() && p.delivered()
                        == q.delivered() && p.outcomes() == q.outcomes(),
                    None => outcome == Ok::<Option<S>, BridgeError>(None),
                }
            },
    {
        let ghost pairs0 = self.id_pairs();
        proof {
            lemma_assoc_map_contains(pairs0, id);
        }
        match self.find_index(id) {
            Some(i) => {
                proof {
                    assert(pairs0[i as int].0 == id);
                    lemma_assoc_map_index(pairs0, i as int);
                    lemma_map_values_remove(
                        self.entries@,
                        |e: (u128, SessionEntry<S>)| (e.0, e.1@),
                        i as int,
                    );
                    lemma_assoc_map_remove(pairs0, i as int);
                    lemma_distinct_keys_remove(pairs0, i as int);
                }
                let (entry_id, mut entry) = self.entries.remove(i);
                let severed: Option<S> = match entry.sink.take() {
                    Some(mut prev) => {
                        prev.on_close();
                        Some(prev)
                    },
                    None => None,
                };
                entry.sink = Some(sink);
                let ghost pairs1 = self.id_pairs();
                proof {
                    assert(forall|j: int| 0 <= j < pairs1.len() ==> #[trigger] pairs1[j].0 != id);
                    lemma_map_values_push(
                        self.entries@,
                        |e: (u128, SessionEntry<S>)| (e.0, e.1@),
                        (entry_id, entry),
                    );
                    lemma_assoc_map_push(pairs1, id, entry@);
                    lemma_distinct_keys_push(pairs1, id, entry@);
                    assert(assoc_map(pairs1).insert(id, entry@) =~= old(self)@.insert(
                        id,
                        entry@,
                    ));
                }
                self.entries.push((entry_id, entry));
                Ok(severed)
            },
            None => {
                proof {
                    assert(forall|j: int| 0 <= j < pairs0.len() ==> #[trigger] pairs0[j].0 != id);
                }
                Err(BridgeError::SessionNotFound)
            },
        }
    }

    /// Delivers `event` to the session's current sink, synchronously.
    ///
    /// Fails with `SessionNotFound` when the id is unknown or the session
    /// has no sink installed (both routine while the UI races a teardown),
    /// and with `SinkInvocationFailed` when the sink did not accept the
    /// event; the sink stays installed either way, and the event is recorded
    /// as delivered to it. No other session is touched.
    pub fn send_to_session(&mut self, id: u128, event: String) -> (outcome: Result<
        (),
        BridgeError,
    >)
        requires
            old(self).wf(),
        ensures
            final(self).wf(),
            (old(self)@.contains_key(id) && old(self)@[id].sink is Some) ==> {
                &&& final(self)@.dom() == old(self)@.dom()
                &&& final(self)@[id].peer_id == old(self)@[id].peer_id
                &&& final(self)@[id].round == old(self)@[id].round
                &&& match (final(self)@[id].sink, old(self)@[id].sink) {
                    (Some(now), Some(before)) => now.delivered() == before.delivered().push(
                        event@,
                    ) && now.outcomes() == before.outcomes().push(
                        outcome == Ok::<(), BridgeError>(()),
                    ) && !now.is_closed(),
                    _ => false,
                }
                &&& forall|k: u128|
                    #![trigger final(self)@[k]]
                    old(self)@.contains_key(k) && k != id ==> final(self)@[k] == old(self)@[k]
                &&& (outcome == Ok::<(), BridgeError>(()) || outcome == Err::<(), BridgeError>(
                    BridgeError::SinkInvocationFailed,
                ))
            },
            !(old(self)@.contains_key(id) && old(self)@[id].sink is Some) ==> final(self)@ == old(
                self,
            )@ && outcome == Err::<(), BridgeError>(BridgeError::SessionNotFound),
    {
        let ghost pairs0 = self.id_pairs();
        proof {
            lemma_assoc_map_contains(pairs0, id);
        }
        match self.find_index(id) {
            Some(i) => {
                proof {
                    assert(pairs0[i as int].0 == id);
                    lemma_assoc_map_index(pairs0, i as int);
                    lemma_map_values_remove(
                        self.entries@,
                        |e: (u128, SessionEntry<S>)| (e.0, e.1@),
                        i as int,
                    );
                    lemma_assoc_map_remove(pairs0, i as int);
                    lemma_distinct_keys_remove(pairs0, i as int);
                }
                let (entry_id, mut entry) = self.entries.remove(i);
                match entry.sink.take() {
                    Some(mut active) => {
                        let accepted = active.on_event(event);
                        entry.sink = Some(active);
                        let ghost pairs1 = self.id_pairs();
                        proof {
                            assert(forall|j: int|
                                0 <= j < pairs1.len() ==> #[trigger] pairs1[j].0 != id);
                            lemma_map_values_push(
                                self.entries@,
                                |e: (u128, SessionEntry<S>)| (e.0, e.1@),
                                (entry_id, entry),
                            );
                            lemma_assoc_map_push(pairs1, id, entry@);
                            lemma_distinct_keys_push(pairs1, id, entry@);
                            assert(assoc_map(pairs1).insert(id, entry@) =~= old(self)@.insert(
                                id,
                                entry@,
                            ));
                            assert(old(self)@.insert(id, entry@).dom() =~= old(self)@.dom());
                        }
                        self.entries.push((entry_id, entry));
                        if accepted {
                            Ok(())
                        } else {
                            Err(BridgeError::SinkInvocationFailed)
                        }
                    },
                    None => {
                        let ghost pairs1 = self.id_pairs();
                        proof {
                            assert(forall|j: int|
                                0 <= j < pairs1.len() ==> #[trigger] pairs1[j].0 != id);
                            lemma_map_values_push(
                                self.entries@,
                                |e: (u128, SessionEntry<S>)| (e.0, e.1@),
                                (entry_id, entry),
                            );
                            lemma_assoc_map_push(pairs1, id, entry@);
                            lemma_distinct_keys_push(pairs1, id, entry@);
                            assert(assoc_map(pairs1).insert(id, entry@) =~= old(self)@.insert(
                                id,
                                entry@,
                            ));
                            assert(old(self)@.insert(id, entry@) =~= old(self)@);
                        }
                        self.entries.push((entry_id, entry));
                        Err(BridgeError::SessionNotFound)
                    },
                }
            },
            None => {
                proof {
                    assert(forall|j: int| 0 <= j < pairs0.len() ==> #[trigger] pairs0[j].0 != id);
                }
                Err(BridgeError::SessionNotFound)
            },
        }
    }

    /// Starts (or takes over) the UI side of a session: installs `sink` as
    /// the session's one active sink and decides whether a background loop
    /// must be spawned.
    ///
    /// On a first connect (no sink was installed) a new reconnection round
    /// is started and returned as `(None, Some(token))`: the caller spawns
    /// a background loop carrying that token. On a takeover the superseded
    /// sink is handed back closed as `(Some(prev), None)`: the session's
    /// running loop keeps its existing token, and the previous consumer
    /// learns its session was taken over. An unknown id changes nothing and
    /// returns `SessionNotFound`.
    pub fn start_session(&mut self, id: u128, sink: S) -> (outcome: Result<
        (Option<S>, Option<u64>),
        BridgeError,
    >)
        requires
            old(self).wf(),
            !sink.is_closed(),
            old(self)@.contains_key(id) ==> old(self)@[id].round < u64::MAX,
        ensures
            final(self).wf(),
            !old(self)@.contains_key(id) ==> final(self)@ == old(self)@ && outcome == Err::<
                (Option<S>, Option<u64>),
                BridgeError,
            >(BridgeError::SessionNotFound),
            old(self)@.contains_key(id) ==> match old(self)@[id].sink {
                Some(q) => outcome matches Ok((Some(prev), None)) && prev.is_closed()
                    && prev.delivered() == q.delivered() && prev.outcomes() == q.outcomes()
                    && final(self)@ == old(self)@.insert(
                    id,
                    SessionModel { sink: Some(sink), ..old(self)@[id] },
                ),
                None => outcome matches Ok((None, Some(token))) && token == old(self)@[id].round
                    + 1 && final(self)@ == old(self)@.insert(
                    id,
                    SessionModel {
                        sink: Some(sink),
                        round: (old(self)@[id].round + 1) as u64,
                        ..old(self)@[id]
                    },
                ),
            },
    {
        match self.install_sink(id, sink) {
            Err(e) => Err(e),
            Ok(Some(prev)) => Ok((Some(prev), None)),
            Ok(None) => match self.new_round(id) {
                Some(token) => Ok((None, Some(token))),
                None => {
                    proof {
                        assert(false);
                    }
                    Err(BridgeError::SessionNotFound)
                },
            },
        }
    }

    /// The cooperative-cancellation check a background loop runs at each
    /// iteration: whether its captured token still matches the session's
    /// current round. A session that is gone supersedes all its loops.
    pub fn loop_may_act(&self, id: u128, token: u64) -> (may_act: bool)
        requires
            self.wf(),
        ensures
            may_act == (self@.contains_key(id) && crate::rounds::spec_round_guard(
                self@[id].round,
                token,
            )),
    {
        match self.current_round(id) {
            Some(current) => crate::rounds::round_guard(current, token),
            None => false,
        }
    }

    /// Starts a new reconnection round for the session and returns it as the
    /// attempt's token: every background loop that captured an earlier token
    /// is superseded from this moment (see [`crate::rounds`]). An unknown id
    /// changes nothing and returns `None`.
    pub fn new_round(&mut self, id: u128) -> (token: Option<u64>)
        requires
            old(self).wf(),
            old(self)@.contains_key(id) ==> old(self)@[id].round < u64::MAX,
        ensures
            final(self).wf(),
            !old(self)@.contains_key(id) ==> final(self)@ == old(self)@ && token is None,
            old(self)@.contains_key(id) ==> {
                &&& token == Some(((old(self)@[id].round + 1) as u64))
                &&& final(self)@ == old(self)@.insert(
                    id,
                    SessionModel { round: (old(self)@[id].round + 1) as u64, ..old(self)@[id] },
                )
            },
    {
        let ghost pairs0 = self.id_pairs();
        proof {
            lemma_assoc_map_contains(pairs0, id);
        }
        match self.find_index(id) {
            Some(i) => {
                proof {
                    assert(pairs0[i as int].0 == id);
                    lemma_assoc_map_index(pairs0, i as int);
                    lemma_map_values_remove(
                        self.entries@,
                        |e: (u128, SessionEntry<S>)| (e.0, e.1@),
                        i as int,
                    );
                    lemma_assoc_map_remove(pairs0, i as int);
                    lemma_distinct_keys_remove(pairs0, i as int);
                }
                let (entry_id, mut entry) = self.entries.remove(i);
                let round = entry.rounds.new_round();
                let ghost pairs1 = self.id_pairs();
                proof {
                    assert(forall|j: int| 0 <= j < pairs1.len() ==> #[trigger] pairs1[j].0 != id);
                    lemma_map_values_push(
                        self.entries@,
                        |e: (u128, SessionEntry<S>)| (e.0, e.1@),
                        (entry_id, entry),
                    );
                    lemma_assoc_map_push(pairs1, id, entry@);
                    lemma_distinct_keys_push(pairs1, id, entry@);
                    assert(assoc_map(pairs1).insert(id, entry@) =~= old(self)@.insert(
                        id,
                        entry@,
                    ));
                }
                self.entries.push((entry_id, entry));
                Some(round)
            },
            None => {
                proof {
                    assert(forall|j: int| 0 <= j < pairs0.len() ==> #[trigger] pairs0[j].0 != id);
                }
                None
            },
        }
    }
}

/// The session ids of `m` that have a sink installed: the sessions whose
/// sink teardown must sever.
pub open spec fn sinked_sessions<S: EventSink>(m: Map<u128, SessionModel<S>>) -> Set<u128> {
    m.dom().filter(|k: u128| m[k].sink is Some)
}

/// What tearing a registry in state `pre` down hands back: `ids` enumerates
/// the old registry's sessions that had a sink installed — each exactly
/// once, all of them — and `severed[i]` is the sink that was installed for
/// session `ids[i]`, closed, its delivered events exactly as they stood. So
/// every installed sink receives its close notification and nothing else on
/// the way out.
pub open spec fn sever_all_witness<S: EventSink>(
    pre: Map<u128, SessionModel<S>>,
    severed: Seq<S>,
    ids: Seq<u128>,
) -> bool {
    &&& ids.len() == severed.len()
    &&& ids.no_duplicates()
    &&& forall|i: int|
        #![trigger ids[i]]
        0 <= i < ids.len() ==> pre.contains_key(ids[i]) && (match pre[ids[i]].sink {
            Some(q) => severed[i].is_closed() && severed[i].delivered() == q.delivered()
                && severed[i].outcomes() == q.outcomes(),
            None => false,
        })
    &&& forall|k: u128| pre.contains_key(k) && pre[k].sink is Some ==> ids.contains(k)
}

impl<S: EventSink> SessionRegistry<S> {
    /// Removes every session and severs each installed sink, delivering its
    /// terminal close notification: the documented teardown at process end.
    /// The severed sinks — one per session that had a sink, with its
    /// delivered events exactly as they stood (see [`sever_all_witness`]) —
    /// are handed back so the caller can observe or release them.
    pub fn close_all(&mut self) -> (severed: Vec<S>)
        requires
            old(self).wf(),
        ensures
            final(self).wf(),
            final(self)@ == Map::<u128, SessionModel<S>>::empty(),
            severed@.len() == sinked_sessions(old(self)@).len(),
            exists|ids: Seq<u128>| sever_all_witness(old(self)@, severed@, ids),
    {
        proof {
            lemma_assoc_map_len(self.id_pairs());
        }
        let ghost m0 = self@;
        let mut severed: Vec<S> = Vec::new();
        let ghost mut ids: Seq<u128> = Seq::empty();
        loop
            invariant
                self.wf(),
                ids.len() == severed@.len(),
                ids.no_duplicates(),
                forall|i: int|
                    #![trigger ids[i]]
                    0 <= i < ids.len() ==> m0.contains_key(ids[i]) && (match m0[ids[i]].sink {
                        Some(q) => severed@[i].is_closed() && severed@[i].delivered()
                            == q.delivered() && severed@[i].outcomes() == q.outcomes(),
                        None => false,
                    }) && !self@.contains_key(ids[i]),
                forall|k: u128|
                    #![trigger m0.contains_key(k)]
                    m0.contains_key(k) && m0[k].sink is Some ==> ids.contains(k)
                        || self@.contains_key(k),
                forall|k: u128|
                    #![trigger self@.contains_key(k)]
                    self@.contains_key(k) ==> m0.contains_key(k) && self@[k] == m0[k],
            ensures
                self.entries@.len() == 0,
                sever_all_witness(m0, severed@, ids),
            decreases self.entries@.len(),
        {
            let ghost pairs0 = self.id_pairs();
            let ghost view0 = self@;
            let ghost ids0 = ids;
            match self.entries.pop() {
                Some((entry_id, entry)) => {
                    proof {
                        assert(pairs0.last() == (entry_id, entry@));
                        lemma_assoc_map_index(pairs0, pairs0.len() - 1);
                        assert(pairs0.drop_last() =~= self.id_pairs());
                        lemma_distinct_keys_remove(pairs0, pairs0.len() - 1);
                        assert(pairs0.remove(pairs0.len() - 1) =~= pairs0.drop_last());
                        lemma_assoc_map_remove(pairs0, pairs0.len() - 1);
                        assert(self@ == view0.remove(entry_id));
                    }
                    match entry.close() {
                        Some(sink) => {
                            severed.push(sink);
                            proof {
                                ids = ids.push(entry_id);
                                assert forall|a: int, b: int|
                                    0 <= a < ids.len() && 0 <= b < ids.len() && a
                                        != b implies ids[a] != ids[b] by {
                                    if a < ids0.len() && b < ids0.len() {
                                        assert(ids0[a] == ids[a] && ids0[b] == ids[b]);
                                    } else if a < ids0.len() {
                                        assert(!view0.contains_key(ids0[a]));
                                    } else {
                                        assert(!view0.contains_key(ids0[b]));
                                    }
                                }
                                assert forall|k: u128|
                                    #[trigger] m0.contains_key(k) && m0[k].sink
                                        is Some implies ids.contains(k) || self@.contains_key(
                                    k,
                                ) by {
                                    if ids0.contains(k) {
                                        let i = choose|i: int|
                                            0 <= i < ids0.len() && ids0[i] == k;
                                        assert(ids[i] == k);
                                    } else if view0.contains_key(k) && k == entry_id {
                                        assert(ids.last() == k);
                                    }
                                }
                            }
                        },
                        None => {
                            proof {
                                assert forall|k: u128|
                                    #[trigger] m0.contains_key(k) && m0[k].sink
                                        is Some implies ids.contains(k) || self@.contains_key(
                                    k,
                                ) by {
                                    if view0.contains_key(k) && k == entry_id {
                                        assert(m0[k].sink is None);
                                    }
                                }
                            }
                        },
                    }
                },
                None => {
                    break ;
                },
            }
        }
        proof {
            assert(self.id_pairs().len() == 0);
            assert(self@ =~= Map::<u128, SessionModel<S>>::empty());
            assert forall|k: u128|
                m0.contains_key(k) && m0[k].sink is Some implies ids.contains(k) by {
                assert(!self@.contains_key(k));
            }
            assert(ids.to_set() =~= sinked_sessions(m0)) by {
                assert forall|k: u128| ids.to_set().contains(k) implies sinked_sessions(
                    m0,
                ).contains(k) by {
                    let i = choose|i: int| 0 <= i < ids.len() && ids[i] == k;
                    assert(m0.contains_key(ids[i]) && m0[ids[i]].sink is Some);
                }
            }
            ids.unique_seq_to_set();
            m0.dom().lemma_len_filter(|k: u128| m0[k].sink is Some);
        }
        severed
    }
}

/// Law: adding a session whose id is free succeeds, and adding the same id
/// again fails with `DuplicateSession`, whatever peer it names, leaving the
/// registry unchanged.
pub proof fn lemma_duplicate_add_rejected<S>(
    m: Map<u128, SessionModel<S>>,
    id: u128,
    peer1: Seq<char>,
    peer2: Seq<char>,
)
    requires
        !m.contains_key(id),
    ensures
        spec_add(m, id, peer1).1 == Ok::<(), BridgeError>(()),
        spec_add(spec_add(m, id, peer1).0, id, peer2).1 == Err::<(), BridgeError>(
            BridgeError::DuplicateSession,
        ),
        spec_add(spec_add(m, id, peer1).0, id, peer2).0 == spec_add(m, id, peer1).0,
{
}

/// Law: removing a session right after adding it succeeds and hands back
/// the freshly added session, and a subsequent lookup finds nothing.
pub proof fn lemma_remove_after_add<S>(m: Map<u128, SessionModel<S>>, id: u128, peer: Seq<char>)
    requires
        !m.contains_key(id),
    ensures
        spec_remove(spec_add(m, id, peer).0, id).1 == Some(session_init::<S>(peer)),
        !spec_remove(spec_add(m, id, peer).0, id).0.contains_key(id),
{
    assert(spec_add(m, id, peer).0.remove(id) =~= m.remove(id));
}

} // verus!

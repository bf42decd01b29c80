//! Named global event channels: each channel name holds at most one active
//! sink.
//!
//! Registering a sink for a name that already has one first delivers the
//! terminal close notification to the sink being replaced, then installs the
//! new one — two live sinks per channel never exist. Pushing an event to a
//! channel invokes its sink synchronously; an invocation failure is reported
//! to the caller, never propagated as a crash, and leaves the sink
//! registered.
use crate::assoc::assoc_map;
use crate::assoc::distinct_keys;
use crate::assoc::lemma_assoc_map_contains;
use crate::assoc::lemma_assoc_map_index;
use crate::assoc::lemma_assoc_map_len;
use crate::assoc::lemma_assoc_map_push;
use crate::assoc::lemma_assoc_map_remove;
use crate::assoc::lemma_distinct_keys_push;
use crate::assoc::lemma_distinct_keys_remove;
use crate::assoc::lemma_map_values_push;
use crate::assoc::lemma_map_values_remove;
use crate::sink::EventSink;
use crate::BridgeError;
use vstd::prelude::*;

verus! {

/// What registering `sink` for `name` does to a registry in state `pre`:
/// the new sink becomes the name's one active sink, and the sink it
/// replaced, if any, is handed back closed, its delivered events as they
/// stood — the close notification is the last thing it ever receives.
pub open spec fn register_effect<S: EventSink>(
    pre: Map<Seq<char>, S>,
    post: Map<Seq<char>, S>,
    name: Seq<char>,
    sink: S,
    replaced: Option<S>,
) -> bool {
    &&& post == pre.insert(name, sink)
    &&& match replaced {
        Some(prev) => pre.contains_key(name) && prev.is_closed() && prev.delivered()
            == pre[name].delivered() && prev.outcomes() == pre[name].outcomes(),
        None => !pre.contains_key(name),
    }
}

/// What pushing `event` to `name` does to a registry in state `pre`: with a
/// sink registered there, the event is delivered to that sink and to no
/// other, the sink stays registered and open, and the outcome faithfully
/// reports whether the far side accepted the event — it is `Ok` exactly when
/// the sink's recorded answer says so; with no sink registered, nothing
/// changes and the caller learns `ChannelNotFound`.
pub open spec fn push_effect<S: EventSink>(
    pre: Map<Seq<char>, S>,
    post: Map<Seq<char>, S>,
    name: Seq<char>,
    event: Seq<char>,
    outcome: Result<(), BridgeError>,
) -> bool {
    if pre.contains_key(name) {
        &&& post.dom() == pre.dom()
        &&& post[name].delivered() == pre[name].delivered().push(event)
        &&& post[name].outcomes() == pre[name].outcomes().push(outcome == Ok::<(), BridgeError>(()))
        &&& !post[name].is_closed()
        &&& forall|k: Seq<char>|
            #![trigger post[k]]
            pre.contains_key(k) && k != name ==> post[k] == pre[k]
        &&& (outcome == Ok::<(), BridgeError>(()) || outcome == Err::<(), BridgeError>(
            BridgeError::SinkInvocationFailed,
        ))
    } else {
        post == pre && outcome == Err::<(), BridgeError>(BridgeError::ChannelNotFound)
    }
}

/// What tearing a registry in state `pre` down hands back: `names`
/// enumerates the old registry's channels — each exactly once, all of them —
/// and `closed[i]` is the sink that was registered for `names[i]`, closed,
/// its delivered events exactly as they stood. So every registered sink
/// receives its close notification and nothing else on the way out.
pub open spec fn close_all_witness<S: EventSink>(
    pre: Map<Seq<char>, S>,
    closed: Seq<S>,
    names: Seq<Seq<char>>,
) -> bool {
    &&& names.len() == closed.len()
    &&& names.no_duplicates()
    &&& forall|i: int|
        #![trigger names[i]]
        0 <= i < names.len() ==> pre.contains_key(names[i]) && closed[i].is_closed()
            && closed[i].delivered() == pre[names[i]].delivered() && closed[i].outcomes()
            == pre[names[i]].outcomes()
    &&& forall|k: Seq<char>| pre.contains_key(k) ==> names.contains(k)
}

/// The channel registry: a map from channel name to its one active sink.
pub struct EventChannelRegistry<S: EventSink> {
    entries: Vec<(String, S)>,
}

impl<S: EventSink> View for EventChannelRegistry<S> {
    type V = Map<Seq<char>, S>;

    closed spec fn view(&self) -> Map<Seq<char>, S> {
        assoc_map(self.name_pairs())
    }
}

impl<S: EventSink> EventChannelRegistry<S> {
    /// The registry's entries with names abstracted to character sequences.
    closed spec fn name_pairs(&self) -> Seq<(Seq<char>, S)> {
        self.entries@.map_values(|e: (String, S)| (e.0@, e.1))
    }

    /// Well-formed: one entry per channel name, and no stored sink has been
    /// closed — a closed sink is never invoked again, so it never stays
    /// registered.
    pub closed spec fn wf(&self) -> bool {
        &&& distinct_keys(self.name_pairs())
        &&& forall|i: int|
            #![trigger self.entries@[i]]
            0 <= i < self.entries@.len() ==> !self.entries@[i].1.is_closed()
    }

    /// Creates an empty registry.
    pub fn new() -> (registry: Self)
        ensures
            registry@ == Map::<Seq<char>, S>::empty(),
            registry.wf(),
    {
        EventChannelRegistry { entries: Vec::new() }
    }

    /// The index of the entry for `name`, if one exists.
    fn find_index(&self, name: &str) -> (found: Option<usize>)
        ensures
            match found {
                Some(i) => i < self.entries@.len() && self.entries@[i as int].0@ == name@,
                None => forall|j: int|
                    #![trigger self.entries@[j]]
                    0 <= j < self.entries@.len() ==> self.entries@[j].0@ != name@,
            },
    {
        let owned: String = name.to_owned();
        let mut i: usize = 0;
        while i < self.entries.len()
            invariant
                i <= self.entries@.len(),
                owned@ == name@,
                forall|j: int|
                    #![trigger self.entries@[j]]
                    0 <= j < i ==> self.entries@[j].0@ != name@,
            decreases self.entries@.len() - i,
        {
            if self.entries[i].0 == owned {
                return Some(i);
            }
            i = i + 1;
        }
        None
    }

    /// Whether `name` currently has a sink registered.
    pub fn has_channel(&self, name: &str) -> (registered: bool)
        ensures
            registered == self@.contains_key(name@),
    {
        proof {
            lemma_assoc_map_contains(self.name_pairs(), name@);
        }
        match self.find_index(name) {
            Some(i) => {
                proof {
                    assert(self.name_pairs()[i as int].0 == name@);
                }
                true
            },
            None => {
                proof {
                    assert(forall|j: int|
                        0 <= j < self.name_pairs().len() ==> #[trigger] self.name_pairs()[j].0
                            != name@);
                }
                false
            },
        }
    }

    /// Registers `sink` as the one active sink for `name`.
    ///
    /// If a sink is already registered there, it first receives its terminal
    /// close notification and is handed back to the caller — its delivered
    /// events untouched — so the previous consumer can release its resources
    /// deterministically; the caller may log the replacement. The new sink
    /// becomes active only after the old one is closed.
    pub fn register(&mut self, name: String, sink: S) -> (replaced: Option<S>)
        requires
            old(self).wf(),
            !sink.is_closed(),
        ensures
            final(self).wf(),
            register_effect(old(self)@, final(self)@, name@, sink, replaced),
    {
        let ghost pairs0 = self.name_pairs();
        proof {
            lemma_assoc_map_contains(pairs0, name@);
        }
        let replaced: Option<S> = match self.find_index(name.as_str()) {
            Some(i) => {
                proof {
                    assert(pairs0[i as int].0 == name@);
                    lemma_assoc_map_index(pairs0, i as int);
                    lemma_map_values_remove(
                        self.entries@,
                        |e: (String, S)| (e.0@, e.1),
                        i as int,
                    );
                    lemma_assoc_map_remove(pairs0, i as int);
                    lemma_distinct_keys_remove(pairs0, i as int);
                }
                let (_, mut prev) = self.entries.remove(i);
                prev.on_close();
                Some(prev)
            },
            None => {
                proof {
                    assert(forall|j: int|
                        0 <= j < pairs0.len() ==> #[trigger] pairs0[j].0 != name@);
                }
                None
            },
        };
        let ghost pairs1 = self.name_pairs();
        proof {
            assert(forall|j: int| 0 <= j < pairs1.len() ==> #[trigger] pairs1[j].0 != name@);
            lemma_map_values_push(self.entries@, |e: (String, S)| (e.0@, e.1), (name, sink));
            lemma_assoc_map_push(pairs1, name@, sink);
            lemma_distinct_keys_push(pairs1, name@, sink);
            assert(assoc_map(pairs1).insert(name@, sink) =~= old(self)@.insert(name@, sink));
        }
        self.entries.push((name, sink));
        replaced
    }

    /// Removes and closes the sink for `name`, handing it back to the
    /// caller; a name with no sink is a no-op.
    pub fn unregister(&mut self, name: &str) -> (removed: Option<S>)
        requires
            old(self).wf(),
        ensures
            final(self).wf(),
            final(self)@ == old(self)@.remove(name@),
            match removed {
                Some(prev) => old(self)@.contains_key(name@) && prev.is_closed()
                    && prev.delivered() == old(self)@[name@].delivered() && prev.outcomes()
                    == old(self)@[name@].outcomes(),
                None => !old(self)@.contains_key(name@),
            },
    {
        let ghost pairs0 = self.name_pairs();
        proof {
            lemma_assoc_map_contains(pairs0, name@);
        }
        match self.find_index(name) {
            Some(i) => {
                proof {
                    assert(pairs0[i as int].0 == name@);
                    lemma_assoc_map_index(pairs0, i as int);
                    lemma_map_values_remove(
                        self.entries@,
                        |e: (String, S)| (e.0@, e.1),
                        i as int,
                    );
                    lemma_assoc_map_remove(pairs0, i as int);
                    lemma_distinct_keys_remove(pairs0, i as int);
                }
                let (_, mut prev) = self.entries.remove(i);
                prev.on_close();
                Some(prev)
            },
            None => {
                proof {
                    assert(forall|j: int|
                        0 <= j < pairs0.len() ==> #[trigger] pairs0[j].0 != name@);
                    assert(old(self)@.remove(name@) =~= old(self)@);
                }
                None
            },
        }
    }

    /// Delivers `event` to the sink registered for `name`, synchronously.
    ///
    /// Fails with `ChannelNotFound` when no sink is registered, and with
    /// `SinkInvocationFailed` when the sink did not accept the event (the
    /// far side may have gone away); the sink stays registered either way,
    /// and the event is recorded as delivered to it. No other channel is
    /// touched.
    pub fn push(&mut self, name: &str, event: String) -> (outcome: Result<(), BridgeError>)
        requires
            old(self).wf(),
        ensures
            final(self).wf(),
            push_effect(old(self)@, final(self)@, name@, event@, outcome),
    {
        let ghost pairs0 = self.name_pairs();
        proof {
            lemma_assoc_map_contains(pairs0, name@);
        }
        match self.find_index(name) {
            Some(i) => {
                proof {
                    assert(pairs0[i as int].0 == name@);
                    lemma_assoc_map_index(pairs0, i as int);
                    lemma_map_values_remove(
                        self.entries@,
                        |e: (String, S)| (e.0@, e.1),
                        i as int,
                    );
                    lemma_assoc_map_remove(pairs0, i as int);
                    lemma_distinct_keys_remove(pairs0, i as int);
                }
                let (entry_name, mut entry_sink) = self.entries.remove(i);
                let accepted = entry_sink.on_event(event);
                let ghost pairs1 = self.name_pairs();
                proof {
                    assert(forall|j: int|
                        0 <= j < pairs1.len() ==> #[trigger] pairs1[j].0 != name@);
                    lemma_map_values_push(
                        self.entries@,
                        |e: (String, S)| (e.0@, e.1),
                        (entry_name, entry_sink),
                    );
                    lemma_assoc_map_push(pairs1, entry_name@, entry_sink);
                    lemma_distinct_keys_push(pairs1, entry_name@, entry_sink);
                    assert(assoc_map(pairs1).insert(name@, entry_sink) =~= old(self)@.insert(
                        name@,
                        entry_sink,
                    ));
                    assert(old(self)@.insert(name@, entry_sink).dom() =~= old(self)@.dom());
                }
                self.entries.push((entry_name, entry_sink));
                if accepted {
                    Ok(())
                } else {
                    Err(BridgeError::SinkInvocationFailed)
                }
            },
            None => {
                proof {
                    assert(forall|j: int|
                        0 <= j < pairs0.len() ==> #[trigger] pairs0[j].0 != name@);
                }
                Err(BridgeError::ChannelNotFound)
            },
        }
    }

    /// A snapshot of the currently registered channel names: every returned
    /// name has a sink, every registered name is returned, and no name is
    /// returned twice.
    pub fn list_channels(&self) -> (names: Vec<String>)
        requires
            self.wf(),
        ensures
            names@.len() == self@.dom().len(),
            forall|i: int|
                #![trigger names.deep_view()[i]]
                0 <= i < names.deep_view().len() ==> self@.contains_key(names.deep_view()[i]),
            forall|k: Seq<char>| self@.contains_key(k) ==> names.deep_view().contains(k),
            names.deep_view().no_duplicates(),
    {
        proof {
            lemma_assoc_map_len(self.name_pairs());
        }
        let mut names: Vec<String> = Vec::new();
        let mut i: usize = 0;
        while i < self.entries.len()
            invariant
                self.wf(),
                i <= self.entries@.len(),
                names.deep_view().len() == i,
                forall|j: int|
                    #![trigger names.deep_view()[j]]
                    0 <= j < i ==> names.deep_view()[j] == self.name_pairs()[j].0,
            decreases self.entries@.len() - i,
        {
            let entry_name: String = self.entries[i].0.clone();
            let ghost before = names.deep_view();
            names.push(entry_name);
            proof {
                assert(names.deep_view() =~= before.push(entry_name@));
            }
            i = i + 1;
        }
        proof {
            assert forall|j: int|
                0 <= j < names.deep_view().len() implies self@.contains_key(
                #[trigger] names.deep_view()[j],
            ) by {
                lemma_assoc_map_index(self.name_pairs(), j);
            }
            assert forall|k: Seq<char>| self@.contains_key(k) implies names.deep_view().contains(
                k,
            ) by {
                lemma_assoc_map_contains(self.name_pairs(), k);
                let j = choose|j: int|
                    0 <= j < self.name_pairs().len() && self.name_pairs()[j].0 == k;
                assert(names.deep_view()[j] == k);
            }
        }
        names
    }

    /// Closes every registered sink and empties the registry: the documented
    /// teardown at process end. The closed sinks — one per registered
    /// channel, with its delivered events exactly as they stood (see
    /// [`close_all_witness`]) — are handed back so the caller can observe or
    /// release them.
    pub fn close_all(&mut self) -> (closed: Vec<S>)
        requires
            old(self).wf(),
        ensures
            final(self).wf(),
            final(self)@ == Map::<Seq<char>, S>::empty(),
            closed@.len() == old(self)@.dom().len(),
            exists|names: Seq<Seq<char>>| close_all_witness(old(self)@, closed@, names),
    {
        proof {
            lemma_assoc_map_len(self.name_pairs());
        }
        let ghost m0 = self@;
        let ghost total = self.entries@.len();
        let mut closed: Vec<S> = Vec::new();
        let ghost mut names: Seq<Seq<char>> = Seq::empty();
        loop
            invariant
                self.wf(),
                names.len() == closed@.len(),
                closed@.len() + self.entries@.len() == total,
                names.no_duplicates(),
                forall|i: int|
                    #![trigger names[i]]
                    0 <= i < names.len() ==> m0.contains_key(names[i]) && closed@[i].is_closed()
                        && closed@[i].delivered() == m0[names[i]].delivered()
                        && closed@[i].outcomes() == m0[names[i]].outcomes()
                        && !self@.contains_key(names[i]),
                forall|k: Seq<char>|
                    #![trigger m0.contains_key(k)]
                    m0.contains_key(k) ==> names.contains(k) || self@.contains_key(k),
                forall|k: Seq<char>|
                    #![trigger self@.contains_key(k)]
                    self@.contains_key(k) ==> m0.contains_key(k) && self@[k] == m0[k],
            ensures
                self.entries@.len() == 0,
                closed@.len() == total,
                close_all_witness(m0, closed@, names),
            decreases self.entries@.len(),
        {
            let ghost pairs0 = self.name_pairs();
            let ghost view0 = self@;
            let ghost names0 = names;
            match self.entries.pop() {
                Some((entry_name, mut sink)) => {
                    proof {
                        assert(pairs0.last() == (entry_name@, sink));
                        lemma_assoc_map_index(pairs0, pairs0.len() - 1);
                        assert(pairs0.drop_last() =~= self.name_pairs());
                        lemma_distinct_keys_remove(pairs0, pairs0.len() - 1);
                        assert(pairs0.remove(pairs0.len() - 1) =~= pairs0.drop_last());
                        lemma_assoc_map_remove(pairs0, pairs0.len() - 1);
                        assert(self@ == view0.remove(entry_name@));
                    }
                    sink.on_close();
                    closed.push(sink);
                    proof {
                        names = names.push(entry_name@);
                        assert forall|a: int, b: int|
                            0 <= a < names.len() && 0 <= b < names.len() && a
                                != b implies names[a] != names[b] by {
                            if a < names0.len() && b < names0.len() {
                                assert(names0[a] == names[a] && names0[b] == names[b]);
                            } else if a < names0.len() {
                                assert(!view0.contains_key(names0[a]));
                            } else {
                                assert(!view0.contains_key(names0[b]));
                            }
                        }
                        assert forall|k: Seq<char>|
                            #[trigger] m0.contains_key(k) implies names.contains(k)
                            || self@.contains_key(k) by {
                            if names0.contains(k) {
                                let i = choose|i: int|
                                    0 <= i < names0.len() && names0[i] == k;
                                assert(names[i] == k);
                            } else if view0.contains_key(k) && k == entry_name@ {
                                assert(names.last() == k);
                            }
                        }
                    }
                },
                None => {
                    break ;
                },
            }
        }
        proof {
            assert(self.name_pairs().len() == 0);
            assert(self@ =~= Map::<Seq<char>, S>::empty());
            assert forall|k: Seq<char>| m0.contains_key(k) implies names.contains(k) by {
                assert(!self@.contains_key(k));
            }
        }
        closed
    }
}

/// Pushes an event into a named global channel: `None` when no sink is
/// registered for `channel`, otherwise whether the sink accepted the event.
pub fn push_global_event<S: EventSink>(
    registry: &mut EventChannelRegistry<S>,
    channel: &str,
    event: String,
) -> (delivered: Option<bool>)
    requires
        old(registry).wf(),
    ensures
        final(registry).wf(),
        match delivered {
            Some(accepted) => push_effect(
                old(registry)@,
                final(registry)@,
                channel@,
                event@,
                if accepted {
                    Ok(())
                } else {
                    Err(BridgeError::SinkInvocationFailed)
                },
            ),
            None => !old(registry)@.contains_key(channel@) && final(registry)@ == old(registry)@,
        },
{
    match registry.push(channel, event) {
        Ok(()) => Some(true),
        Err(BridgeError::SinkInvocationFailed) => Some(false),
        Err(_) => None,
    }
}

/// A snapshot of the names of all registered global event channels; see
/// [`EventChannelRegistry::list_channels`].
pub fn get_global_event_channels<S: EventSink>(registry: &EventChannelRegistry<S>) -> (names: Vec<
    String,
>)
    requires
        registry.wf(),
    ensures
        forall|i: int|
            #![trigger names.deep_view()[i]]
            0 <= i < names.deep_view().len() ==> registry@.contains_key(names.deep_view()[i]),
        forall|k: Seq<char>| registry@.contains_key(k) ==> names.deep_view().contains(k),
        names.deep_view().no_duplicates(),
{
    registry.list_channels()
}

/// Law: when a channel's sink is replaced, the superseded sink receives its
/// close notification before the new sink becomes active — its deliveries
/// end exactly where they stood at replacement — and a push after the
/// replacement reaches the new sink only: the event lands on the new sink,
/// and every other channel's sink is untouched.
pub proof fn lemma_replaced_sink_receives_nothing_more<S: EventSink>(
    m0: Map<Seq<char>, S>,
    m1: Map<Seq<char>, S>,
    m2: Map<Seq<char>, S>,
    name: Seq<char>,
    new_sink: S,
    prev: S,
    event: Seq<char>,
    outcome: Result<(), BridgeError>,
)
    requires
        register_effect(m0, m1, name, new_sink, Some(prev)),
        push_effect(m1, m2, name, event, outcome),
    ensures
        prev.is_closed(),
        prev.delivered() == m0[name].delivered(),
        m2[name].delivered() == new_sink.delivered().push(event),
        forall|k: Seq<char>| #![trigger m2[k]] m1.contains_key(k) && k != name ==> m2[k] == m1[k],
{
}

} // verus!

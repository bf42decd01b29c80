//! Reconnection rounds: the fencing mechanism that retires background work
//! superseded by a reconnect or teardown.
//!
//! Every (re)connect attempt increments a per-session round counter and
//! captures the new value as its token. A background loop checks its token
//! against the session's current round at each natural suspension point and
//! must stop touching session state as soon as the two differ. Because the
//! round only ever grows, a loop that has fallen behind can never become
//! current again.
use vstd::prelude::*;

verus! {

/// A strictly increasing counter scoped to one session.
pub struct RoundCounter {
    value: u64,
}

impl View for RoundCounter {
    type V = u64;

    closed spec fn view(&self) -> u64 {
        self.value
    }
}

impl RoundCounter {
    /// Creates a counter at round zero, a value no connect attempt holds as
    /// its token.
    pub fn new() -> (counter: Self)
        ensures
            counter@ == 0,
    {
        RoundCounter { value: 0 }
    }

    /// Starts a new round and returns it as the attempt's token. The bound
    /// keeps the increment from wrapping; a session would need centuries of
    /// reconnects to reach it.
    pub fn new_round(&mut self) -> (token: u64)
        requires
            old(self)@ < u64::MAX,
        ensures
            final(self)@ == old(self)@ + 1,
            token == final(self)@,
    {
        self.value = self.value + 1;
        self.value
    }

    /// The current round.
    pub fn current(&self) -> (round: u64)
        ensures
            round == self@,
    {
        self.value
    }
}

/// Whether a background loop holding `token` may still perform
/// session-affecting work when the session's counter stands at `current`.
pub open spec fn spec_round_guard(current: u64, token: u64) -> bool {
    token == current
}

/// The cooperative-cancellation check a background loop runs at each
/// iteration: its captured token still matches the session's current round.
pub fn round_guard(current: u64, token: u64) -> (may_act: bool)
    ensures
        may_act == spec_round_guard(current, token),
{
    token == current
}

/// Law: a token older than the session's current round never passes the
/// guard, and since the round only ever grows, it never passes again.
pub proof fn lemma_stale_token_stays_stale(earlier: u64, later: u64, token: u64)
    requires
        token < earlier,
        earlier <= later,
    ensures
        !spec_round_guard(earlier, token),
        !spec_round_guard(later, token),
{
}

} // verus!

//! The resource laws the channel operations obey, proved once and for
//! all. Power-sequencing atomicity and idempotent pending retry are
//! stated directly on [`crate::Modem::change_state`] and the connect
//! operations; the two laws here relate whole collections of channels
//! and transitions.

use vstd::prelude::*;

use crate::driver::{DriverCall, DriverReply};
use crate::error::Error;
use crate::{power_steps, run_steps, ModemState, SocketState};

verus! {

/// How many references a channel in this state holds on its subsystem:
/// one as soon as it left `Closed`, none before and after.
pub open spec fn counted(s: SocketState) -> int {
    if s is Closed {
        0
    } else {
        1
    }
}

/// The number of channels in `ss` that hold a reference.
pub open spec fn open_channels(ss: Seq<SocketState>) -> int
    decreases ss.len(),
{
    if ss.len() == 0 {
        0
    } else {
        counted(ss[0]) + open_channels(ss.drop_first())
    }
}

/// Reference-count conservation. Every channel operation's contract
/// changes its subsystem's count by exactly `counted` of the channel's
/// new state minus `counted` of its old one: a connect that enters the
/// pending state adds one, a retry while pending or a failed request
/// adds nothing, and a close of a counted channel takes one away. This
/// lemma states what follows for any collection of channels: one call
/// moving channel `i` to state `s2` takes a count that equals the number
/// of non-closed channels to the value that again equals it. However
/// connect and close calls of mixed kinds are interleaved, the count
/// stays the number of successfully opened and not yet closed channels,
/// independent of the order.
pub proof fn lemma_refcount_conservation(ss: Seq<SocketState>, i: int, s2: SocketState, c: int)
    requires
        0 <= i < ss.len(),
        c == open_channels(ss),
    ensures
        open_channels(ss.update(i, s2)) == c + counted(s2) - counted(ss[i]),
    decreases ss.len(),
{
    if i == 0 {
        assert(ss.update(0, s2).drop_first() =~= ss.drop_first());
    } else {
        lemma_refcount_conservation(ss.drop_first(), i - 1, s2, open_channels(ss.drop_first()));
        assert(ss.update(i, s2).drop_first() =~= ss.drop_first().update(i - 1, s2));
    }
}

/// No duplicate power commands: a request that changes neither
/// subsystem count's value issues no command at all, and succeeds
/// whatever replies the driver holds ready.
pub proof fn lemma_no_duplicate_power_commands(
    s1: ModemState,
    s2: ModemState,
    script: Seq<DriverReply>,
)
    requires
        s1.active_lte_sockets == s2.active_lte_sockets,
        s1.active_gnss_sockets == s2.active_gnss_sockets,
    ensures
        power_steps(s1, s2) == Seq::<DriverCall>::empty(),
        run_steps(power_steps(s1, s2), script) == (Ok::<(), Error>(()), 0int, script),
{
    assert(power_steps(s1, s2) =~= Seq::<DriverCall>::empty());
}

} // verus!

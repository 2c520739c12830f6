//! What joining market channels guarantees.
use crate::feed::{Channels, create_channel, join_channel};
use vstd::prelude::*;

verus! {

/// Whoever joins an existing channel receives what is then sent to it.
pub proof fn law_join_receives(c: Channels, m: u128, x: u64)
    requires
        c.contains_key(m),
    ensures
        join_channel(c, m, x).contains_key(m),
        join_channel(c, m, x)[m].contains(x),
{
    let s = c[m].push(x);
    assert(s[s.len() - 1] == x);
}

/// Joining a channel takes no one out of any channel: a subscriber keeps
/// receiving from every channel it is in, whichever channel anyone joins
/// next, and the channels other than the one joined are untouched.
pub proof fn law_join_keeps_subscriptions(c: Channels, m: u128, x: u64, k: u128, y: u64)
    requires
        c.contains_key(k),
        c[k].contains(y),
    ensures
        join_channel(c, m, x).contains_key(k),
        join_channel(c, m, x)[k].contains(y),
        k != m ==> join_channel(c, m, x)[k] == c[k],
{
    if k == m {
        let i = choose|i: int| 0 <= i < c[k].len() && c[k][i] == y;
        assert(c[k].push(x)[i] == y);
    }
}

/// Creating a channel twice is creating it once, and never empties an
/// existing channel.
pub proof fn law_create_idempotent(c: Channels, m: u128)
    ensures
        create_channel(create_channel(c, m), m) == create_channel(c, m),
        c.contains_key(m) ==> create_channel(c, m) == c,
        create_channel(c, m).contains_key(m),
{
}

} // verus!

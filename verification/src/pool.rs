//! Which pending connections the server keeps after polling them.
//!
//! The server polls its pending connections in order and stops at the first
//! one whose data channel is ready. That one is handed out and dropped from
//! the pool, and so is every connection that failed on the way. Only when
//! nothing was dropped are the connections that have waited too long given
//! up.
use vstd::prelude::*;

verus! {

/// How long, in milliseconds, a pending connection may wait for its data
/// channel before the server gives it up.
pub const PENDING_LIMIT_MILLIS: u128 = 10_000;

/// What polling a pending connection for its data channel gave.
#[derive(Debug, Clone, Copy, PartialEq, Eq, Structural)]
pub enum PollStatus {
    /// The data channel is open and was handed out.
    Ready,
    /// Not yet.
    Pending,
    /// The connection failed.
    Failed,
}

/// Whether `polled` is what a scan that stops at the first ready connection
/// can give: no connection before the last one polled is ready.
pub open spec fn scan_ok(polled: Seq<PollStatus>) -> bool {
    forall|i: int| 0 <= i < polled.len() - 1 ==> !(#[trigger] polled[i] is Ready)
}

/// Whether polling dropped any connection: one was ready or failed.
pub open spec fn dropped_any(polled: Seq<PollStatus>) -> bool {
    exists|i: int| 0 <= i < polled.len() && !(#[trigger] polled[i] is Pending)
}

/// Whether the connection at `i` stays in the pool, given the statuses of
/// the connections polled (the first ones, in order) and which connections
/// have waited longer than the limit.
pub open spec fn kept(polled: Seq<PollStatus>, expired: Seq<bool>, i: int) -> bool {
    if i < polled.len() && !(polled[i] is Pending) {
        false
    } else if dropped_any(polled) {
        true
    } else {
        !expired[i]
    }
}

/// The members of `s` whose flag in `keep` is set, in order.
pub open spec fn selected<T>(s: Seq<T>, keep: Seq<bool>) -> Seq<T>
    decreases s.len(),
{
    if s.len() == 0 {
        Seq::<T>::empty()
    } else {
        let rest = selected(s.drop_last(), keep.take(s.len() - 1));
        if keep[s.len() - 1] {
            rest.push(s.last())
        } else {
            rest
        }
    }
}

/// Which of the pending connections stay in the pool: one flag for each
/// connection, set when it stays.
pub fn plan_keep(polled: &Vec<PollStatus>, expired: &Vec<bool>) -> (keep: Vec<bool>)
    requires
        polled.len() <= expired.len(),
    ensures
        keep.len() == expired.len(),
        forall|i: int| 0 <= i < keep.len() ==> keep[i] == kept(polled@, expired@, i),
{
    let mut any: bool = false;
    let mut j: usize = 0;
    while j < polled.len()
        invariant
            j <= polled.len(),
            any == exists|k: int| 0 <= k < j && !(#[trigger] polled@[k] is Pending),
        decreases polled.len() - j,
    {
        if polled[j] != PollStatus::Pending {
            any = true;
        }
        j = j + 1;
    }
    assert(any == dropped_any(polled@));
    let mut keep: Vec<bool> = Vec::new();
    let mut i: usize = 0;
    while i < expired.len()
        invariant
            i <= expired.len(),
            polled.len() <= expired.len(),
            any == dropped_any(polled@),
            keep.len() == i,
            forall|k: int| 0 <= k < i ==> keep[k] == kept(polled@, expired@, k),
        decreases expired.len() - i,
    {
        let stays = if i < polled.len() && polled[i] != PollStatus::Pending {
            false
        } else if any {
            true
        } else {
            !expired[i]
        };
        keep.push(stays);
        i = i + 1;
    }
    keep
}

/// Keeps the members of `items` whose flag in `keep` is set, in order.
pub fn retain_marked<T>(items: Vec<T>, keep: &Vec<bool>) -> (kept_items: Vec<T>)
    requires
        items.len() == keep.len(),
    ensures
        kept_items@ == selected(items@, keep@),
        kept_items.len() == marked_count(keep@),
        forall|i: int|
            0 <= i < items.len() && #[trigger] keep@[i] ==> marked_count(keep@.take(i)) < kept_items.len()
                && kept_items@[marked_count(keep@.take(i)) as int] == items@[i],
{
    let ghost all = items@;
    let mut items = items;
    let mut reversed: Vec<T> = Vec::new();
    proof {
        assert(all.take(all.len() as int) == all);
        assert(keep@.take(keep@.len() as int) == keep@);
        assert(reversed@.reverse() == Seq::<T>::empty());
        assert(selected(all, keep@) + Seq::<T>::empty() == selected(all, keep@));
    }
    while items.len() > 0
        invariant
            items@ == all.take(items.len() as int),
            items.len() <= all.len(),
            all.len() == keep.len(),
            selected(all, keep@) == selected(items@, keep@.take(items.len() as int)) + reversed@.reverse(),
        decreases items.len(),
    {
        let n = items.len();
        let ghost before = items@;
        let ghost rev_before = reversed@;
        let item = items.pop().unwrap();
        proof {
            assert(before.drop_last() == items@);
            assert(keep@.take(n as int).take(n - 1) == keep@.take(n - 1));
            assert(keep@.take(n as int)[n - 1] == keep@[n - 1]);
        }
        if keep[n - 1] {
            reversed.push(item);
            proof {
                assert(reversed@.reverse() == seq![item] + rev_before.reverse());
                assert(selected(before, keep@.take(n as int)) == selected(items@, keep@.take(n - 1)).push(item));
                assert(selected(items@, keep@.take(n - 1)).push(item) + rev_before.reverse()
                    == selected(items@, keep@.take(n - 1)) + reversed@.reverse());
            }
        }
    }
    proof {
        assert(selected(items@, keep@.take(0)) == Seq::<T>::empty());
        assert(Seq::<T>::empty() + reversed@.reverse() == reversed@.reverse());
    }
    let mut kept_items: Vec<T> = Vec::new();
    let ghost target = reversed@.reverse();
    while reversed.len() > 0
        invariant
            kept_items@ + reversed@.reverse() == target,
        decreases reversed.len(),
    {
        let ghost rev_before = reversed@;
        let item = reversed.pop().unwrap();
        kept_items.push(item);
        proof {
            assert(rev_before.reverse() == seq![item] + reversed@.reverse());
        }
    }
    proof {
        assert(kept_items@ + Seq::<T>::empty() == kept_items@);
        lemma_selected_keeps_marked(all, keep@);
    }
    kept_items
}

/// A connection leaves the pool only for a cause: it was handed out, it
/// failed, or it waited past the limit; and it leaves for waiting only when
/// polling dropped no connection.
pub proof fn lemma_dropped_for_cause(polled: Seq<PollStatus>, expired: Seq<bool>, i: int)
    requires
        polled.len() <= expired.len(),
        0 <= i < expired.len(),
        !kept(polled, expired, i),
    ensures
        (i < polled.len() && !(polled[i] is Pending)) || (expired[i] && !dropped_any(polled)),
{
}

/// When polling finds a ready connection, that connection and the ones that
/// failed before it leave the pool, and every other connection stays,
/// however long it has waited.
pub proof fn lemma_ready_handed_out(polled: Seq<PollStatus>, expired: Seq<bool>)
    requires
        polled.len() <= expired.len(),
        polled.len() > 0,
        polled.last() is Ready,
    ensures
        !kept(polled, expired, polled.len() - 1),
        forall|i: int|
            0 <= i < expired.len() ==> (kept(polled, expired, i) <==> (i >= polled.len()
                || #[trigger] polled[i] is Pending)),
{
    assert(!(polled[polled.len() - 1] is Pending));
    assert(dropped_any(polled));
}

/// When every polled connection is still pending, exactly the connections
/// that waited past the limit leave the pool.
pub proof fn lemma_all_pending_expire(polled: Seq<PollStatus>, expired: Seq<bool>)
    requires
        polled.len() <= expired.len(),
        forall|i: int| 0 <= i < polled.len() ==> #[trigger] polled[i] is Pending,
    ensures
        forall|i: int| 0 <= i < expired.len() ==> (kept(polled, expired, i) <==> !#[trigger] expired[i]),
{
}

/// Selecting never lengthens a sequence, and keeping every member keeps it
/// whole.
pub proof fn lemma_selected_bounds<T>(s: Seq<T>, keep: Seq<bool>)
    requires
        s.len() == keep.len(),
    ensures
        selected(s, keep).len() <= s.len(),
        (forall|i: int| 0 <= i < keep.len() ==> #[trigger] keep[i]) ==> selected(s, keep) == s,
    decreases s.len(),
{
    if s.len() > 0 {
        lemma_selected_bounds(s.drop_last(), keep.take(s.len() - 1));
        if forall|i: int| 0 <= i < keep.len() ==> #[trigger] keep[i] {
            assert forall|i: int| 0 <= i < keep.take(s.len() - 1).len() implies #[trigger] keep.take(
                s.len() - 1,
            )[i] by {
                assert(keep.take(s.len() - 1)[i] == keep[i]);
            }
            assert(s.drop_last().push(s.last()) == s);
        }
    }
}

/// How many flags of `keep` are set.
pub open spec fn marked_count(keep: Seq<bool>) -> nat
    decreases keep.len(),
{
    if keep.len() == 0 {
        0
    } else {
        marked_count(keep.drop_last()) + if keep.last() {
            1nat
        } else {
            0nat
        }
    }
}

/// Keeping the marked members keeps each of them, in order, and nothing
/// else: there are as many as there are flags set, and the member at `i`,
/// when marked, comes at the place given by the number of flags set before
/// it.
pub proof fn lemma_selected_keeps_marked<T>(s: Seq<T>, keep: Seq<bool>)
    requires
        s.len() == keep.len(),
    ensures
        selected(s, keep).len() == marked_count(keep),
        forall|i: int|
            0 <= i < s.len() && #[trigger] keep[i] ==> marked_count(keep.take(i)) < selected(s, keep).len()
                && selected(s, keep)[marked_count(keep.take(i)) as int] == s[i],
    decreases s.len(),
{
    if s.len() > 0 {
        let n = s.len() - 1;
        let front = keep.take(n);
        lemma_selected_keeps_marked(s.drop_last(), front);
        assert(keep.drop_last() =~= front);
        let rest = selected(s.drop_last(), front);
        assert forall|i: int|
            0 <= i < s.len() && #[trigger] keep[i] implies marked_count(keep.take(i)) < selected(s, keep).len()
                && selected(s, keep)[marked_count(keep.take(i)) as int] == s[i] by {
            if i < n {
                assert(front[i] == keep[i]);
                assert(front.take(i) =~= keep.take(i));
                assert(s.drop_last()[i] == s[i]);
            } else {
                assert(keep.take(n) =~= front);
                assert(selected(s, keep) == rest.push(s.last()));
            }
        }
    }
}

/// The pool law: after polling, the pool holds exactly the connections
/// that stay ([`kept`]), in order; in particular a connection still
/// pending stays whenever another was handed out or failed.
pub proof fn lemma_pool_keeps_pending<T>(pool: Seq<T>, polled: Seq<PollStatus>, expired: Seq<bool>, i: int)
    requires
        polled.len() <= expired.len(),
        pool.len() == expired.len(),
        0 <= i < pool.len(),
        dropped_any(polled),
        i >= polled.len() || polled[i] is Pending,
    ensures
        ({
            let keep = Seq::new(pool.len(), |j: int| kept(polled, expired, j));
            let after = selected(pool, keep);
            &&& marked_count(keep.take(i)) < after.len()
            &&& after[marked_count(keep.take(i)) as int] == pool[i]
        }),
{
    let keep = Seq::new(pool.len(), |j: int| kept(polled, expired, j));
    lemma_selected_keeps_marked(pool, keep);
    assert(keep[i]);
}

} // verus!

//! The server's pool of pending connections: each connection request that
//! was answered leaves a peer whose data channel is yet to open.
use crate::peer::{DataChannel, Signaler};
use crate::pool::{dropped_any, lemma_pool_keeps_pending, marked_count, lemma_all_pending_expire, lemma_ready_handed_out, kept, plan_keep, retain_marked, scan_ok, selected, PollStatus, PENDING_LIMIT_MILLIS};
use crate::runtime::{elapsed, millis, now, try_receive};
use vstd::prelude::*;

verus! {

/// An answered connection request: its peer, and when it was answered.
pub struct Connection {
    signaler: Signaler,
    creation: std::time::Instant,
    polls: Ghost<Seq<PollStatus>>,
    handed: Ghost<Option<DataChannel>>,
    ages: Ghost<Seq<u128>>,
}

impl Connection {
    /// A connection whose request is answered now.
    pub fn new(signaler: Signaler) -> (c: Connection)
        ensures
            c.signaler() == signaler,
            c.polls() == Seq::<PollStatus>::empty(),
            c.handed() is None,
            c.ages() == Seq::<u128>::empty(),
    {
        Connection {
            signaler,
            creation: now(),
            polls: Ghost(Seq::empty()),
            handed: Ghost(None),
            ages: Ghost(Seq::empty()),
        }
    }

    /// The connection's peer.
    pub closed spec fn signaler(&self) -> Signaler {
        self.signaler
    }

    /// When the connection's request was answered.
    pub closed spec fn creation(&self) -> std::time::Instant {
        self.creation
    }

    /// What each poll of this connection said, oldest first.
    pub closed spec fn polls(&self) -> Seq<PollStatus> {
        self.polls@
    }

    /// The data channel that the last poll handed out, if it handed one out.
    pub closed spec fn handed(&self) -> Option<DataChannel> {
        self.handed@
    }

    /// Each age, in milliseconds, that was measured of this connection,
    /// oldest first.
    pub closed spec fn ages(&self) -> Seq<u128> {
        self.ages@
    }

    /// Polls the connection's peer for its data channel: it says ready and
    /// hands out the channel when the channel came, pending when nothing came,
    /// and failed when the peer reported an error. What it said is recorded.
    pub fn poll(&mut self) -> (r: (PollStatus, Option<DataChannel>))
        ensures
            polled_from(*old(self), *final(self)),
            final(self).polls().last() == r.0,
            final(self).handed() == r.1,
    {
        let result = self.signaler.data_channel();
        let r = match result {
            Ok(Some(channel)) => (PollStatus::Ready, Some(channel)),
            Ok(None) => (PollStatus::Pending, None),
            Err(_) => (PollStatus::Failed, None),
        };
        proof {
            let before = self.polls@;
            self.polls@ = self.polls@.push(r.0);
            self.handed@ = r.1;
            assert(self.polls@.drop_last() == before);
        }
        r
    }

    /// Measures how long the connection has waited, records it, and says
    /// whether it waited ten seconds or more.
    pub fn measure_age(&mut self) -> (expired: bool)
        ensures
            measured_from(*old(self), *final(self)),
            expired == (final(self).ages().last() >= PENDING_LIMIT_MILLIS),
    {
        let waited = elapsed(&self.creation);
        let age = millis(&waited);
        proof {
            let before = self.ages@;
            self.ages@ = self.ages@.push(age);
            assert(self.ages@.drop_last() == before);
        }
        age >= PENDING_LIMIT_MILLIS
    }
}

/// Whether `after` is `before` polled once: the same connection and peer,
/// one more poll recorded, which is what the peer's check for its data
/// channel gave, the channel handed out exactly when that poll said ready,
/// and the peer's negotiation ended exactly then.
pub open spec fn polled_from(before: Connection, after: Connection) -> bool {
    &&& after.creation() == before.creation()
    &&& after.ages() == before.ages()
    &&& after.polls().len() == before.polls().len() + 1
    &&& after.polls().drop_last() == before.polls()
    &&& after.signaler().error_slot() == before.signaler().error_slot()
    &&& after.signaler().forwarded() == before.signaler().forwarded()
    &&& after.signaler().emitted() == before.signaler().emitted()
    &&& after.signaler().checks() == before.signaler().checks().push(after.polls().last())
    &&& (after.polls().last() is Ready) == (after.handed() is Some)
    &&& (after.polls().last() is Ready ==> before.signaler().is_negotiating()
        && !after.signaler().is_negotiating())
    &&& (!(after.polls().last() is Ready) ==> after.signaler().is_negotiating()
        == before.signaler().is_negotiating())
    &&& (!before.signaler().is_negotiating() ==> after.polls().last() is Pending)
}

/// Whether `after` is `before` with one more age measured, and nothing else
/// changed.
pub open spec fn measured_from(before: Connection, after: Connection) -> bool {
    &&& after.signaler() == before.signaler()
    &&& after.creation() == before.creation()
    &&& after.polls() == before.polls()
    &&& after.handed() == before.handed()
    &&& after.ages().len() == before.ages().len() + 1
    &&& after.ages().drop_last() == before.ages()
}

/// A server that answers connection requests and hands out the data
/// channels that open.
pub struct Server {
    connection_receiver: std::sync::mpsc::Receiver<Connection>,
    connections: Vec<Connection>,
}

/// The flags of [`kept`] for `count` connections.
pub open spec fn keep_flags(polled: Seq<PollStatus>, expired: Seq<bool>, count: nat) -> Seq<bool> {
    Seq::new(count, |i: int| kept(polled, expired, i))
}

/// What the first `n` of `connections` said when they were last polled.
pub open spec fn last_statuses(connections: Seq<Connection>, n: int) -> Seq<PollStatus> {
    Seq::new(n as nat, |i: int| connections[i].polls().last())
}

/// Whether each of `connections` was last measured at ten seconds or more.
pub open spec fn expired_flags(connections: Seq<Connection>) -> Seq<bool> {
    Seq::new(connections.len(), |i: int| connections[i].ages().last() >= PENDING_LIMIT_MILLIS)
}

/// Whether a call of [`Server::accept`] that started with the pending
/// connections `before`, ended with `after` and returned `r` is explained
/// by the connections that `arrived` meanwhile, the connections as they
/// were after the first `n` of them were polled (`polled`), and as they were
/// after each had its age measured (`measured`):
/// - the first `n` connections were polled once each, in order, the others
///   not at all, and polling stopped early only at a ready connection;
/// - `r` is the channel that the last poll handed out when it said ready,
///   and nothing otherwise;
/// - the connections that stay are exactly those that [`kept`] keeps, given
///   what their polls said and which were measured at ten seconds or more,
///   each as it is now, in their order.
pub open spec fn accept_outcome(
    before: Seq<Connection>,
    after: Seq<Connection>,
    r: Option<DataChannel>,
    arrived: Seq<Connection>,
    polled: Seq<Connection>,
    measured: Seq<Connection>,
    n: int,
) -> bool {
    let all = before + arrived;
    let statuses = last_statuses(measured, n);
    &&& polled.len() == all.len()
    &&& measured.len() == all.len()
    &&& 0 <= n <= all.len()
    &&& (forall|i: int| 0 <= i < n ==> polled_from(all[i], #[trigger] polled[i]))
    &&& (forall|i: int| n <= i < all.len() ==> #[trigger] polled[i] == all[i])
    &&& (forall|i: int| 0 <= i < all.len() ==> measured_from(polled[i], #[trigger] measured[i]))
    &&& scan_ok(statuses)
    &&& (n == all.len() || (n > 0 && statuses.last() is Ready))
    &&& r == (if n > 0 && statuses.last() is Ready {
        polled[n - 1].handed()
    } else {
        None::<DataChannel>
    })
    &&& after == selected(measured, keep_flags(statuses, expired_flags(measured), all.len()))
}

impl Server {
    /// A server whose answered requests arrive on `connection_receiver`.
    pub fn from_receiver(connection_receiver: std::sync::mpsc::Receiver<Connection>) -> (s: Server)
        ensures
            s.pending() == Seq::<Connection>::empty(),
            s.arrivals() == connection_receiver,
    {
        Server { connection_receiver, connections: Vec::new() }
    }

    /// The receiver on which answered requests arrive.
    pub closed spec fn arrivals(&self) -> std::sync::mpsc::Receiver<Connection> {
        self.connection_receiver
    }

    /// The connections waiting for their data channel, oldest first.
    pub closed spec fn pending(&self) -> Seq<Connection> {
        self.connections@
    }

    /// Takes in the connections answered since the last call, then polls the
    /// pending ones, oldest first, until one has its data channel open. That
    /// channel is returned, and that connection leaves the pool, as do the
    /// connections that failed on the way. If no connection left, those that
    /// have waited for ten seconds or more are given up.
    pub fn accept(&mut self) -> (r: Option<DataChannel>)
        ensures
            final(self).arrivals() == old(self).arrivals(),
            exists|arrived: Seq<Connection>, polled: Seq<Connection>, measured: Seq<Connection>, n: int|
                #[trigger] accept_outcome(
                    old(self).pending(),
                    final(self).pending(),
                    r,
                    arrived,
                    polled,
                    measured,
                    n,
                ),
    {
        let ghost start = self.connections@;
        // Taking in stops when nothing more has arrived (a vector can hold no
        // more than `usize::MAX` connections in any case).
        while self.connections.len() < usize::MAX
            invariant
                start.is_prefix_of(self.connections@),
                self.connection_receiver == old(self).connection_receiver,
            decreases usize::MAX - self.connections.len(),
        {
            match try_receive(&self.connection_receiver) {
                Some(connection) => {
                    self.connections.push(connection);
                },
                None => {
                    break;
                },
            }
        }
        let ghost all = self.connections@;
        let ghost arrived = all.skip(start.len() as int);
        proof {
            assert(start + arrived == all);
        }
        let mut statuses: Vec<PollStatus> = Vec::new();
        let mut found: Option<DataChannel> = None;
        let mut i: usize = 0;
        while i < self.connections.len()
            invariant_except_break
                forall|k: int| 0 <= k < i ==> !(#[trigger] statuses@[k] is Ready),
                found is None,
            invariant
                self.connection_receiver == old(self).connection_receiver,
                i <= self.connections.len(),
                self.connections.len() == all.len(),
                statuses.len() == i,
                forall|k: int| 0 <= k < i ==> polled_from(all[k], #[trigger] self.connections@[k]),
                forall|k: int| i <= k < all.len() ==> #[trigger] self.connections@[k] == all[k],
                forall|k: int| 0 <= k < i ==> #[trigger] statuses@[k] == self.connections@[k].polls().last(),
            ensures
                statuses.len() <= all.len(),
                scan_ok(statuses@),
                statuses.len() == all.len() || (statuses.len() > 0 && statuses@.last() is Ready),
                found == (if statuses.len() > 0 && statuses@.last() is Ready {
                    self.connections@[statuses.len() - 1].handed()
                } else {
                    None::<DataChannel>
                }),
            decreases self.connections.len() - i,
        {
            let ghost before = self.connections@;
            let (status, channel) = self.connections[i].poll();
            proof {
                assert forall|k: int| 0 <= k < all.len() && k != i implies #[trigger] self.connections@[k]
                    == before[k] by {}
            }
            statuses.push(status);
            found = channel;
            i = i + 1;
            if status == PollStatus::Ready {
                break;
            }
        }
        let ghost polled = self.connections@;
        let ghost n = statuses.len() as int;
        let mut expired: Vec<bool> = Vec::new();
        let mut j: usize = 0;
        while j < self.connections.len()
            invariant
                self.connection_receiver == old(self).connection_receiver,
                j <= self.connections.len(),
                self.connections.len() == all.len(),
                polled.len() == all.len(),
                expired.len() == j,
                forall|k: int| 0 <= k < j ==> measured_from(polled[k], #[trigger] self.connections@[k]),
                forall|k: int| j <= k < all.len() ==> #[trigger] self.connections@[k] == polled[k],
                forall|k: int| 0 <= k < j ==> #[trigger] expired@[k] == (self.connections@[k].ages().last()
                    >= PENDING_LIMIT_MILLIS),
            decreases self.connections.len() - j,
        {
            let ghost before = self.connections@;
            let e = self.connections[j].measure_age();
            proof {
                assert forall|k: int| 0 <= k < all.len() && k != j implies #[trigger] self.connections@[k]
                    == before[k] by {}
            }
            expired.push(e);
            j = j + 1;
        }
        let ghost measured = self.connections@;
        proof {
            assert forall|k: int| 0 <= k < n implies #[trigger] statuses@[k] == last_statuses(
                measured,
                n,
            )[k] by {
                assert(measured_from(polled[k], measured[k]));
            }
            assert(statuses@ =~= last_statuses(measured, n));
            assert(expired@ =~= expired_flags(measured));
        }
        let keep = plan_keep(&statuses, &expired);
        let mut connections: Vec<Connection> = Vec::new();
        std::mem::swap(&mut connections, &mut self.connections);
        self.connections = retain_marked(connections, &keep);
        proof {
            assert(keep@ =~= keep_flags(statuses@, expired@, all.len()));
            assert(old(self).pending() == start);
            assert(self.pending() == self.connections@);
            assert(accept_outcome(
                old(self).pending(),
                self.pending(),
                found,
                arrived,
                polled,
                measured,
                n,
            ));
        }
        found
    }
}

/// When `accept` hands out a channel, it is the channel of the last
/// connection polled, whose peer has stopped negotiating (so it hands out no
/// other); that connection and the connections that failed before it leave,
/// and every other connection stays, in order, however long it waited.
pub proof fn lemma_accept_hands_out_ready(
    before: Seq<Connection>,
    after: Seq<Connection>,
    r: Option<DataChannel>,
    arrived: Seq<Connection>,
    polled: Seq<Connection>,
    measured: Seq<Connection>,
    n: int,
)
    requires
        accept_outcome(before, after, r, arrived, polled, measured, n),
        r is Some,
    ensures
        n > 0,
        r == polled[n - 1].handed(),
        !polled[n - 1].signaler().is_negotiating(),
        after == selected(
            measured,
            Seq::new(
                measured.len(),
                |i: int| i >= n || last_statuses(measured, n)[i] is Pending,
            ),
        ),
{
    let all = before + arrived;
    let statuses = last_statuses(measured, n);
    lemma_ready_handed_out(statuses, expired_flags(measured));
    assert(polled_from(all[n - 1], polled[n - 1]));
    assert(measured_from(polled[n - 1], measured[n - 1]));
    assert(keep_flags(statuses, expired_flags(measured), all.len()) =~= Seq::new(
        measured.len(),
        |i: int| i >= n || last_statuses(measured, n)[i] is Pending,
    ));
}

/// When every pending connection was polled and none was ready or failed,
/// `accept` hands out nothing, and exactly the connections measured at ten
/// seconds or more leave; the others stay, in order.
pub proof fn lemma_accept_all_pending(
    before: Seq<Connection>,
    after: Seq<Connection>,
    r: Option<DataChannel>,
    arrived: Seq<Connection>,
    polled: Seq<Connection>,
    measured: Seq<Connection>,
    n: int,
)
    requires
        accept_outcome(before, after, r, arrived, polled, measured, n),
        forall|i: int| 0 <= i < n ==> #[trigger] last_statuses(measured, n)[i] is Pending,
    ensures
        r is None,
        n == measured.len(),
        after == selected(
            measured,
            Seq::new(measured.len(), |i: int| measured[i].ages().last() < PENDING_LIMIT_MILLIS),
        ),
{
    let all = before + arrived;
    let statuses = last_statuses(measured, n);
    if n > 0 {
        assert(statuses[n - 1] is Pending);
    }
    lemma_all_pending_expire(statuses, expired_flags(measured));
    assert(keep_flags(statuses, expired_flags(measured), all.len()) =~= Seq::new(
        measured.len(),
        |i: int| measured[i].ages().last() < PENDING_LIMIT_MILLIS,
    ));
}

/// Whether at most one of `polls` said ready.
pub open spec fn ready_at_most_once(polls: Seq<PollStatus>) -> bool {
    forall|a: int, b: int|
        0 <= a < polls.len() && 0 <= b < polls.len() && #[trigger] polls[a] is Ready
            && #[trigger] polls[b] is Ready ==> a == b
}

/// Whether one of `polls` said ready.
pub open spec fn ever_ready(polls: Seq<PollStatus>) -> bool {
    exists|a: int| 0 <= a < polls.len() && #[trigger] polls[a] is Ready
}

/// Whether `after` follows `before` in the life of a connection: by a poll,
/// by a measure of its age, or unchanged.
pub open spec fn follows(before: Connection, after: Connection) -> bool {
    polled_from(before, after) || measured_from(before, after) || after == before
}

/// Whether `history` is the life of one connection from its start: it
/// starts unpolled, and each state follows the one before it.
pub open spec fn connection_life(history: Seq<Connection>) -> bool {
    &&& history.len() > 0
    &&& history[0].polls() == Seq::<PollStatus>::empty()
    &&& forall|i: int| 0 <= i < history.len() - 1 ==> #[trigger] follows(history[i], history[i + 1])
}

/// What holds at each point of a connection's life: it said ready at most
/// once, and once it did, its peer no longer negotiates.
proof fn lemma_life_keeps(history: Seq<Connection>, k: int)
    requires
        connection_life(history),
        0 <= k < history.len(),
    ensures
        ready_at_most_once(history[k].polls()),
        ever_ready(history[k].polls()) ==> !history[k].signaler().is_negotiating(),
    decreases k,
{
    if k > 0 {
        lemma_life_keeps(history, k - 1);
        let i = k - 1;
        assert(follows(history[i], history[i + 1]));
        assert(i + 1 == k);
        let before = history[i];
        let after = history[k];
        if polled_from(before, after) {
            let last = after.polls().last();
            assert(after.polls() =~= before.polls().push(last));
            let n = before.polls().len() as int;
            if last is Ready {
                assert(!ever_ready(before.polls()));
                assert forall|a: int, b: int|
                    0 <= a < after.polls().len() && 0 <= b < after.polls().len()
                        && #[trigger] after.polls()[a] is Ready && #[trigger] after.polls()[b] is Ready
                    implies a == b by {
                    if a < n {
                        assert(before.polls()[a] is Ready);
                    }
                    if b < n {
                        assert(before.polls()[b] is Ready);
                    }
                }
            } else {
                assert forall|a: int, b: int|
                    0 <= a < after.polls().len() && 0 <= b < after.polls().len()
                        && #[trigger] after.polls()[a] is Ready && #[trigger] after.polls()[b] is Ready
                    implies a == b by {
                    assert(before.polls()[a] is Ready);
                    assert(before.polls()[b] is Ready);
                }
                if ever_ready(after.polls()) {
                    let a = choose|a: int| 0 <= a < after.polls().len() && #[trigger] after.polls()[a] is Ready;
                    assert(before.polls()[a] is Ready);
                }
            }
        }
    }
}

/// A connection hands out at most one data channel over its life: of all
/// its polls, at most one said ready (and only a poll that says ready hands
/// out a channel), and once one did, its peer no longer negotiates, so every
/// later poll says pending.
pub proof fn lemma_one_channel_per_connection(history: Seq<Connection>)
    requires
        connection_life(history),
    ensures
        ready_at_most_once(history.last().polls()),
        ever_ready(history.last().polls()) ==> !history.last().signaler().is_negotiating(),
{
    lemma_life_keeps(history, history.len() - 1);
}

/// A call of `accept` carries each pending connection one or two steps on
/// in its life (a poll, if it was reached, then a measure of its age), and
/// it hands out a channel only on a poll that said ready; with
/// [`lemma_one_channel_per_connection`], no connection has its channel
/// handed out by two calls.
pub proof fn lemma_accept_follows(
    before: Seq<Connection>,
    after: Seq<Connection>,
    r: Option<DataChannel>,
    arrived: Seq<Connection>,
    polled: Seq<Connection>,
    measured: Seq<Connection>,
    n: int,
)
    requires
        accept_outcome(before, after, r, arrived, polled, measured, n),
    ensures
        forall|i: int|
            0 <= i < measured.len() ==> follows((before + arrived)[i], #[trigger] polled[i])
                && follows(polled[i], measured[i]),
        r is Some ==> n > 0 && polled[n - 1].polls().last() is Ready && r == polled[n - 1].handed(),
{
    let all = before + arrived;
    assert forall|i: int| 0 <= i < measured.len() implies follows(all[i], #[trigger] polled[i])
        && follows(polled[i], measured[i]) by {
        if i < n {
            assert(polled_from(all[i], polled[i]));
        } else {
            assert(polled[i] == all[i]);
        }
        assert(measured_from(polled[i], measured[i]));
    }
    if r is Some {
        assert(polled_from(all[n - 1], polled[n - 1]));
        assert(measured_from(polled[n - 1], measured[n - 1]));
        assert(last_statuses(measured, n)[n - 1] == measured[n - 1].polls().last());
    }
}

/// A call of `accept` that hands out a channel, or drops a failed
/// connection, keeps every connection that it found still pending (or did
/// not reach), whatever its age: that connection, as it is now, is in the
/// pool, at the place given by how many connections before it stay.
pub proof fn lemma_accept_keeps_pending(
    before: Seq<Connection>,
    after: Seq<Connection>,
    r: Option<DataChannel>,
    arrived: Seq<Connection>,
    polled: Seq<Connection>,
    measured: Seq<Connection>,
    n: int,
    i: int,
)
    requires
        accept_outcome(before, after, r, arrived, polled, measured, n),
        dropped_any(last_statuses(measured, n)),
        0 <= i < measured.len(),
        i >= n || last_statuses(measured, n)[i] is Pending,
    ensures
        ({
            let keep = keep_flags(last_statuses(measured, n), expired_flags(measured), measured.len());
            &&& marked_count(keep.take(i)) < after.len()
            &&& after[marked_count(keep.take(i)) as int] == measured[i]
        }),
{
    lemma_pool_keeps_pending(measured, last_statuses(measured, n), expired_flags(measured), i);
}

} // verus!

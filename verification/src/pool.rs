//! The pool of idle connections.
//!
//! The pool keeps connections that are idle and healthy, each under the key
//! of its destination and with the time it was last active. A checkout takes
//! one entry out, so no connection is ever leased twice; a checkin puts it
//! back with a new time. An entry that has been idle for longer than the
//! pool's threshold is never handed out again. The pool is a cache: a miss
//! means only that the caller connects anew.
//!
//! Times are readings of one clock that does not run backwards, in any unit;
//! the threshold is in the same unit.

use crate::key::AddrView;
use crate::key::UnifiedL4Addr;
use vstd::prelude::*;

verus! {

/// Facts about a connection that are fixed when it is made.
#[derive(Clone, Copy, Debug, Default, PartialEq, Eq, Structural)]
pub struct TransportConnMeta {}

/// Which destinations the connector behind a pool reaches.
#[derive(Clone, Copy, Debug, PartialEq, Eq, Structural)]
pub enum Reach {
    /// TCP destinations only.
    Tcp,
    /// Unix sockets only.
    Unix,
    /// Both.
    Any,
}

impl Reach {
    /// Whether a connector of this reach connects to `key`.
    pub open spec fn covers(self, key: AddrView) -> bool {
        match self {
            Reach::Tcp => key is Tcp,
            Reach::Unix => key is Unix,
            Reach::Any => true,
        }
    }

    /// Whether a connector of this reach connects to `key`.
    pub fn admits(&self, key: &UnifiedL4Addr) -> (yes: bool)
        ensures
            yes == self.covers(key@),
    {
        match self {
            Reach::Tcp => key.is_tcp(),
            Reach::Unix => !key.is_tcp(),
            Reach::Any => true,
        }
    }
}

/// A connection with what the pool records of it.
#[derive(Debug)]
pub struct PoolEntry<S> {
    /// The destination that the connection leads to.
    pub key: UnifiedL4Addr,
    /// The connection itself.
    pub stream: S,
    /// What was noted of the connection when it was made.
    pub meta: TransportConnMeta,
    /// When the connection was last active.
    pub last_active: u64,
}

/// Whether a connection last active at `last_active` is still young enough
/// at `now` under a threshold of `max_idle`.
pub open spec fn is_fresh(last_active: u64, now: u64, max_idle: u64) -> bool {
    now <= last_active || now - last_active <= max_idle
}

/// Whether a checkout for `key` at `now` may hand out `entry`.
pub open spec fn usable<S>(entry: PoolEntry<S>, key: AddrView, now: u64, max_idle: u64) -> bool {
    entry.key@ == key && is_fresh(entry.last_active, now, max_idle)
}

/// The position of the entry that a checkout for `key` at `now` hands out:
/// the last usable one, which is the one returned most recently.
pub open spec fn pick<S>(entries: Seq<PoolEntry<S>>, key: AddrView, now: u64, max_idle: u64)
    -> Option<int>
    decreases entries.len(),
{
    if entries.len() == 0 {
        None
    } else if usable(entries.last(), key, now, max_idle) {
        Some(entries.len() - 1)
    } else {
        pick(entries.drop_last(), key, now, max_idle)
    }
}

/// `entry` as it stands in the pool after a checkin at `now`.
pub open spec fn stamped<S>(entry: PoolEntry<S>, now: u64) -> PoolEntry<S> {
    PoolEntry { key: entry.key, stream: entry.stream, meta: entry.meta, last_active: now }
}

/// The entries of `entries` that are still fresh at `now`, in their order.
pub open spec fn fresh_entries<S>(entries: Seq<PoolEntry<S>>, now: u64, max_idle: u64) -> Seq<
    PoolEntry<S>,
> {
    entries.filter(|e: PoolEntry<S>| is_fresh(e.last_active, now, max_idle))
}

/// What `pick` finds is usable and nothing behind it is; where it finds
/// nothing, no entry is usable.
pub proof fn lemma_pick<S>(entries: Seq<PoolEntry<S>>, key: AddrView, now: u64, max_idle: u64)
    ensures
        match pick(entries, key, now, max_idle) {
            Some(i) => {
                &&& 0 <= i < entries.len()
                &&& usable(entries[i], key, now, max_idle)
                &&& forall|j: int| i < j < entries.len() ==> !usable(entries[j], key, now, max_idle)
            },
            None => forall|j: int|
                0 <= j < entries.len() ==> !usable(entries[j], key, now, max_idle),
        },
    decreases entries.len(),
{
    if entries.len() > 0 && !usable(entries.last(), key, now, max_idle) {
        lemma_pick(entries.drop_last(), key, now, max_idle);
        match pick(entries, key, now, max_idle) {
            Some(i) => {
                assert forall|j: int| i < j < entries.len() implies !usable(
                    entries[j],
                    key,
                    now,
                    max_idle,
                ) by {
                    if j < entries.len() - 1 {
                        assert(entries[j] == entries.drop_last()[j]);
                    }
                }
            },
            None => {
                assert forall|j: int| 0 <= j < entries.len() implies !usable(
                    entries[j],
                    key,
                    now,
                    max_idle,
                ) by {
                    if j < entries.len() - 1 {
                        assert(entries[j] == entries.drop_last()[j]);
                    }
                }
            },
        }
    }
}

/// Reuse comes before creation: a connection checked in at `at` is the one
/// that the next checkout for its key hands out, as long as it is still fresh
/// at the time of that checkout, and taking it leaves the pool as it was
/// before the checkin.
pub proof fn lemma_checkin_then_checkout<S>(
    entries: Seq<PoolEntry<S>>,
    entry: PoolEntry<S>,
    at: u64,
    now: u64,
    max_idle: u64,
)
    requires
        is_fresh(at, now, max_idle),
    ensures
        pick(entries.push(stamped(entry, at)), entry.key@, now, max_idle) == Some(
            entries.len() as int,
        ),
        entries.push(stamped(entry, at))[entries.len() as int].stream == entry.stream,
        entries.push(stamped(entry, at)).remove(entries.len() as int) == entries,
{
    let held = entries.push(stamped(entry, at));
    assert(held.last() == stamped(entry, at));
    assert(held.remove(entries.len() as int) =~= entries);
}

/// No entry is leased twice: of two checkouts in a row for one key, the
/// second hands out an entry that stood at another place in the pool than
/// the one the first took, and the first is no longer in the pool at all.
pub proof fn lemma_no_double_lease<S>(
    entries: Seq<PoolEntry<S>>,
    key: AddrView,
    now: u64,
    later: u64,
    max_idle: u64,
)
    requires
        pick(entries, key, now, max_idle) is Some,
    ensures
        ({
            let first = pick(entries, key, now, max_idle)->0;
            let rest = entries.remove(first);
            &&& 0 <= first < entries.len()
            &&& rest.len() == entries.len() - 1
            &&& pick(rest, key, later, max_idle) matches Some(second) ==> {
                let place = if second < first {
                    second
                } else {
                    second + 1
                };
                &&& 0 <= place < entries.len()
                &&& place != first
                &&& rest[second] == entries[place]
            }
        }),
{
    lemma_pick(entries, key, now, max_idle);
    let first = pick(entries, key, now, max_idle)->0;
    lemma_pick(entries.remove(first), key, later, max_idle);
}

/// Discarding the stale entries changes no checkout: with or without them
/// in the pool, a checkout finds the same entry or finds none.
pub proof fn lemma_eviction_keeps_checkout<S>(
    entries: Seq<PoolEntry<S>>,
    key: AddrView,
    now: u64,
    max_idle: u64,
)
    ensures
        ({
            let idle = fresh_entries(entries, now, max_idle);
            match pick(entries, key, now, max_idle) {
                Some(i) => {
                    &&& pick(idle, key, now, max_idle) matches Some(j)
                    &&& 0 <= j < idle.len()
                    &&& 0 <= i < entries.len()
                    &&& idle[j] == entries[i]
                },
                None => pick(idle, key, now, max_idle) is None,
            }
        }),
    decreases entries.len(),
{
    reveal(Seq::filter);
    let fresh = |e: PoolEntry<S>| is_fresh(e.last_active, now, max_idle);
    if entries.len() > 0 {
        let rest = entries.drop_last();
        let last = entries.last();
        lemma_eviction_keeps_checkout(rest, key, now, max_idle);
        lemma_pick(rest, key, now, max_idle);
        lemma_pick(rest.filter(fresh), key, now, max_idle);
        if fresh(last) {
            let idle = entries.filter(fresh);
            assert(idle == rest.filter(fresh).push(last));
            assert(idle.drop_last() == rest.filter(fresh));
            assert(idle.last() == last);
        }
    }
}

/// Where the connections of one pool are: idle in the pool, or out with a
/// request that holds them.
#[verifier::reject_recursive_types(S)]
pub struct Ledger<S> {
    /// The entries of the pool.
    pub idle: Seq<PoolEntry<S>>,
    /// The connections that requests hold.
    pub leased: Set<S>,
}

/// One thing that happens to the connections of a pool.
pub enum Move<S> {
    /// A request asks the pool for a connection to `key`: `Pool::checkout`.
    Checkout { key: AddrView, now: u64 },
    /// The connector opens `stream` for a request.
    Open { stream: S },
    /// A request returns its connection to the pool: `Pool::checkin`.
    Checkin { entry: PoolEntry<S>, now: u64 },
    /// A request drops its connection.
    Discard { stream: S },
    /// The stale entries leave the pool: `Pool::evict`.
    Evict { now: u64 },
}

/// Whether one of `entries` holds `stream`.
pub open spec fn holds<S>(entries: Seq<PoolEntry<S>>, stream: S) -> bool {
    exists|i: int| 0 <= i < entries.len() && (#[trigger] entries[i]).stream == stream
}

/// Whether every connection is in one place only: no two entries of the pool
/// hold the same connection, and none holds one that a request holds.
pub open spec fn exclusive<S>(ledger: Ledger<S>) -> bool {
    &&& forall|i: int, j: int|
        0 <= i < j < ledger.idle.len() ==> (#[trigger] ledger.idle[i]).stream != (
        #[trigger] ledger.idle[j]).stream
    &&& forall|i: int|
        0 <= i < ledger.idle.len() ==> !ledger.leased.contains((#[trigger] ledger.idle[i]).stream)
}

/// Whether `step` can happen: a connection that is opened is a new one, and
/// one that is returned or dropped is one that a request holds.
pub open spec fn allowed<S>(ledger: Ledger<S>, step: Move<S>) -> bool {
    match step {
        Move::Open { stream } => !ledger.leased.contains(stream) && !holds(ledger.idle, stream),
        Move::Checkin { entry, .. } => ledger.leased.contains(entry.stream),
        Move::Discard { stream } => ledger.leased.contains(stream),
        _ => true,
    }
}

/// Where the connections are after `step`, in a pool of the given reach and
/// threshold. The pool changes as `Pool::checkout`, `Pool::checkin` and
/// `Pool::evict` change it; a connection is held by a request from its
/// checkout or its opening until it is returned or dropped.
pub open spec fn after<S>(ledger: Ledger<S>, step: Move<S>, reach: Reach, max_idle: u64) -> Ledger<
    S,
> {
    match step {
        Move::Checkout { key, now } => match pick(ledger.idle, key, now, max_idle) {
            Some(i) => Ledger {
                idle: ledger.idle.remove(i),
                leased: ledger.leased.insert(ledger.idle[i].stream),
            },
            None => ledger,
        },
        Move::Open { stream } => Ledger { idle: ledger.idle, leased: ledger.leased.insert(stream) },
        Move::Checkin { entry, now } => Ledger {
            idle: if reach.covers(entry.key@) {
                ledger.idle.push(stamped(entry, now))
            } else {
                ledger.idle
            },
            leased: ledger.leased.remove(entry.stream),
        },
        Move::Discard { stream } => Ledger { idle: ledger.idle, leased: ledger.leased.remove(stream) },
        Move::Evict { now } => Ledger {
            idle: fresh_entries(ledger.idle, now, max_idle),
            leased: ledger.leased,
        },
    }
}

/// Where the connections are after all of `steps`, one after the other.
pub open spec fn after_all<S>(
    ledger: Ledger<S>,
    steps: Seq<Move<S>>,
    reach: Reach,
    max_idle: u64,
) -> Ledger<S>
    decreases steps.len(),
{
    if steps.len() == 0 {
        ledger
    } else {
        after(after_all(ledger, steps.drop_last(), reach, max_idle), steps.last(), reach, max_idle)
    }
}

/// Whether each of `steps` can happen when its turn comes.
pub open spec fn all_allowed<S>(
    ledger: Ledger<S>,
    steps: Seq<Move<S>>,
    reach: Reach,
    max_idle: u64,
) -> bool
    decreases steps.len(),
{
    steps.len() == 0 || (all_allowed(ledger, steps.drop_last(), reach, max_idle) && allowed(
        after_all(ledger, steps.drop_last(), reach, max_idle),
        steps.last(),
    ))
}

proof fn lemma_fresh_entries_are_entries<S>(entries: Seq<PoolEntry<S>>, now: u64, max_idle: u64)
    ensures
        forall|j: int|
            0 <= j < fresh_entries(entries, now, max_idle).len() ==> holds(
                entries,
                (#[trigger] fresh_entries(entries, now, max_idle)[j]).stream,
            ),
        exclusive(Ledger { idle: entries, leased: Set::empty() }) ==> exclusive(
            Ledger { idle: fresh_entries(entries, now, max_idle), leased: Set::empty() },
        ),
    decreases entries.len(),
{
    reveal(Seq::filter);
    let fresh = |e: PoolEntry<S>| is_fresh(e.last_active, now, max_idle);
    if entries.len() > 0 {
        let rest = entries.drop_last();
        let last = entries.last();
        let kept = rest.filter(fresh);
        let idle = entries.filter(fresh);
        lemma_fresh_entries_are_entries(rest, now, max_idle);
        assert forall|j: int| 0 <= j < idle.len() implies holds(
            entries,
            (#[trigger] idle[j]).stream,
        ) by {
            if j < kept.len() {
                assert(idle[j] == kept[j]);
                assert(holds(rest, kept[j].stream));
                let i = choose|i: int| 0 <= i < rest.len() && (#[trigger] rest[i]).stream == kept[j].stream;
                assert(entries[i] == rest[i]);
            } else {
                assert(idle[j] == last);
                assert(entries[entries.len() - 1] == last);
            }
        }
        if exclusive(Ledger { idle: entries, leased: Set::empty() }) {
            assert(exclusive(Ledger { idle: rest, leased: Set::empty() })) by {
                assert forall|i: int, j: int| 0 <= i < j < rest.len() implies (#[trigger] rest[i]).stream
                    != (#[trigger] rest[j]).stream by {
                    assert(rest[i] == entries[i] && rest[j] == entries[j]);
                }
            }
            assert forall|i: int, j: int| 0 <= i < j < idle.len() implies (#[trigger] idle[i]).stream
                != (#[trigger] idle[j]).stream by {
                if j < kept.len() {
                    assert(idle[i] == kept[i] && idle[j] == kept[j]);
                } else {
                    assert(idle[j] == last);
                    assert(idle[i] == kept[i]);
                    assert(holds(rest, kept[i].stream));
                    let k = choose|k: int| 0 <= k < rest.len() && (#[trigger] rest[k]).stream == kept[i].stream;
                    assert(entries[k] == rest[k]);
                    assert(entries[entries.len() - 1] == last);
                }
            }
        }
    }
}

/// One step keeps every connection in one place only.
pub proof fn lemma_step_keeps_exclusive<S>(
    ledger: Ledger<S>,
    step: Move<S>,
    reach: Reach,
    max_idle: u64,
)
    requires
        exclusive(ledger),
        allowed(ledger, step),
    ensures
        exclusive(after(ledger, step, reach, max_idle)),
{
    let next = after(ledger, step, reach, max_idle);
    match step {
        Move::Checkout { key, now } => {
            lemma_pick(ledger.idle, key, now, max_idle);
            if let Some(at) = pick(ledger.idle, key, now, max_idle) {
                assert forall|i: int, j: int| 0 <= i < j < next.idle.len() implies (
                #[trigger] next.idle[i]).stream != (#[trigger] next.idle[j]).stream by {
                    let a = if i < at { i } else { i + 1 };
                    let b = if j < at { j } else { j + 1 };
                    assert(next.idle[i] == ledger.idle[a] && next.idle[j] == ledger.idle[b]);
                }
                assert forall|i: int| 0 <= i < next.idle.len() implies !next.leased.contains(
                    (#[trigger] next.idle[i]).stream,
                ) by {
                    let a = if i < at { i } else { i + 1 };
                    assert(next.idle[i] == ledger.idle[a]);
                    assert(ledger.idle[a].stream != ledger.idle[at].stream);
                }
            }
        },
        Move::Open { stream } => {
            assert forall|i: int| 0 <= i < next.idle.len() implies !next.leased.contains(
                (#[trigger] next.idle[i]).stream,
            ) by {
                assert(next.idle[i] == ledger.idle[i]);
                if ledger.idle[i].stream == stream {
                    assert(holds(ledger.idle, stream));
                }
            }
        },
        Move::Checkin { entry, now } => {
            if reach.covers(entry.key@) {
                let last = ledger.idle.len() as int;
                assert(next.idle[last].stream == entry.stream);
                assert forall|i: int, j: int| 0 <= i < j < next.idle.len() implies (
                #[trigger] next.idle[i]).stream != (#[trigger] next.idle[j]).stream by {
                    assert(next.idle[i] == ledger.idle[i]);
                    if j < last {
                        assert(next.idle[j] == ledger.idle[j]);
                    }
                }
                assert forall|i: int| 0 <= i < next.idle.len() implies !next.leased.contains(
                    (#[trigger] next.idle[i]).stream,
                ) by {
                    if i < last {
                        assert(next.idle[i] == ledger.idle[i]);
                    }
                }
            } else {
                assert forall|i: int| 0 <= i < next.idle.len() implies !next.leased.contains(
                    (#[trigger] next.idle[i]).stream,
                ) by {
                    assert(next.idle[i] == ledger.idle[i]);
                }
            }
        },
        Move::Discard { stream } => {
            assert forall|i: int| 0 <= i < next.idle.len() implies !next.leased.contains(
                (#[trigger] next.idle[i]).stream,
            ) by {
                assert(next.idle[i] == ledger.idle[i]);
            }
        },
        Move::Evict { now } => {
            lemma_fresh_entries_are_entries(ledger.idle, now, max_idle);
            assert(exclusive(Ledger { idle: ledger.idle, leased: Set::<S>::empty() }));
            assert forall|i: int| 0 <= i < next.idle.len() implies !next.leased.contains(
                (#[trigger] next.idle[i]).stream,
            ) by {
                assert(holds(ledger.idle, next.idle[i].stream));
                let k = choose|k: int|
                    0 <= k < ledger.idle.len() && (#[trigger] ledger.idle[k]).stream
                        == next.idle[i].stream;
                assert(!ledger.leased.contains(ledger.idle[k].stream));
            }
            assert forall|i: int, j: int| 0 <= i < j < next.idle.len() implies (
            #[trigger] next.idle[i]).stream != (#[trigger] next.idle[j]).stream by {
                let only = Ledger { idle: next.idle, leased: Set::<S>::empty() };
                assert(exclusive(only));
                assert(only.idle[i].stream != only.idle[j].stream);
            }
        },
    }
}

/// Whatever happens, in whatever order, every connection stays in one place
/// only: idle in the pool once, or with one request, or gone.
pub proof fn lemma_steps_keep_exclusive<S>(
    ledger: Ledger<S>,
    steps: Seq<Move<S>>,
    reach: Reach,
    max_idle: u64,
)
    requires
        exclusive(ledger),
        all_allowed(ledger, steps, reach, max_idle),
    ensures
        exclusive(after_all(ledger, steps, reach, max_idle)),
    decreases steps.len(),
{
    if steps.len() > 0 {
        lemma_steps_keep_exclusive(ledger, steps.drop_last(), reach, max_idle);
        lemma_step_keeps_exclusive(
            after_all(ledger, steps.drop_last(), reach, max_idle),
            steps.last(),
            reach,
            max_idle,
        );
    }
}

/// No connection is leased twice, whatever went before: starting with an
/// empty pool and no request, after any steps a checkout for any key hands
/// out no connection that a request holds, and the pool holds no such
/// connection at all.
pub proof fn lemma_no_double_lease_ever<S>(
    steps: Seq<Move<S>>,
    reach: Reach,
    max_idle: u64,
    stream: S,
    key: AddrView,
    now: u64,
)
    requires
        all_allowed(Ledger { idle: Seq::empty(), leased: Set::empty() }, steps, reach, max_idle),
        after_all(
            Ledger { idle: Seq::empty(), leased: Set::empty() },
            steps,
            reach,
            max_idle,
        ).leased.contains(stream),
    ensures
        ({
            let ledger = after_all(
                Ledger { idle: Seq::empty(), leased: Set::empty() },
                steps,
                reach,
                max_idle,
            );
            &&& exclusive(ledger)
            &&& !holds(ledger.idle, stream)
            &&& pick(ledger.idle, key, now, max_idle) matches Some(i) ==> ledger.idle[i].stream
                != stream
        }),
{
    let first = Ledger::<S> { idle: Seq::empty(), leased: Set::empty() };
    lemma_steps_keep_exclusive(first, steps, reach, max_idle);
    let ledger = after_all(first, steps, reach, max_idle);
    lemma_pick(ledger.idle, key, now, max_idle);
}

/// The idle connections of one connector.
#[derive(Debug)]
pub struct Pool<S> {
    reach: Reach,
    max_idle: u64,
    entries: Vec<PoolEntry<S>>,
}

impl<S> View for Pool<S> {
    type V = Seq<PoolEntry<S>>;

    closed spec fn view(&self) -> Seq<PoolEntry<S>> {
        self.entries@
    }
}

impl<S> PoolEntry<S> {
    /// The record of a connection to `key` that was made at `now`.
    pub fn new(key: UnifiedL4Addr, stream: S, now: u64) -> (entry: PoolEntry<S>)
        ensures
            entry == (PoolEntry { key, stream, meta: TransportConnMeta {  }, last_active: now }),
    {
        PoolEntry { key, stream, meta: TransportConnMeta {  }, last_active: now }
    }

    /// What was noted of the connection when it was made.
    pub fn get_conn_metadata(&self) -> (meta: TransportConnMeta)
        ensures
            meta == self.meta,
    {
        self.meta
    }
}

impl<S> Pool<S> {
    /// Every entry leads to a destination that the pool's connector reaches.
    /// A new pool is so, and every operation keeps it so.
    pub open spec fn wf(&self) -> bool {
        forall|i: int| 0 <= i < self@.len() ==> self.reach().covers(#[trigger] self@[i].key@)
    }

    /// The reach of the connector that the pool belongs to.
    pub closed spec fn reach(&self) -> Reach {
        self.reach
    }

    /// The longest time an entry may be idle and still be handed out.
    pub closed spec fn max_idle(&self) -> u64 {
        self.max_idle
    }

    /// An empty pool for a connector of the given reach, with the given
    /// threshold on the time that a connection may be idle.
    pub fn new(reach: Reach, max_idle: u64) -> (pool: Pool<S>)
        ensures
            pool.wf(),
            pool@ == Seq::<PoolEntry<S>>::empty(),
            pool.reach() == reach,
            pool.max_idle() == max_idle,
    {
        Pool { reach, max_idle, entries: Vec::new() }
    }

    /// The number of entries, fresh or not.
    pub fn len(&self) -> (n: usize)
        ensures
            n == self@.len(),
    {
        self.entries.len()
    }

    /// Takes an idle connection to `key` out of the pool, if it holds one that
    /// is fresh at `now`.
    ///
    /// Of several it takes the one returned last. The entry leaves the pool
    /// and everything else stays as it was; without a usable entry nothing
    /// changes. An entry past the threshold is never handed out, and a fresh
    /// one is never passed over.
    pub fn checkout(&mut self, key: &UnifiedL4Addr, now: u64) -> (lease: Option<PoolEntry<S>>)
        ensures
            old(self).wf() ==> final(self).wf(),
            final(self).reach() == old(self).reach(),
            final(self).max_idle() == old(self).max_idle(),
            match pick(old(self)@, key@, now, old(self).max_idle()) {
                Some(i) => lease == Some(old(self)@[i]) && final(self)@ == old(self)@.remove(i),
                None => lease.is_none() && final(self)@ == old(self)@,
            },
            lease matches Some(entry) ==> entry.key@ == key@ && is_fresh(
                entry.last_active,
                now,
                old(self).max_idle(),
            ),
            lease.is_some() <==> exists|i: int|
                0 <= i < old(self)@.len() && usable(
                    #[trigger] old(self)@[i],
                    key@,
                    now,
                    old(self).max_idle(),
                ),
    {
        proof {
            lemma_pick(self@, key@, now, self.max_idle);
        }
        let mut i: usize = self.entries.len();
        assert(self.entries@.subrange(0, i as int) == self.entries@);
        while i > 0
            invariant
                i <= self.entries@.len(),
                self.entries@ == old(self).entries@,
                self.max_idle == old(self).max_idle,
                self.reach == old(self).reach,
                pick(self.entries@, key@, now, self.max_idle) == pick(
                    self.entries@.subrange(0, i as int),
                    key@,
                    now,
                    self.max_idle,
                ),
            decreases i,
        {
            let ghost prefix = self.entries@.subrange(0, i as int);
            i -= 1;
            assert(prefix.last() == self.entries@[i as int]);
            assert(prefix.drop_last() == self.entries@.subrange(0, i as int));
            let hit = {
                let entry = &self.entries[i];
                entry.key == *key && Self::fresh(entry.last_active, now, self.max_idle)
            };
            if hit {
                let entry = self.entries.remove(i);
                assert(old(self).wf() ==> self.wf()) by {
                    if old(self).wf() {
                        assert forall|j: int| 0 <= j < self@.len() implies self.reach().covers(
                            #[trigger] self@[j].key@,
                        ) by {
                            assert(self@[j] == old(self)@[if j < i { j } else { j + 1 }]);
                        }
                    }
                }
                return Some(entry);
            }
        }
        assert(self.entries@.subrange(0, 0) == Seq::<PoolEntry<S>>::empty());
        None
    }

    /// Puts a connection back into the pool as idle, with `now` as the time
    /// it was last active, and says whether the pool took it.
    ///
    /// The pool takes every entry whose destination its connector reaches
    /// and drops any other. The caller returns only connections that are
    /// healthy and have no request in flight; a broken one it drops itself.
    pub fn checkin(&mut self, entry: PoolEntry<S>, now: u64) -> (stored: bool)
        ensures
            old(self).wf() ==> final(self).wf(),
            final(self).reach() == old(self).reach(),
            final(self).max_idle() == old(self).max_idle(),
            stored == old(self).reach().covers(entry.key@),
            final(self)@ == if stored {
                old(self)@.push(stamped(entry, now))
            } else {
                old(self)@
            },
    {
        if self.reach.admits(&entry.key) {
            let mut entry = entry;
            entry.last_active = now;
            self.entries.push(entry);
            true
        } else {
            false
        }
    }

    /// Discards every entry that has been idle for longer than the threshold
    /// at `now`, and says how many there were. The others stay in their
    /// order.
    pub fn evict(&mut self, now: u64) -> (discarded: usize)
        ensures
            old(self).wf() ==> final(self).wf(),
            final(self).reach() == old(self).reach(),
            final(self).max_idle() == old(self).max_idle(),
            final(self)@ == fresh_entries(old(self)@, now, old(self).max_idle()),
            discarded == old(self)@.len() - final(self)@.len(),
    {
        let ghost fresh = |e: PoolEntry<S>| is_fresh(e.last_active, now, self.max_idle);
        let ghost before = self.entries@;
        let mut discarded: usize = 0;
        let mut i: usize = self.entries.len();
        assert(before.subrange(0, i as int) + before.subrange(i as int, before.len() as int).filter(
            fresh,
        ) == before);
        while i > 0
            invariant
                i <= before.len(),
                before == old(self).entries@,
                self.reach == old(self).reach,
                self.max_idle == old(self).max_idle,
                fresh == |e: PoolEntry<S>| is_fresh(e.last_active, now, self.max_idle),
                self.entries@ == before.subrange(0, i as int) + before.subrange(
                    i as int,
                    before.len() as int,
                ).filter(fresh),
                discarded == before.len() - self.entries@.len(),
                before.len() <= usize::MAX,
                old(self).wf() ==> self.wf(),
            decreases i,
        {
            let ghost tail = before.subrange(i as int, before.len() as int);
            i -= 1;
            proof {
                let longer = before.subrange(i as int, before.len() as int);
                assert(longer == seq![before[i as int]] + tail);
                Seq::filter_distributes_over_add(seq![before[i as int]], tail, fresh);
                reveal_with_fuel(Seq::filter, 2);
                assert(seq![before[i as int]].drop_last() == Seq::<PoolEntry<S>>::empty());
                assert(self.entries@[i as int] == before[i as int]);
            }
            let stale = !Self::fresh(self.entries[i].last_active, now, self.max_idle);
            if stale {
                let ghost held = self@;
                self.entries.remove(i);
                discarded += 1;
                assert(old(self).wf() ==> self.wf()) by {
                    if old(self).wf() {
                        assert forall|j: int| 0 <= j < self@.len() implies self.reach().covers(
                            #[trigger] self@[j].key@,
                        ) by {
                            assert(self@[j] == held[if j < i { j } else { j + 1 }]);
                        }
                    }
                }
            }
            assert(self.entries@ == before.subrange(0, i as int) + before.subrange(
                i as int,
                before.len() as int,
            ).filter(fresh));
        }
        assert(before.subrange(0, before.len() as int) == before);
        assert(before.subrange(0, 0) + before.filter(fresh) == before.filter(fresh));
        discarded
    }

    fn fresh(last_active: u64, now: u64, max_idle: u64) -> (fresh: bool)
        ensures
            fresh == is_fresh(last_active, now, max_idle),
    {
        now <= last_active || now - last_active <= max_idle
    }
}

} // verus!

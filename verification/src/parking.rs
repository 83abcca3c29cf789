//! The process-wide parking registry: a mapping from a watched memory
//! address to the queue of waiter tokens currently blocked on that address,
//! oldest first. An entry is created when the first waiter parks on an
//! address and removed when the last waiter for that address leaves, whether
//! woken or timed out. A waiter token stands for one suspended thread, so a
//! token is parked in at most one queue at a time.

use vstd::prelude::*;

verus! {

/// One registered address with the tokens parked on it, in arrival order.
struct Spot {
    addr: u64,
    waiters: Vec<u64>,
}

/// No two entries watch the same address.
spec fn addrs_distinct(s: Seq<Spot>) -> bool {
    forall|i: int, j: int| 0 <= i < j < s.len() ==> (#[trigger] s[i]).addr != (#[trigger] s[j]).addr
}

/// Entries self-clean: an entry without waiters is removed at once.
spec fn queues_nonempty(s: Seq<Spot>) -> bool {
    forall|i: int| 0 <= i < s.len() ==> (#[trigger] s[i]).waiters@.len() > 0
}

/// A waiter token stands for one suspended thread, so it occurs at most once
/// over all queues.
spec fn waiters_unique(s: Seq<Spot>) -> bool {
    forall|i: int, j: int, k: int, l: int|
        0 <= i < s.len() && 0 <= j < s[i].waiters@.len() && 0 <= k < s.len() && 0 <= l
            < s[k].waiters@.len() && (i != k || j != l) ==> (#[trigger] s[i].waiters@[j])
            != (#[trigger] s[k].waiters@[l])
}

/// Some entry watches `addr`.
spec fn spots_has_addr(s: Seq<Spot>, addr: u64) -> bool {
    exists|i: int| 0 <= i < s.len() && (#[trigger] s[i]).addr == addr
}

/// The index of the entry watching `addr`.
spec fn addr_index(s: Seq<Spot>, addr: u64) -> int {
    choose|i: int| 0 <= i < s.len() && (#[trigger] s[i]).addr == addr
}

/// The queue parked on `addr`; empty when no entry watches it.
spec fn spots_waiters(s: Seq<Spot>, addr: u64) -> Seq<u64> {
    if spots_has_addr(s, addr) {
        s[addr_index(s, addr)].waiters@
    } else {
        Seq::empty()
    }
}

/// The token `w` is parked in some queue.
spec fn spots_parked(s: Seq<Spot>, w: u64) -> bool {
    exists|i: int, j: int|
        0 <= i < s.len() && 0 <= j < s[i].waiters@.len() && (#[trigger] s[i].waiters@[j]) == w
}

/// An entry's own index is the index the registry looks it up under.
proof fn lemma_at_index(s: Seq<Spot>, i: int)
    requires
        addrs_distinct(s),
        0 <= i < s.len(),
    ensures
        spots_has_addr(s, s[i].addr),
        addr_index(s, s[i].addr) == i,
        spots_waiters(s, s[i].addr) == s[i].waiters@,
{
    assert(spots_has_addr(s, s[i].addr));
    let j = addr_index(s, s[i].addr);
    assert(0 <= j < s.len() && s[j].addr == s[i].addr);
    if j != i {
        assert(s[j].addr != s[i].addr);
        assert(false);
    }
}

/// Replacing an entry by one for the same address keeps every other queue.
proof fn lemma_update_spot(s: Seq<Spot>, i: int, e: Spot)
    requires
        addrs_distinct(s),
        0 <= i < s.len(),
        e.addr == s[i].addr,
    ensures
        addrs_distinct(s.update(i, e)),
        spots_has_addr(s.update(i, e), e.addr),
        spots_waiters(s.update(i, e), e.addr) == e.waiters@,
        forall|a: u64| a != e.addr ==> spots_waiters(s.update(i, e), a) == spots_waiters(s, a),
{
    let t = s.update(i, e);
    assert(forall|k: int| 0 <= k < t.len() ==> (#[trigger] t[k]).addr == s[k].addr);
    assert forall|p: int, q: int| 0 <= p < q < t.len() implies (#[trigger] t[p]).addr
        != (#[trigger] t[q]).addr by {
        assert(s[p].addr != s[q].addr);
    }
    lemma_at_index(t, i);
    assert forall|a: u64| a != e.addr implies spots_waiters(t, a) == spots_waiters(s, a) by {
        if spots_has_addr(s, a) {
            let k = addr_index(s, a);
            assert(0 <= k < s.len() && s[k].addr == a);
            assert(k != i);
            lemma_at_index(s, k);
            assert(t[k].addr == a && t[k].waiters@ == s[k].waiters@);
            lemma_at_index(t, k);
        } else {
            if spots_has_addr(t, a) {
                let k = addr_index(t, a);
                assert(0 <= k < t.len() && t[k].addr == a);
                assert(s[k].addr == a);
                assert(false);
            }
        }
    }
}

/// Dropping an entry empties its queue and keeps every other queue.
proof fn lemma_remove_spot(s: Seq<Spot>, i: int)
    requires
        addrs_distinct(s),
        0 <= i < s.len(),
    ensures
        addrs_distinct(s.remove(i)),
        !spots_has_addr(s.remove(i), s[i].addr),
        spots_waiters(s.remove(i), s[i].addr) == Seq::<u64>::empty(),
        forall|a: u64| a != s[i].addr ==> spots_waiters(s.remove(i), a) == spots_waiters(s, a),
{
    let t = s.remove(i);
    s.remove_ensures(i);
    assert forall|p: int, q: int| 0 <= p < q < t.len() implies (#[trigger] t[p]).addr
        != (#[trigger] t[q]).addr by {
        let p0: int = if p < i {
            p
        } else {
            p + 1
        };
        let q0: int = if q < i {
            q
        } else {
            q + 1
        };
        assert(t[p] == s[p0] && t[q] == s[q0]);
        assert(s[p0].addr != s[q0].addr);
    }
    if spots_has_addr(t, s[i].addr) {
        let k = addr_index(t, s[i].addr);
        assert(0 <= k < t.len() && t[k].addr == s[i].addr);
        let k0: int = if k < i {
            k
        } else {
            k + 1
        };
        assert(t[k] == s[k0]);
        assert(s[k0].addr != s[i].addr);
        assert(false);
    }
    assert forall|a: u64| a != s[i].addr implies spots_waiters(t, a) == spots_waiters(s, a) by {
        if spots_has_addr(s, a) {
            let k0 = addr_index(s, a);
            assert(0 <= k0 < s.len() && s[k0].addr == a);
            lemma_at_index(s, k0);
            let k: int = if k0 < i {
                k0
            } else {
                k0 - 1
            };
            assert(t[k] == s[k0]);
            lemma_at_index(t, k);
        } else {
            if spots_has_addr(t, a) {
                let k = addr_index(t, a);
                assert(0 <= k < t.len() && t[k].addr == a);
                let k0: int = if k < i {
                    k
                } else {
                    k + 1
                };
                assert(t[k] == s[k0]);
                assert(false);
            }
        }
    }
}

/// Appending an entry for a fresh address keeps every other queue.
proof fn lemma_push_spot(s: Seq<Spot>, e: Spot)
    requires
        addrs_distinct(s),
        !spots_has_addr(s, e.addr),
    ensures
        addrs_distinct(s.push(e)),
        spots_has_addr(s.push(e), e.addr),
        spots_waiters(s.push(e), e.addr) == e.waiters@,
        forall|a: u64| a != e.addr ==> spots_waiters(s.push(e), a) == spots_waiters(s, a),
{
    let t = s.push(e);
    assert forall|p: int, q: int| 0 <= p < q < t.len() implies (#[trigger] t[p]).addr
        != (#[trigger] t[q]).addr by {
        if q == s.len() {
            assert(t[p] == s[p]);
            assert(s[p].addr != e.addr);
        } else {
            assert(t[p] == s[p] && t[q] == s[q]);
        }
    }
    lemma_at_index(t, s.len() as int);
    assert(t[s.len() as int] == e);
    assert forall|a: u64| a != e.addr implies spots_waiters(t, a) == spots_waiters(s, a) by {
        if spots_has_addr(s, a) {
            let k = addr_index(s, a);
            assert(0 <= k < s.len() && s[k].addr == a);
            lemma_at_index(s, k);
            assert(t[k] == s[k]);
            lemma_at_index(t, k);
        } else {
            if spots_has_addr(t, a) {
                let k = addr_index(t, a);
                assert(0 <= k < t.len() && t[k].addr == a);
                if k < s.len() {
                    assert(t[k] == s[k]);
                    assert(false);
                } else {
                    assert(t[k] == e);
                    assert(false);
                }
            }
        }
    }
}

/// Token uniqueness survives replacing one queue by a selection of its own
/// elements, picked by a strictly injective index map.
proof fn lemma_unique_update_mapped(s: Seq<Spot>, i: int, e: Spot, f: spec_fn(int) -> int)
    requires
        waiters_unique(s),
        0 <= i < s.len(),
        forall|j: int|
            0 <= j < e.waiters@.len() ==> 0 <= #[trigger] f(j) < s[i].waiters@.len()
                && e.waiters@[j] == s[i].waiters@[f(j)],
        forall|j1: int, j2: int|
            0 <= j1 < e.waiters@.len() && 0 <= j2 < e.waiters@.len() && j1 != j2 ==> #[trigger] f(
                j1,
            ) != #[trigger] f(j2),
    ensures
        waiters_unique(s.update(i, e)),
{
    let t = s.update(i, e);
    assert forall|a: int, b: int, c: int, d: int|
        0 <= a < t.len() && 0 <= b < t[a].waiters@.len() && 0 <= c < t.len() && 0 <= d
            < t[c].waiters@.len() && (a != c || b != d) implies (#[trigger] t[a].waiters@[b])
        != (#[trigger] t[c].waiters@[d]) by {
        let b0: int = if a == i {
            f(b)
        } else {
            b
        };
        let d0: int = if c == i {
            f(d)
        } else {
            d
        };
        assert(t[a].waiters@[b] == s[a].waiters@[b0]);
        assert(t[c].waiters@[d] == s[c].waiters@[d0]);
        assert(a != c || b0 != d0);
        assert(s[a].waiters@[b0] != s[c].waiters@[d0]);
    }
}

/// Token uniqueness survives dropping a whole entry.
proof fn lemma_unique_remove_entry(s: Seq<Spot>, i: int)
    requires
        waiters_unique(s),
        0 <= i < s.len(),
    ensures
        waiters_unique(s.remove(i)),
{
    let t = s.remove(i);
    s.remove_ensures(i);
    assert forall|a: int, b: int, c: int, d: int|
        0 <= a < t.len() && 0 <= b < t[a].waiters@.len() && 0 <= c < t.len() && 0 <= d
            < t[c].waiters@.len() && (a != c || b != d) implies (#[trigger] t[a].waiters@[b])
        != (#[trigger] t[c].waiters@[d]) by {
        let a0: int = if a < i {
            a
        } else {
            a + 1
        };
        let c0: int = if c < i {
            c
        } else {
            c + 1
        };
        assert(t[a] == s[a0] && t[c] == s[c0]);
        assert(s[a0].waiters@[b] != s[c0].waiters@[d]);
    }
}

/// Token uniqueness survives appending a fresh token to one queue.
proof fn lemma_unique_update_push(s: Seq<Spot>, i: int, e: Spot, w: u64)
    requires
        waiters_unique(s),
        0 <= i < s.len(),
        e.waiters@ == s[i].waiters@.push(w),
        !spots_parked(s, w),
    ensures
        waiters_unique(s.update(i, e)),
{
    let t = s.update(i, e);
    let q = s[i].waiters@;
    assert forall|a: int, b: int, c: int, d: int|
        0 <= a < t.len() && 0 <= b < t[a].waiters@.len() && 0 <= c < t.len() && 0 <= d
            < t[c].waiters@.len() && (a != c || b != d) implies (#[trigger] t[a].waiters@[b])
        != (#[trigger] t[c].waiters@[d]) by {
        let x = t[a].waiters@[b];
        let y = t[c].waiters@[d];
        if a == i && b == q.len() {
            assert(x == w);
            if c == i && d == q.len() {
                assert(false);
            } else {
                let d0: int = d;
                assert(y == s[c].waiters@[d0]);
                if y == w {
                    assert(spots_parked(s, w));
                    assert(false);
                }
            }
        } else {
            assert(x == s[a].waiters@[b]);
            if c == i && d == q.len() {
                assert(y == w);
                if x == w {
                    assert(spots_parked(s, w));
                    assert(false);
                }
            } else {
                assert(y == s[c].waiters@[d]);
                assert(s[a].waiters@[b] != s[c].waiters@[d]);
            }
        }
    }
}

/// Token uniqueness survives a new one-token entry for a fresh token.
proof fn lemma_unique_push_entry(s: Seq<Spot>, e: Spot, w: u64)
    requires
        waiters_unique(s),
        e.waiters@ == seq![w],
        !spots_parked(s, w),
    ensures
        waiters_unique(s.push(e)),
{
    let t = s.push(e);
    assert forall|a: int, b: int, c: int, d: int|
        0 <= a < t.len() && 0 <= b < t[a].waiters@.len() && 0 <= c < t.len() && 0 <= d
            < t[c].waiters@.len() && (a != c || b != d) implies (#[trigger] t[a].waiters@[b])
        != (#[trigger] t[c].waiters@[d]) by {
        if a == s.len() && c == s.len() {
            assert(false);
        } else if a == s.len() {
            assert(t[a].waiters@[b] == w);
            assert(t[c].waiters@[d] == s[c].waiters@[d]);
            if s[c].waiters@[d] == w {
                assert(spots_parked(s, w));
                assert(false);
            }
        } else if c == s.len() {
            assert(t[c].waiters@[d] == w);
            assert(t[a].waiters@[b] == s[a].waiters@[b]);
            if s[a].waiters@[b] == w {
                assert(spots_parked(s, w));
                assert(false);
            }
        } else {
            assert(t[a].waiters@[b] == s[a].waiters@[b]);
            assert(t[c].waiters@[d] == s[c].waiters@[d]);
            assert(s[a].waiters@[b] != s[c].waiters@[d]);
        }
    }
}

/// A token is parked exactly when some queue holds it: being registered
/// anywhere and membership in a queue agree, so a token a notify has claimed
/// (no longer parked) is in no queue, and its timed-out thread sees it gone.
pub proof fn lemma_parked_iff_in_some_queue(p: ParkingSpot, w: u64)
    requires
        p.wf(),
    ensures
        p.is_parked(w) <==> exists|a: u64| #[trigger] p.is_parked_at(a, w),
{
    if p.is_parked(w) {
        let (k, l) = choose|k: int, l: int|
            0 <= k < p.spots@.len() && 0 <= l < p.spots@[k].waiters@.len() && (
            #[trigger] p.spots@[k].waiters@[l]) == w;
        lemma_at_index(p.spots@, k);
        assert(p.is_parked_at(p.spots@[k].addr, w)) by {
            assert(p.waiters_at(p.spots@[k].addr)[l] == w);
        }
    }
    if exists|a: u64| #[trigger] p.is_parked_at(a, w) {
        let a = choose|a: u64| #[trigger] p.is_parked_at(a, w);
        let q = p.waiters_at(a);
        let j = choose|j: int| 0 <= j < q.len() && q[j] == w;
        assert(spots_has_addr(p.spots@, a)) by {
            if !spots_has_addr(p.spots@, a) {
                assert(q.len() == 0);
            }
        }
        let i = addr_index(p.spots@, a);
        assert(0 <= i < p.spots@.len() && p.spots@[i].addr == a);
        assert(p.spots@[i].waiters@[j] == w);
    }
}

/// The registry of parked waiters. One instance serves a whole shared
/// memory; it must be consulted under the same lock as the watched values'
/// comparison, which is what makes check-then-park race free.
pub struct ParkingSpot {
    spots: Vec<Spot>,
}

impl ParkingSpot {
    /// The registry is consistent: one entry per address, no empty queues,
    /// and every token parked at most once.
    pub closed spec fn wf(self) -> bool {
        &&& addrs_distinct(self.spots@)
        &&& queues_nonempty(self.spots@)
        &&& waiters_unique(self.spots@)
    }

    /// The queue of tokens parked on `addr`, oldest first.
    pub closed spec fn waiters_at(self, addr: u64) -> Seq<u64> {
        spots_waiters(self.spots@, addr)
    }

    /// The token `w` is parked on `addr`.
    pub open spec fn is_parked_at(self, addr: u64, w: u64) -> bool {
        self.waiters_at(addr).contains(w)
    }

    /// The token `w` is parked somewhere.
    pub closed spec fn is_parked(self, w: u64) -> bool {
        spots_parked(self.spots@, w)
    }

    /// An empty registry: nobody is parked anywhere.
    pub fn new() -> (r: ParkingSpot)
        ensures
            r.wf(),
            forall|a: u64| r.waiters_at(a) == Seq::<u64>::empty(),
            forall|w: u64| !r.is_parked(w),
    {
        let r = ParkingSpot { spots: Vec::new() };
        proof {
            assert forall|a: u64| r.waiters_at(a) == Seq::<u64>::empty() by {
                if spots_has_addr(r.spots@, a) {
                    let k = addr_index(r.spots@, a);
                    assert(0 <= k < r.spots@.len());
                    assert(false);
                }
            }
            assert forall|w: u64| !r.is_parked(w) by {
                if spots_parked(r.spots@, w) {
                    let (k, l) = choose|k: int, l: int|
                        0 <= k < r.spots@.len() && 0 <= l < r.spots@[k].waiters@.len() && (
                        #[trigger] r.spots@[k].waiters@[l]) == w;
                    assert(false);
                }
            }
        }
        r
    }

    /// Where the entry watching `addr` sits, if any waiter is parked on it.
    fn find_spot(&self, addr: u64) -> (r: Option<usize>)
        requires
            self.wf(),
        ensures
            match r {
                Some(i) => {
                    &&& i < self.spots@.len()
                    &&& self.spots@[i as int].addr == addr
                    &&& spots_has_addr(self.spots@, addr)
                    &&& addr_index(self.spots@, addr) == i as int
                    &&& self.waiters_at(addr) == self.spots@[i as int].waiters@
                },
                None => {
                    &&& !spots_has_addr(self.spots@, addr)
                    &&& self.waiters_at(addr) == Seq::<u64>::empty()
                },
            },
    {
        let mut i: usize = 0;
        while i < self.spots.len()
            invariant
                i <= self.spots@.len(),
                forall|k: int| 0 <= k < i ==> (#[trigger] self.spots@[k]).addr != addr,
                self.wf(),
            decreases self.spots@.len() - i,
        {
            if self.spots[i].addr == addr {
                proof {
                    lemma_at_index(self.spots@, i as int);
                }
                return Some(i);
            }
            i = i + 1;
        }
        proof {
            if spots_has_addr(self.spots@, addr) {
                let k = addr_index(self.spots@, addr);
                assert(0 <= k < self.spots@.len() && self.spots@[k].addr == addr);
                assert(false);
            }
        }
        None
    }

    /// Parks the token `waiter` on `addr`: it joins the tail of the queue,
    /// and an entry for `addr` is created if this is its first waiter. The
    /// caller must hold the registry lock and must already have confirmed
    /// eligibility (the watched value still equals the expected one), so
    /// that no notify can slip in between the check and this registration.
    pub fn register_waiter(&mut self, addr: u64, waiter: u64)
        requires
            old(self).wf(),
            !old(self).is_parked(waiter),
        ensures
            final(self).wf(),
            final(self).waiters_at(addr) == old(self).waiters_at(addr).push(waiter),
            forall|a: u64| a != addr ==> final(self).waiters_at(a) == old(self).waiters_at(a),
            final(self).is_parked_at(addr, waiter),
    {
        let ghost s = self.spots@;
        let ghost q = old(self).waiters_at(addr);
        match self.find_spot(addr) {
            Some(i) => {
                let mut e = self.spots.remove(i);
                e.waiters.push(waiter);
                let ghost ev = e;
                self.spots.insert(i, e);
                proof {
                    assert(self.spots@ =~= s.update(i as int, ev));
                    lemma_update_spot(s, i as int, ev);
                    lemma_unique_update_push(s, i as int, ev, waiter);
                    assert(queues_nonempty(self.spots@)) by {
                        assert forall|k: int| 0 <= k < self.spots@.len() implies (
                        #[trigger] self.spots@[k]).waiters@.len() > 0 by {
                            if k != i as int {
                                assert(self.spots@[k] == s[k]);
                            }
                        }
                    }
                    assert(final(self).is_parked_at(addr, waiter)) by {
                        assert(final(self).waiters_at(addr)[q.len() as int] == waiter);
                    }
                }
            },
            None => {
                let mut ws: Vec<u64> = Vec::new();
                ws.push(waiter);
                let e = Spot { addr, waiters: ws };
                let ghost ev = e;
                self.spots.push(e);
                proof {
                    assert(ev.waiters@ =~= seq![waiter]);
                    lemma_push_spot(s, ev);
                    lemma_unique_push_entry(s, ev, waiter);
                    assert(queues_nonempty(self.spots@)) by {
                        assert forall|k: int| 0 <= k < self.spots@.len() implies (
                        #[trigger] self.spots@[k]).waiters@.len() > 0 by {
                            if k != s.len() {
                                assert(self.spots@[k] == s[k]);
                            }
                        }
                    }
                    assert(final(self).waiters_at(addr) =~= q.push(waiter));
                    assert(final(self).is_parked_at(addr, waiter)) by {
                        assert(final(self).waiters_at(addr)[q.len() as int] == waiter);
                    }
                }
            },
        }
    }

    /// Removes and returns up to `count` tokens from the front of the queue
    /// on `addr`, exactly as many as were parked there if fewer. Waking the
    /// returned tokens' threads is the caller's job. A notify on an address
    /// with no waiters returns the empty vector. A woken token is no longer
    /// parked anywhere.
    pub fn notify(&mut self, addr: u64, count: u32) -> (woken: Vec<u64>)
        requires
            old(self).wf(),
        ensures
            final(self).wf(),
            woken@.len() == vstd::math::min(count as int, old(self).waiters_at(addr).len() as int),
            woken@ == old(self).waiters_at(addr).take(woken@.len() as int),
            final(self).waiters_at(addr) == old(self).waiters_at(addr).skip(woken@.len() as int),
            forall|a: u64| a != addr ==> final(self).waiters_at(a) == old(self).waiters_at(a),
            forall|x: u64| woken@.contains(x) ==> !final(self).is_parked(x),
    {
        let ghost s = self.spots@;
        let mut woken: Vec<u64> = Vec::new();
        match self.find_spot(addr) {
            Some(i) => {
                let ghost q = s[i as int].waiters@;
                let mut e = self.spots.remove(i);
                let target: usize = if (count as usize) < e.waiters.len() {
                    count as usize
                } else {
                    e.waiters.len()
                };
                while woken.len() < target
                    invariant
                        e.addr == s[i as int].addr,
                        woken@.len() <= target,
                        target <= q.len(),
                        woken@ == q.take(woken@.len() as int),
                        e.waiters@ == q.skip(woken@.len() as int),
                    decreases target - woken@.len(),
                {
                    let ghost n = woken@.len() as int;
                    let x = e.waiters.remove(0);
                    woken.push(x);
                    proof {
                        assert(x == q.skip(n)[0]);
                        assert(x == q[n]);
                        assert(woken@ =~= q.take(n + 1));
                        assert(e.waiters@ =~= q.skip(n + 1));
                    }
                }
                let ghost n = woken@.len() as int;
                let ghost rem = e.waiters@;
                if e.waiters.is_empty() {
                    proof {
                        assert(self.spots@ == s.remove(i as int));
                        lemma_remove_spot(s, i as int);
                        lemma_unique_remove_entry(s, i as int);
                        assert(queues_nonempty(self.spots@)) by {
                            s.remove_ensures(i as int);
                            assert forall|k: int| 0 <= k < self.spots@.len() implies (
                            #[trigger] self.spots@[k]).waiters@.len() > 0 by {
                                let k0: int = if k < i as int {
                                    k
                                } else {
                                    k + 1
                                };
                                assert(self.spots@[k] == s[k0]);
                            }
                        }
                        assert(final(self).waiters_at(addr) =~= q.skip(n));
                    }
                } else {
                    let ghost ev = e;
                    self.spots.insert(i, e);
                    proof {
                        assert(self.spots@ =~= s.remove(i as int).insert(i as int, ev));
                        assert(self.spots@ =~= s.update(i as int, ev));
                        lemma_update_spot(s, i as int, ev);
                        lemma_unique_update_mapped(s, i as int, ev, |j: int| j + n);
                        assert(queues_nonempty(self.spots@)) by {
                            assert forall|k: int| 0 <= k < self.spots@.len() implies (
                            #[trigger] self.spots@[k]).waiters@.len() > 0 by {
                                if k != i as int {
                                    assert(self.spots@[k] == s[k]);
                                }
                            }
                        }
                    }
                }
                proof {
                    lemma_at_index(s, i as int);
                    assert forall|x: u64| woken@.contains(x) implies !final(self).is_parked(x) by {
                        let jx = choose|jj: int| 0 <= jj < woken@.len() && woken@[jj] == x;
                        assert(q[jx] == x);
                        if spots_parked(self.spots@, x) {
                            let (k, l) = choose|k: int, l: int|
                                0 <= k < self.spots@.len() && 0 <= l
                                    < self.spots@[k].waiters@.len() && (
                                #[trigger] self.spots@[k].waiters@[l]) == x;
                            if rem.len() > 0 {
                                if k == i as int {
                                    assert(self.spots@[k].waiters@[l] == q[l + n]);
                                    assert(s[i as int].waiters@[l + n] == x);
                                    assert(s[i as int].waiters@[jx] == x);
                                    assert(false);
                                } else {
                                    assert(self.spots@[k] == s[k]);
                                    assert(s[k].waiters@[l] == x);
                                    assert(s[i as int].waiters@[jx] == x);
                                    assert(false);
                                }
                            } else {
                                s.remove_ensures(i as int);
                                let k0: int = if k < i as int {
                                    k
                                } else {
                                    k + 1
                                };
                                assert(self.spots@[k] == s[k0]);
                                assert(s[k0].waiters@[l] == x);
                                assert(s[i as int].waiters@[jx] == x);
                                assert(false);
                            }
                        }
                    }
                }
                woken
            },
            None => {
                proof {
                    assert(woken@ =~= old(self).waiters_at(addr).take(0));
                    assert(final(self).waiters_at(addr) =~= old(self).waiters_at(addr).skip(0));
                }
                woken
            },
        }
    }

    /// Removes the token `waiter` from the queue on `addr` if it is still
    /// there, reporting whether it was. A timed-out thread calls this; when
    /// the token is already gone, a notify claimed it first and the wait
    /// counts as woken, which is what makes a wakeup impossible to lose.
    pub fn remove_waiter(&mut self, addr: u64, waiter: u64) -> (present: bool)
        requires
            old(self).wf(),
            old(self).is_parked(waiter) ==> old(self).is_parked_at(addr, waiter),
        ensures
            final(self).wf(),
            present <==> old(self).is_parked_at(addr, waiter),
            final(self).waiters_at(addr) == old(self).waiters_at(addr).remove_value(waiter),
            forall|a: u64| a != addr ==> final(self).waiters_at(a) == old(self).waiters_at(a),
            !final(self).is_parked(waiter),
    {
        let ghost s = self.spots@;
        match self.find_spot(addr) {
            Some(i) => {
                let ghost q = s[i as int].waiters@;
                let mut e = self.spots.remove(i);
                let mut j: usize = 0;
                let mut found: bool = false;
                while j < e.waiters.len() && !found
                    invariant
                        e.addr == s[i as int].addr,
                        e.waiters@.len() == q.len() || (found && e.waiters@.len() == q.len() - 1),
                        !found ==> {
                            &&& j <= q.len()
                            &&& e.waiters@ == q
                            &&& forall|k: int| 0 <= k < j ==> q[k] != waiter
                        },
                        found ==> {
                            &&& 0 < j <= q.len()
                            &&& q[j - 1] == waiter
                            &&& (forall|k: int| 0 <= k < j - 1 ==> q[k] != waiter)
                            &&& e.waiters@ == q.remove(j - 1)
                        },
                    decreases q.len() - j,
                {
                    if e.waiters[j] == waiter {
                        e.waiters.remove(j);
                        found = true;
                    }
                    j = j + 1;
                }
                let ghost rem = e.waiters@;
                let ghost jf: int = j - 1;
                proof {
                    lemma_at_index(s, i as int);
                    q.index_of_first_ensures(waiter);
                    if found {
                        assert(q.contains(waiter)) by {
                            assert(q[jf] == waiter);
                        }
                        let i0 = q.index_of_first(waiter)->0;
                        assert(q[i0] == waiter);
                        assert(i0 == jf);
                        assert(rem == q.remove_value(waiter));
                    } else {
                        assert(forall|k: int| 0 <= k < q.len() ==> q[k] != waiter);
                        if q.contains(waiter) {
                            let kw = choose|k: int| 0 <= k < q.len() && q[k] == waiter;
                            assert(false);
                        }
                        assert(rem == q.remove_value(waiter));
                    }
                }
                let present = found;
                if e.waiters.is_empty() {
                    proof {
                        assert(found) by {
                            assert(s[i as int].waiters@.len() > 0);
                        }
                        assert(self.spots@ == s.remove(i as int));
                        lemma_remove_spot(s, i as int);
                        lemma_unique_remove_entry(s, i as int);
                        assert(queues_nonempty(self.spots@)) by {
                            s.remove_ensures(i as int);
                            assert forall|k: int| 0 <= k < self.spots@.len() implies (
                            #[trigger] self.spots@[k]).waiters@.len() > 0 by {
                                let k0: int = if k < i as int {
                                    k
                                } else {
                                    k + 1
                                };
                                assert(self.spots@[k] == s[k0]);
                            }
                        }
                    }
                } else {
                    let ghost ev = e;
                    self.spots.insert(i, e);
                    proof {
                        assert(self.spots@ =~= s.remove(i as int).insert(i as int, ev));
                        assert(self.spots@ =~= s.update(i as int, ev));
                        lemma_update_spot(s, i as int, ev);
                        if found {
                            q.remove_ensures(jf);
                            lemma_unique_update_mapped(
                                s,
                                i as int,
                                ev,
                                |k: int|
                                    if k < jf {
                                        k
                                    } else {
                                        k + 1
                                    },
                            );
                        } else {
                            lemma_unique_update_mapped(s, i as int, ev, |k: int| k);
                        }
                        assert(queues_nonempty(self.spots@)) by {
                            assert forall|k: int| 0 <= k < self.spots@.len() implies (
                            #[trigger] self.spots@[k]).waiters@.len() > 0 by {
                                if k != i as int {
                                    assert(self.spots@[k] == s[k]);
                                }
                            }
                        }
                    }
                }
                proof {
                    assert(!final(self).is_parked(waiter)) by {
                        if spots_parked(self.spots@, waiter) {
                            let (k, l) = choose|k: int, l: int|
                                0 <= k < self.spots@.len() && 0 <= l
                                    < self.spots@[k].waiters@.len() && (
                                #[trigger] self.spots@[k].waiters@[l]) == waiter;
                            if rem.len() == 0 {
                                s.remove_ensures(i as int);
                                let k0: int = if k < i as int {
                                    k
                                } else {
                                    k + 1
                                };
                                assert(self.spots@[k] == s[k0]);
                                assert(s[k0].waiters@[l] == waiter);
                                assert(q[jf] == waiter);
                                assert(s[i as int].waiters@[jf] == waiter);
                                assert(false);
                            } else {
                                if k == i as int {
                                    if found {
                                        let l0: int = if l < jf {
                                            l
                                        } else {
                                            l + 1
                                        };
                                        q.remove_ensures(jf);
                                        assert(rem[l] == q[l0]);
                                        assert(s[i as int].waiters@[l0] == waiter);
                                        assert(s[i as int].waiters@[jf] == waiter);
                                        assert(false);
                                    } else {
                                        assert(rem[l] == q[l]);
                                        assert(q[l] == waiter);
                                        assert(false);
                                    }
                                } else {
                                    assert(self.spots@[k] == s[k]);
                                    assert(s[k].waiters@[l] == waiter);
                                    if found {
                                        assert(s[i as int].waiters@[jf] == waiter);
                                        assert(false);
                                    } else {
                                        assert(spots_parked(s, waiter));
                                        assert(old(self).is_parked_at(addr, waiter));
                                        let kw = choose|kk: int|
                                            0 <= kk < q.len() && q[kk] == waiter;
                                        assert(false);
                                    }
                                }
                            }
                        }
                    }
                }
                present
            },
            None => {
                proof {
                    assert(!old(self).waiters_at(addr).contains(waiter));
                    assert(old(self).waiters_at(addr).remove_value(waiter) == old(
                        self,
                    ).waiters_at(addr)) by {
                        old(self).waiters_at(addr).index_of_first_ensures(waiter);
                    }
                    assert(!final(self).is_parked(waiter)) by {
                        if spots_parked(self.spots@, waiter) {
                            assert(old(self).is_parked_at(addr, waiter));
                            let kw = choose|kk: int|
                                0 <= kk < old(self).waiters_at(addr).len() && old(self).waiters_at(
                                    addr,
                                )[kk] == waiter;
                            assert(false);
                        }
                    }
                }
                false
            },
        }
    }
}

} // verus!

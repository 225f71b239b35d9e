//! Channel id allocation.
//!
//! Ids are issued in the range `[1, chan_max]`; id 0 is reserved for
//! connection-level control traffic and is never issued. A released id goes
//! to a free list, and the allocator prefers never-used ids over released
//! ones: a released id is reused only once every never-used id is gone.
//! Within the free list, reuse is last-released-first.

use vstd::prelude::*;
use crate::error::AmqError;

verus! {

/// Issues and reuses channel ids.
pub struct IdAllocator {
    /// The negotiated maximum channel id; no id above it is issued.
    pub chan_max: u16,
    /// The smallest never-used id; starts at 1 and only grows.
    pub next: u32,
    /// Released ids available for reuse, in release order.
    pub released: Vec<u16>,
}

/// The mathematical state of an [`IdAllocator`].
#[verifier::ext_equal]
pub struct AllocState {
    pub chan_max: u16,
    pub next: u32,
    pub released: Seq<u16>,
}

impl View for IdAllocator {
    type V = AllocState;

    open spec fn view(&self) -> AllocState {
        AllocState { chan_max: self.chan_max, next: self.next, released: self.released@ }
    }
}

/// Well-formedness of an allocator state: the cursor stays within
/// `[1, chan_max + 1]`, and the free list holds distinct ids, each of them
/// previously issued (below the cursor) and never 0.
pub open spec fn alloc_inv(m: AllocState) -> bool {
    &&& 1 <= m.next <= m.chan_max as u32 + 1
    &&& forall|i: int| 0 <= i < m.released.len() ==>
            1 <= #[trigger] m.released[i] && (m.released[i] as u32) < m.next
    &&& forall|i: int, j: int| 0 <= i < j < m.released.len() ==>
            #[trigger] m.released[i] != #[trigger] m.released[j]
}

/// The ids currently in use: issued (below the cursor) and not released.
pub open spec fn ids_in_use(m: AllocState) -> Set<u16> {
    Set::new(|id: u16| 1 <= id && (id as u32) < m.next && !m.released.contains(id))
}

/// Whether an allocation can succeed: a never-used id remains, or the free
/// list is non-empty.
pub open spec fn alloc_ok(m: AllocState) -> bool {
    m.next <= m.chan_max as u32 || m.released.len() > 0
}

/// The id a successful allocation returns: the never-used cursor while one
/// remains, else the most recently released id.
pub open spec fn alloc_id(m: AllocState) -> u16 {
    if m.next <= m.chan_max as u32 {
        m.next as u16
    } else {
        m.released.last()
    }
}

/// The allocator state after one allocation attempt.
pub open spec fn alloc_next(m: AllocState) -> AllocState {
    if m.next <= m.chan_max as u32 {
        AllocState { next: (m.next + 1) as u32, ..m }
    } else if m.released.len() > 0 {
        AllocState { released: m.released.drop_last(), ..m }
    } else {
        m
    }
}

/// Whether `release(id)` accepts the id: it must be in use.
pub open spec fn release_ok(m: AllocState, id: u16) -> bool {
    1 <= id && (id as u32) < m.next && !m.released.contains(id)
}

/// The allocator state after `release(id)`.
pub open spec fn release_next(m: AllocState, id: u16) -> AllocState {
    if release_ok(m, id) {
        AllocState { released: m.released.push(id), ..m }
    } else {
        m
    }
}

impl IdAllocator {
    /// Well-formedness of the allocator.
    pub open spec fn wf(&self) -> bool {
        alloc_inv(self@)
    }

    /// A fresh allocator for ids in `[1, chan_max]`.
    pub fn new(chan_max: u16) -> (a: IdAllocator)
        ensures
            a.wf(),
            a@.chan_max == chan_max,
            a@.next == 1,
            a@.released.len() == 0,
            ids_in_use(a@) == Set::<u16>::empty(),
    {
        let a = IdAllocator { chan_max, next: 1, released: Vec::new() };
        proof {
            assert(ids_in_use(a@) =~= Set::<u16>::empty());
        }
        a
    }

    /// Issue an id no caller currently holds, preferring never-used ids over
    /// released ones; fails with `ChannelLimitExceeded` exactly when every id
    /// in `[1, chan_max]` is in use.
    pub fn allocate(&mut self) -> (r: Result<u16, AmqError>)
        requires
            old(self).wf(),
        ensures
            final(self).wf(),
            final(self)@.chan_max == old(self)@.chan_max,
            alloc_ok(old(self)@) ==> r == Ok::<u16, AmqError>(alloc_id(old(self)@)),
            !alloc_ok(old(self)@) ==> r == Err::<u16, AmqError>(AmqError::ChannelLimitExceeded),
            final(self)@ == alloc_next(old(self)@),
            r matches Ok(id) ==> {
                &&& 1 <= id <= old(self)@.chan_max
                &&& !ids_in_use(old(self)@).contains(id)
                &&& ids_in_use(final(self)@) == ids_in_use(old(self)@).insert(id)
            },
    {
        proof {
            if alloc_ok(self@) {
                lemma_allocate_fresh(self@);
            }
        }
        if self.next <= self.chan_max as u32 {
            let id: u16 = self.next as u16;
            self.next = self.next + 1;
            Ok(id)
        } else {
            match self.released.pop() {
                Some(id) => {
                    proof {
                        assert(self@ =~= alloc_next(old(self)@));
                    }
                    Ok(id)
                },
                None => Err(AmqError::ChannelLimitExceeded),
            }
        }
    }

    /// Return an id to the free list. Accepts exactly the ids currently in
    /// use and reports whether the id was accepted; an id never issued, or
    /// released twice, is refused, so the free list never holds duplicates.
    pub fn release(&mut self, id: u16) -> (r: bool)
        requires
            old(self).wf(),
        ensures
            final(self).wf(),
            r == release_ok(old(self)@, id),
            r == ids_in_use(old(self)@).contains(id),
            final(self)@ == release_next(old(self)@, id),
            r ==> ids_in_use(final(self)@) == ids_in_use(old(self)@).remove(id),
    {
        if 1 <= id && (id as u32) < self.next && !contains_id(&self.released, id) {
            self.released.push(id);
            proof {
                assert(self@ =~= release_next(old(self)@, id));
                assert forall|x: u16| ids_in_use(self@).contains(x)
                    <==> ids_in_use(old(self)@).remove(id).contains(x) by {
                    let s0 = old(self)@.released;
                    let s1 = s0.push(id);
                    assert(s1[s0.len() as int] == id);
                    assert(s1.contains(id));
                    if s1.contains(x) {
                        let k = choose|k: int| 0 <= k < s1.len() && s1[k] == x;
                        if k < s0.len() {
                            assert(s0[k] == x);
                            assert(s0.contains(x));
                        } else {
                            assert(x == id);
                        }
                    }
                    if s0.contains(x) {
                        let k = choose|k: int| 0 <= k < s0.len() && s0[k] == x;
                        assert(s1[k] == x);
                        assert(s1.contains(x));
                    }
                }
                assert(ids_in_use(self@) =~= ids_in_use(old(self)@).remove(id));
            }
            true
        } else {
            false
        }
    }
}

/// Whether the free list holds `id`.
fn contains_id(v: &Vec<u16>, id: u16) -> (r: bool)
    ensures
        r == v@.contains(id),
{
    let mut i: usize = 0;
    while i < v.len()
        invariant
            0 <= i <= v@.len(),
            forall|k: int| 0 <= k < i ==> v@[k] != id,
        decreases v@.len() - i,
    {
        if v[i] == id {
            proof {
                assert(v@[i as int] == id);
            }
            return true;
        }
        i = i + 1;
    }
    false
}

/// A successful allocation returns an id in `[1, chan_max]` that nobody
/// currently holds, and afterwards exactly that id has been added to the ids
/// in use.
pub proof fn lemma_allocate_fresh(m: AllocState)
    requires
        alloc_inv(m),
        alloc_ok(m),
    ensures
        1 <= alloc_id(m) <= m.chan_max,
        !ids_in_use(m).contains(alloc_id(m)),
        ids_in_use(alloc_next(m)) == ids_in_use(m).insert(alloc_id(m)),
        alloc_inv(alloc_next(m)),
{
    let id = alloc_id(m);
    let m2 = alloc_next(m);
    if m.next <= m.chan_max as u32 {
        assert forall|x: u16| ids_in_use(m2).contains(x)
            <==> ids_in_use(m).insert(id).contains(x) by {
        }
        assert(ids_in_use(m2) =~= ids_in_use(m).insert(id));
    } else {
        let last = m.released.last();
        assert(m.released.contains(last)) by {
            assert(m.released[m.released.len() - 1] == last);
        }
        assert(1 <= last <= m.chan_max);
        assert forall|x: u16| ids_in_use(m2).contains(x)
            <==> ids_in_use(m).insert(id).contains(x) by {
            lemma_drop_last_contains(m.released, x);
        }
        assert(ids_in_use(m2) =~= ids_in_use(m).insert(id));
        assert forall|i: int, j: int|
            0 <= i < j < m2.released.len() implies m2.released[i] != m2.released[j] by {
            assert(m.released[i] != m.released[j]);
        }
    }
}

/// In a duplicate-free sequence, dropping the last element removes exactly
/// that element from membership.
proof fn lemma_drop_last_contains(s: Seq<u16>, x: u16)
    requires
        s.len() > 0,
        forall|i: int, j: int| 0 <= i < j < s.len() ==> #[trigger] s[i] != #[trigger] s[j],
    ensures
        x == s.last() ==> !s.drop_last().contains(x),
        x != s.last() ==> (s.drop_last().contains(x) <==> s.contains(x)),
{
    if x == s.last() {
        assert forall|k: int| 0 <= k < s.drop_last().len() implies s.drop_last()[k] != x by {
            assert(s[k] != s[s.len() - 1]);
        }
    } else {
        if s.contains(x) {
            let k = choose|k: int| 0 <= k < s.len() && s[k] == x;
            assert(k < s.len() - 1);
            assert(s.drop_last()[k] == x);
        }
        if s.drop_last().contains(x) {
            let k = choose|k: int| 0 <= k < s.drop_last().len() && s.drop_last()[k] == x;
            assert(s[k] == x);
        }
    }
}

/// While any never-used id remains, allocation issues the never-used cursor,
/// never a previously released id: a released id is not reused before the
/// never-used ids are exhausted.
pub proof fn lemma_released_not_reused_early(m: AllocState, id: u16)
    requires
        alloc_inv(m),
        m.released.contains(id),
        m.next <= m.chan_max as u32,
    ensures
        alloc_ok(m),
        alloc_id(m) != id,
{
    let k = choose|k: int| 0 <= k < m.released.len() && m.released[k] == id;
    assert((m.released[k] as u32) < m.next);
}

/// The ids handed out by `n` successive allocation attempts, stopping at the
/// first failure.
pub open spec fn alloc_id_seq(m: AllocState, n: nat) -> Seq<u16>
    decreases n,
{
    if n == 0 || !alloc_ok(m) {
        Seq::empty()
    } else {
        seq![alloc_id(m)] + alloc_id_seq(alloc_next(m), (n - 1) as nat)
    }
}

/// Any number of successive allocations yields pairwise-distinct ids, each in
/// `[1, chan_max]` and none of them in use beforehand.
pub proof fn lemma_alloc_ids_distinct(m: AllocState, n: nat)
    requires
        alloc_inv(m),
    ensures
        forall|i: int, j: int| 0 <= i < j < alloc_id_seq(m, n).len() ==>
            #[trigger] alloc_id_seq(m, n)[i] != #[trigger] alloc_id_seq(m, n)[j],
        forall|i: int| 0 <= i < alloc_id_seq(m, n).len() ==>
            1 <= #[trigger] alloc_id_seq(m, n)[i] <= m.chan_max
                && !ids_in_use(m).contains(alloc_id_seq(m, n)[i]),
    decreases n,
{
    let ids = alloc_id_seq(m, n);
    if n == 0 || !alloc_ok(m) {
    } else {
        let id = alloc_id(m);
        let m2 = alloc_next(m);
        let rest = alloc_id_seq(m2, (n - 1) as nat);
        lemma_allocate_fresh(m);
        lemma_alloc_ids_distinct(m2, (n - 1) as nat);
        assert(ids[0] == id);
        assert(forall|k: int| 0 <= k < rest.len() ==> ids[k + 1] == #[trigger] rest[k]);
        assert forall|i: int| 0 <= i < ids.len() implies
            1 <= #[trigger] ids[i] <= m.chan_max && !ids_in_use(m).contains(ids[i]) by {
            if i > 0 {
                assert(ids[i] == rest[i - 1]);
                assert(!ids_in_use(m2).contains(rest[i - 1]));
                assert(ids_in_use(m2) == ids_in_use(m).insert(id));
            }
        }
        assert forall|i: int, j: int| 0 <= i < j < ids.len() implies ids[i] != ids[j] by {
            if i == 0 {
                assert(ids[j] == rest[j - 1]);
                assert(!ids_in_use(m2).contains(rest[j - 1]));
                assert(ids_in_use(m2).contains(id));
            } else {
                assert(ids[i] == rest[i - 1] && ids[j] == rest[j - 1]);
            }
        }
    }
}

} // verus!

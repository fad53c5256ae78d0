//! The registry of live outbound handles and the broadcast pass over it.
//!
//! Each registered handle gets a fresh identifier. Identifiers are kept in
//! strictly increasing order, so no handle is ever listed twice. A broadcast
//! pass lends every handle out at once, in the order of the identifiers, and
//! takes back only those that accepted their value.

use vstd::prelude::*;

verus! {

/// The elements of `s` whose flag in `d` is set, in their order.
pub open spec fn kept<A>(s: Seq<A>, d: Seq<bool>) -> Seq<A>
    decreases s.len(),
{
    if s.len() == 0 {
        Seq::empty()
    } else {
        let rest = kept(s.skip(1), d.skip(1));
        if d[0] {
            seq![s[0]] + rest
        } else {
            rest
        }
    }
}

/// The elements of `s` other than `x`, in their order.
pub open spec fn without(s: Seq<u64>, x: u64) -> Seq<u64> {
    s.filter(|y: u64| y != x)
}

/// Each element is smaller than every later one.
pub open spec fn strictly_increasing(s: Seq<u64>) -> bool {
    forall|i: int, j: int| 0 <= i < j < s.len() ==> s[i] < s[j]
}

/// Well-formedness of a registry's parts; `n_handles` counts the handles
/// that it holds.
pub open spec fn parts_wf(ids: Seq<u64>, n_handles: nat, next_id: u64, lent: bool) -> bool {
    &&& strictly_increasing(ids)
    &&& forall|i: int| 0 <= i < ids.len() ==> ids[i] < next_id
    &&& lent ==> n_handles == 0
    &&& !lent ==> n_handles == ids.len()
}

/// The live outbound handles of every connection, keyed by identifier.
pub struct Registry<H> {
    ids: Vec<u64>,
    handles: Vec<H>,
    next_id: u64,
    lent: bool,
}

impl<H> Registry<H> {
    /// The identifiers of the live entries, in registration order.
    pub closed spec fn ids(&self) -> Seq<u64> {
        self.ids@
    }

    /// The handles of the live entries, position for position with `ids`.
    /// While a pass is open they are lent out and this is empty.
    pub closed spec fn handles(&self) -> Seq<H> {
        self.handles@
    }

    /// The identifier that the next registration receives.
    pub closed spec fn next_id(&self) -> u64 {
        self.next_id
    }

    /// Whether a broadcast pass holds the handles.
    pub closed spec fn in_pass(&self) -> bool {
        self.lent
    }

    /// Identifiers strictly increase and are all below the next one; the
    /// handles match the identifiers one for one unless they are lent out.
    #[verifier::type_invariant]
    pub closed spec fn wf(&self) -> bool {
        parts_wf(self.ids@, self.handles@.len(), self.next_id, self.lent)
    }

    /// An empty registry.
    pub fn new() -> (r: Self)
        ensures
            r.wf(),
            r.ids() == Seq::<u64>::empty(),
            r.handles() == Seq::<H>::empty(),
            !r.in_pass(),
            r.next_id() == 0,
    {
        Registry { ids: Vec::new(), handles: Vec::new(), next_id: 0, lent: false }
    }

    /// The number of live entries.
    pub fn len(&self) -> (r: usize)
        ensures
            r == self.ids().len(),
    {
        self.ids.len()
    }

    /// Whether a broadcast pass holds the handles.
    pub fn is_in_pass(&self) -> (r: bool)
        ensures
            r == self.in_pass(),
    {
        self.lent
    }

    /// Whether the entry `id` is live.
    pub fn contains(&self, id: u64) -> (r: bool)
        ensures
            r == self.ids().contains(id),
    {
        let mut i: usize = 0;
        while i < self.ids.len()
            invariant
                0 <= i <= self.ids@.len(),
                forall|k: int| 0 <= k < i ==> self.ids@[k] != id,
            decreases self.ids@.len() - i,
        {
            if self.ids[i] == id {
                return true;
            }
            i = i + 1;
        }
        false
    }

    /// Moves the parts out, leaving an empty registry behind.
    fn take_parts(&mut self) -> (r: (Vec<u64>, Vec<H>, u64, bool))
        ensures
            r.0@ == old(self).ids(),
            r.1@ == old(self).handles(),
            r.2 == old(self).next_id(),
            r.3 == old(self).in_pass(),
            parts_wf(r.0@, r.1@.len(), r.2, r.3),
    {
        proof {
            use_type_invariant(&*self);
        }
        let mut cur = Registry { ids: Vec::new(), handles: Vec::new(), next_id: self.next_id, lent: false };
        std::mem::swap(self, &mut cur);
        proof {
            use_type_invariant(&cur);
        }
        let Registry { ids, handles, next_id, lent } = cur;
        (ids, handles, next_id, lent)
    }

    /// Adds a handle as a new live entry and returns its identifier. Returns
    /// `None`, changing nothing, only when the identifiers are spent.
    pub fn register(&mut self, handle: H) -> (r: Option<u64>)
        requires
            !old(self).in_pass(),
        ensures
            final(self).wf(),
            !final(self).in_pass(),
            old(self).next_id() < u64::MAX ==> r == Some(old(self).next_id()),
            old(self).next_id() == u64::MAX ==> r is None,
            r matches Some(id) ==> {
                &&& !old(self).ids().contains(id)
                &&& final(self).ids() == old(self).ids().push(id)
                &&& final(self).handles() == old(self).handles().push(handle)
                &&& final(self).next_id() == id + 1
            },
            r is None ==> final(self).ids() == old(self).ids() && final(self).handles()
                == old(self).handles() && final(self).next_id() == old(self).next_id(),
    {
        let (mut ids, mut handles, next_id, lent) = self.take_parts();
        if next_id == u64::MAX {
            *self = Registry { ids, handles, next_id, lent };
            return None;
        }
        ids.push(next_id);
        handles.push(handle);
        *self = Registry { ids, handles, next_id: next_id + 1, lent };
        Some(next_id)
    }

    /// Removes the entry `id` if it is live; otherwise changes nothing, so a
    /// second removal of one entry is harmless.
    pub fn deregister(&mut self, id: u64) -> (r: Option<H>)
        requires
            !old(self).in_pass(),
        ensures
            final(self).wf(),
            !final(self).in_pass(),
            final(self).next_id() == old(self).next_id(),
            final(self).ids() == without(old(self).ids(), id),
            r is Some <==> old(self).ids().contains(id),
            r matches Some(h) ==> exists|k: int|
                0 <= k < old(self).ids().len() && old(self).ids()[k] == id
                    && h == old(self).handles()[k] && final(self).handles()
                    == old(self).handles().remove(k),
            r is None ==> final(self).handles() == old(self).handles(),
    {
        let (mut ids, mut handles, next_id, lent) = self.take_parts();
        let mut i: usize = 0;
        while i < ids.len()
            invariant
                0 <= i <= ids@.len(),
                forall|k: int| 0 <= k < i ==> ids@[k] != id,
                ids@ == old(self).ids(),
                handles@ == old(self).handles(),
                next_id == old(self).next_id(),
                !lent,
                parts_wf(ids@, handles@.len(), next_id, lent),
            decreases ids@.len() - i,
        {
            if ids[i] == id {
                proof {
                    lemma_without_at(ids@, i as int);
                }
                ids.remove(i);
                let h = handles.remove(i);
                *self = Registry { ids, handles, next_id, lent };
                return Some(h);
            }
            i = i + 1;
        }
        proof {
            lemma_without_absent(ids@, id);
        }
        *self = Registry { ids, handles, next_id, lent };
        None
    }

    /// Opens a broadcast pass: lends out every live handle, in the order of
    /// the identifiers, so that each receives one outbound value.
    pub fn begin_pass(&mut self) -> (r: Vec<H>)
        requires
            !old(self).in_pass(),
        ensures
            final(self).wf(),
            final(self).in_pass(),
            r@ == old(self).handles(),
            r@.len() == old(self).ids().len(),
            final(self).ids() == old(self).ids(),
            final(self).next_id() == old(self).next_id(),
    {
        let (ids, handles, next_id, _lent) = self.take_parts();
        *self = Registry { ids, handles: Vec::new(), next_id, lent: true };
        handles
    }

    /// Closes a broadcast pass: `handles` are the lent handles, in the order
    /// in which `begin_pass` gave them, and `delivered[i]` tells whether the
    /// `i`-th accepted its value. Exactly the entries that failed are removed.
    pub fn end_pass(&mut self, handles: Vec<H>, delivered: &Vec<bool>)
        requires
            old(self).in_pass(),
            handles@.len() == old(self).ids().len(),
            delivered@.len() == old(self).ids().len(),
        ensures
            final(self).wf(),
            !final(self).in_pass(),
            final(self).ids() == kept(old(self).ids(), delivered@),
            final(self).handles() == kept(handles@, delivered@),
            final(self).next_id() == old(self).next_id(),
    {
        let (mut ids, _empty, next_id, _lent) = self.take_parts();
        let mut handles = handles;
        let ghost ids0 = ids@;
        let ghost hs0 = handles@;
        let ghost d = delivered@;
        let mut i: usize = ids.len();
        proof {
            assert(ids0.skip(i as int) =~= Seq::<u64>::empty());
            assert(hs0.skip(i as int) =~= Seq::<H>::empty());
            assert(d.skip(i as int) =~= Seq::<bool>::empty());
            assert(ids0.take(i as int) =~= ids0);
            assert(hs0.take(i as int) =~= hs0);
            assert(ids@ =~= ids0.take(i as int) + kept(ids0.skip(i as int), d.skip(i as int)));
            assert(handles@ =~= hs0.take(i as int) + kept(hs0.skip(i as int), d.skip(i as int)));
        }
        while i > 0
            invariant
                i <= ids0.len(),
                ids0.len() == hs0.len(),
                d == delivered@,
                d.len() == ids0.len(),
                strictly_increasing(ids@),
                forall|k: int| 0 <= k < ids@.len() ==> ids@[k] < next_id,
                ids@ == ids0.take(i as int) + kept(ids0.skip(i as int), d.skip(i as int)),
                handles@ == hs0.take(i as int) + kept(hs0.skip(i as int), d.skip(i as int)),
            decreases i,
        {
            let j = i - 1;
            proof {
                lemma_kept_step(ids0, d, j as int);
                lemma_kept_step(hs0, d, j as int);
                assert(ids0.take(i as int) =~= ids0.take(j as int).push(ids0[j as int]));
                assert(hs0.take(i as int) =~= hs0.take(j as int).push(hs0[j as int]));
            }
            if !delivered[j] {
                ids.remove(j);
                handles.remove(j);
                proof {
                    assert(ids@ =~= ids0.take(j as int) + kept(ids0.skip(j as int), d.skip(j as int)));
                    assert(handles@ =~= hs0.take(j as int) + kept(hs0.skip(j as int), d.skip(j as int)));
                }
            } else {
                proof {
                    assert(ids@ =~= ids0.take(j as int) + kept(ids0.skip(j as int), d.skip(j as int)));
                    assert(handles@ =~= hs0.take(j as int) + kept(hs0.skip(j as int), d.skip(j as int)));
                }
            }
            i = j;
        }
        proof {
            assert(ids0.skip(0) =~= ids0);
            assert(hs0.skip(0) =~= hs0);
            assert(d.skip(0) =~= d);
            assert(ids@ =~= kept(ids0, d));
            assert(handles@ =~= kept(hs0, d));
            lemma_kept_len(ids0, hs0, d);
        }
        *self = Registry { ids, handles, next_id, lent: false };
    }
}

/// Membership counts registrations: whatever order `N` successful
/// registrations come in, each adds one fresh entry, so the registry then
/// holds exactly `N` more live entries, all distinct, among them every
/// identifier handed out.
pub proof fn lemma_membership_counts_registrations<H>(states: Seq<Registry<H>>, fresh: Seq<u64>)
    requires
        states.len() == fresh.len() + 1,
        states[0].ids().no_duplicates(),
        forall|i: int|
            0 <= i < fresh.len() ==> {
                &&& !(#[trigger] states[i]).ids().contains(fresh[i])
                &&& states[i + 1].ids() == states[i].ids().push(fresh[i])
            },
    ensures
        states.last().ids().len() == states[0].ids().len() + fresh.len(),
        states.last().ids().no_duplicates(),
        forall|i: int| 0 <= i < fresh.len() ==> states.last().ids().contains(#[trigger] fresh[i]),
    decreases fresh.len(),
{
    if fresh.len() > 0 {
        let n = fresh.len() - 1;
        let prev = states.drop_last();
        lemma_membership_counts_registrations(prev, fresh.drop_last());
        assert(prev.last() == states[n]);
        let last = states.last();
        assert(last == states[n + 1]);
        assert(last.ids() == states[n].ids().push(fresh[n]));
        assert forall|i: int| 0 <= i < fresh.len() implies last.ids().contains(#[trigger] fresh[i]) by {
            if i < n {
                assert(fresh.drop_last()[i] == fresh[i]);
                let k = choose|k: int| 0 <= k < states[n].ids().len() && states[n].ids()[k] == fresh[i];
                assert(last.ids()[k] == fresh[i]);
            } else {
                assert(last.ids()[states[n].ids().len() as int] == fresh[n]);
            }
        }
    }
}

/// A broadcast pass reaches every live entry exactly once: the handles it
/// lends are as many as the live entries, one per entry by position, and no
/// entry is listed twice.
pub proof fn lemma_pass_reaches_each_once<H>(reg: Registry<H>)
    requires
        reg.wf(),
        !reg.in_pass(),
    ensures
        reg.ids().no_duplicates(),
        reg.handles().len() == reg.ids().len(),
{
}

/// When exactly the entry at position `k` fails to accept its value, closing
/// the pass removes that entry and no other: `N - 1` entries stay, and the
/// failed identifier is no longer reached by later passes.
pub proof fn lemma_reclaim_exactly_one(ids: Seq<u64>, delivered: Seq<bool>, k: int)
    requires
        strictly_increasing(ids),
        delivered.len() == ids.len(),
        0 <= k < ids.len(),
        forall|i: int| 0 <= i < delivered.len() ==> delivered[i] == (i != k),
    ensures
        kept(ids, delivered) == ids.remove(k),
        kept(ids, delivered).len() == ids.len() - 1,
        !kept(ids, delivered).contains(ids[k]),
    decreases ids.len(),
{
    if k == 0 {
        lemma_kept_all(ids.skip(1), delivered.skip(1));
        assert(ids.skip(1) =~= ids.remove(0));
    } else {
        lemma_reclaim_exactly_one(ids.skip(1), delivered.skip(1), k - 1);
        assert(seq![ids[0]] + ids.skip(1).remove(k - 1) =~= ids.remove(k));
    }
    let r = ids.remove(k);
    assert forall|i: int| 0 <= i < r.len() implies r[i] != ids[k] by {
        if i < k {
            assert(r[i] == ids[i]);
        } else {
            assert(r[i] == ids[i + 1]);
        }
    }
}

proof fn lemma_kept_all<A>(s: Seq<A>, d: Seq<bool>)
    requires
        d.len() == s.len(),
        forall|i: int| 0 <= i < d.len() ==> d[i],
    ensures
        kept(s, d) == s,
    decreases s.len(),
{
    if s.len() > 0 {
        lemma_kept_all(s.skip(1), d.skip(1));
        assert(seq![s[0]] + s.skip(1) =~= s);
    }
}

proof fn lemma_kept_step<A>(s: Seq<A>, d: Seq<bool>, j: int)
    requires
        0 <= j < s.len(),
        d.len() == s.len(),
    ensures
        kept(s.skip(j), d.skip(j)) == (if d[j] {
            seq![s[j]] + kept(s.skip(j + 1), d.skip(j + 1))
        } else {
            kept(s.skip(j + 1), d.skip(j + 1))
        }),
{
    assert(s.skip(j).skip(1) =~= s.skip(j + 1));
    assert(d.skip(j).skip(1) =~= d.skip(j + 1));
}

proof fn lemma_kept_len<A, B>(s: Seq<A>, t: Seq<B>, d: Seq<bool>)
    requires
        s.len() == t.len(),
    ensures
        kept(s, d).len() == kept(t, d).len(),
    decreases s.len(),
{
    if s.len() > 0 {
        lemma_kept_len(s.skip(1), t.skip(1), d.skip(1));
    }
}

proof fn lemma_without_absent(s: Seq<u64>, x: u64)
    requires
        !s.contains(x),
    ensures
        without(s, x) == s,
    decreases s.len(),
{
    reveal(Seq::filter);
    if s.len() > 0 {
        lemma_without_absent(s.drop_last(), x);
        assert(s.drop_last().push(s.last()) =~= s);
    }
}

proof fn lemma_without_at(s: Seq<u64>, k: int)
    requires
        strictly_increasing(s),
        0 <= k < s.len(),
    ensures
        without(s, s[k]) == s.remove(k),
    decreases s.len(),
{
    reveal(Seq::filter);
    let x = s[k];
    if k == s.len() - 1 {
        lemma_without_absent(s.drop_last(), x);
        assert(s.remove(k) =~= s.drop_last());
    } else {
        lemma_without_at(s.drop_last(), k);
        assert(s.drop_last().remove(k).push(s.last()) =~= s.remove(k));
    }
}

} // verus!

//! A fixed-capacity, append-only array.
//!
//! Appending follows a ticket protocol: a writer first reserves the next free
//! slot (its ticket), then fills that slot, and finally publishes it. Slots
//! become readable strictly in ticket order, so the readable prefix never
//! contains a slot that is still being written. Once all `N` slots have been
//! reserved, every further reservation fails with `ArrayFull`, for good.
use vstd::prelude::*;

verus! {

/// The only failure of an append: all `N` slots have been handed out.
#[derive(Debug, PartialEq, Eq, Structural)]
pub enum AppendArrayError {
    ArrayFull,
}

/// The outcome of one whole append on published contents `s` with capacity
/// `cap`, when no other slot is outstanding: the new contents and the result.
pub open spec fn append_step<T>(s: Seq<T>, cap: nat, x: T) -> (Seq<T>, Result<usize, AppendArrayError>) {
    if s.len() < cap {
        (s.push(x), Ok(s.len() as usize))
    } else {
        (s, Err(AppendArrayError::ArrayFull))
    }
}

/// The contents after appending each of `items` in turn to `s`.
pub open spec fn append_all<T>(s: Seq<T>, cap: nat, items: Seq<T>) -> Seq<T>
    decreases items.len(),
{
    if items.len() == 0 {
        s
    } else {
        append_step(append_all(s, cap, items.drop_last()), cap, items.last()).0
    }
}

/// The result of the `k`-th append when each of `items` is appended in turn to `s`.
pub open spec fn append_result<T>(s: Seq<T>, cap: nat, items: Seq<T>, k: int) -> Result<
    usize,
    AppendArrayError,
> {
    append_step(append_all(s, cap, items.take(k)), cap, items[k]).1
}

/// Appending `items` in turn to contents `s` that are within capacity keeps
/// `s` as a prefix, adds the items in order for as long as slots remain, and
/// drops the rest. The `k`-th append succeeds exactly when a slot remains for
/// it, and then returns the index `s.len() + k`.
pub proof fn lemma_append_all<T>(s: Seq<T>, cap: usize, items: Seq<T>)
    requires
        s.len() <= cap,
    ensures
        append_all(s, cap as nat, items) == s + items.take(
            vstd::math::min(items.len() as int, cap - s.len()),
        ),
        forall|k: int|
            #![trigger append_result(s, cap as nat, items, k)]
            0 <= k < items.len() ==> append_result(s, cap as nat, items, k) == if s.len() + k
                < cap {
                Ok::<usize, AppendArrayError>((s.len() + k) as usize)
            } else {
                Err::<usize, AppendArrayError>(AppendArrayError::ArrayFull)
            },
    decreases items.len(),
{
    let m = vstd::math::min(items.len() as int, cap - s.len());
    if items.len() == 0 {
        assert(s + items.take(m) =~= s);
    } else {
        let p = items.drop_last();
        lemma_append_all(s, cap, p);
        let mp = vstd::math::min(p.len() as int, cap - s.len());
        if mp < cap - s.len() {
            assert((s + p.take(mp)).push(items.last()) =~= s + items.take(m));
        } else {
            assert(s + p.take(mp) =~= s + items.take(m));
        }
    }
    assert forall|k: int| 0 <= k < items.len() implies append_result(s, cap as nat, items, k) == if s.len() + k < cap {
        Ok::<usize, AppendArrayError>((s.len() + k) as usize)
    } else {
        Err::<usize, AppendArrayError>(AppendArrayError::ArrayFull)
    } by {
        lemma_append_all(s, cap, items.take(k));
    }
}

/// From an empty array, the `k`-th of any run of appends succeeds exactly
/// when `k < cap`, and then returns index `k`: successful appends get the
/// indices `0, 1, 2, ...`, none skipped or repeated, and at most `cap` of them
/// succeed. The readable contents are then the first `min(len, cap)` items,
/// each at the index its append returned.
pub proof fn lemma_appends_from_empty<T>(cap: usize, items: Seq<T>)
    ensures
        append_all(Seq::empty(), cap as nat, items) == items.take(
            vstd::math::min(items.len() as int, cap as int),
        ),
        forall|k: int|
            #![trigger append_result(Seq::<T>::empty(), cap as nat, items, k)]
            0 <= k < items.len() ==> append_result(Seq::<T>::empty(), cap as nat, items, k) == if k
                < cap {
                Ok::<usize, AppendArrayError>(k as usize)
            } else {
                Err::<usize, AppendArrayError>(AppendArrayError::ArrayFull)
            },
{
    lemma_append_all(Seq::<T>::empty(), cap, items);
    assert(Seq::<T>::empty() + items.take(vstd::math::min(items.len() as int, cap as int))
        =~= items.take(vstd::math::min(items.len() as int, cap as int)));
}

/// Once `cap` elements are published, every further append fails with
/// `ArrayFull` and leaves the contents as they are, however many follow.
pub proof fn lemma_full_stays_full<T>(s: Seq<T>, cap: usize, items: Seq<T>)
    requires
        s.len() == cap,
    ensures
        append_all(s, cap as nat, items) == s,
        forall|k: int|
            #![trigger append_result(s, cap as nat, items, k)]
            0 <= k < items.len() ==> append_result(s, cap as nat, items, k) == Err::<
                usize,
                AppendArrayError,
            >(AppendArrayError::ArrayFull),
{
    lemma_append_all(s, cap, items);
    assert(s + items.take(0) =~= s);
}

/// Exclusive right to fill and publish one slot of an `AppendArray`.
///
/// A ticket cannot be cloned, so each reserved slot has exactly one writer.
pub struct Ticket {
    index: usize,
}

impl Ticket {
    pub closed spec fn spec_index(&self) -> nat {
        self.index as nat
    }

    /// The slot this ticket grants.
    pub fn index(&self) -> (r: usize)
        ensures
            r == self.spec_index(),
    {
        self.index
    }
}

/// An append-only array that holds at most `N` elements.
///
/// `published` is the readable prefix: slots `0 .. published.len()`.
/// `pending` holds the slots that are reserved but not yet published, in
/// ticket order: `pending[j]` is slot `published.len() + j`, and is `None`
/// while its writer has not filled it yet.
pub struct AppendArray<T, const N: usize> {
    published: Vec<T>,
    pending: Vec<Option<T>>,
}

impl<T, const N: usize> View for AppendArray<T, N> {
    type V = Seq<T>;

    /// The published elements, in index order.
    closed spec fn view(&self) -> Seq<T> {
        self.published@
    }
}

impl<T, const N: usize> AppendArray<T, N> {
    /// The number of slots reserved so far (the next ticket to hand out).
    pub closed spec fn reserved(&self) -> nat {
        (self.published@.len() + self.pending@.len()) as nat
    }

    /// Whether the reserved slot `i` has been filled by its writer.
    pub closed spec fn filled(&self, i: int) -> bool {
        let j = i - self.published@.len();
        if 0 <= j < self.pending@.len() {
            self.pending@[j] is Some
        } else {
            0 <= i < self.published@.len()
        }
    }

    /// The value written into the reserved slot `i`.
    pub closed spec fn slot_value(&self, i: int) -> T
        recommends
            self.filled(i),
    {
        let j = i - self.published@.len();
        if 0 <= j < self.pending@.len() {
            self.pending@[j]->Some_0
        } else {
            self.published@[i]
        }
    }

    /// Published slots never outnumber reserved ones, and reservations never
    /// exceed the capacity.
    pub open spec fn wf(&self) -> bool {
        &&& self@.len() <= self.reserved() <= N
    }

    /// Slots that are reserved but not yet published.
    pub open spec fn outstanding(&self) -> nat {
        (self.reserved() - self@.len()) as nat
    }

    /// `other` agrees with `self` on every slot that `self` has reserved but
    /// `except`: on whether it is filled and on what it holds.
    pub open spec fn keeps_slots(&self, other: &Self, except: int) -> bool {
        forall|i: int|
            #![trigger other.filled(i)]
            0 <= i < self.reserved() && i != except ==> (other.filled(i) == self.filled(i) && (
            self.filled(i) ==> other.slot_value(i) == self.slot_value(i)))
    }

    /// The capacity `N`.
    pub fn capacity(&self) -> (r: usize)
        ensures
            r == N,
    {
        N
    }

    /// The number of published (readable) elements.
    pub fn len(&self) -> (r: usize)
        ensures
            r == self@.len(),
    {
        self.published.len()
    }

    /// Whether nothing has been published yet.
    pub fn is_empty(&self) -> (r: bool)
        ensures
            r == (self@.len() == 0),
    {
        self.published.len() == 0
    }

    /// Whether every slot has been reserved, so that appends now fail.
    pub fn is_full(&self) -> (r: bool)
        requires
            self.wf(),
        ensures
            r == (self.reserved() == N),
    {
        self.published.len() + self.pending.len() == N
    }

    /// The published elements, in index order.
    pub fn as_slice(&self) -> (r: &[T])
        ensures
            r@ == self@,
    {
        self.published.as_slice()
    }

    /// The published element at index `i`, if there is one.
    pub fn get(&self, i: usize) -> (r: Option<&T>)
        ensures
            i < self@.len() ==> r == Some(&self@[i as int]),
            i >= self@.len() ==> r is None,
    {
        if i < self.published.len() {
            Some(&self.published[i])
        } else {
            None
        }
    }

    /// The most recently published element, if any.
    pub fn last(&self) -> (r: Option<&T>)
        ensures
            self@.len() > 0 ==> r == Some(&self@.last()),
            self@.len() == 0 ==> r is None,
    {
        let n = self.published.len();
        if n > 0 {
            Some(&self.published[n - 1])
        } else {
            None
        }
    }

    /// Whether some published element equals `x`.
    pub fn contains(&self, x: &T) -> (r: bool)
        where
            T: PartialEq + vstd::std_specs::cmp::PartialEqSpec,
        ensures
            T::obeys_eq_spec() ==> (r == exists|i: int|
                0 <= i < self@.len() && #[trigger] self@[i].eq_spec(x)),
    {
        let n = self.published.len();
        let mut i: usize = 0;
        while i < n
            invariant
                n == self@.len(),
                i <= n,
                T::obeys_eq_spec() ==> forall|k: int| 0 <= k < i ==> !#[trigger] self@[k].eq_spec(x),
            decreases n - i,
        {
            if self.published[i] == *x {
                return true;
            }
            i = i + 1;
        }
        false
    }

    /// Reserves the next free slot. Fails with `ArrayFull` exactly when all
    /// `N` slots are already reserved; the array is then left as it was.
    pub fn reserve(&mut self) -> (r: Result<Ticket, AppendArrayError>)
        requires
            old(self).wf(),
        ensures
            final(self).wf(),
            final(self)@ == old(self)@,
            match r {
                Ok(t) => {
                    &&& old(self).reserved() < N
                    &&& t.spec_index() == old(self).reserved()
                    &&& final(self).reserved() == old(self).reserved() + 1
                    &&& !final(self).filled(t.spec_index() as int)
                    &&& old(self).keeps_slots(final(self), -1)
                },
                Err(e) => old(self).reserved() == N && *final(self) == *old(self),
            },
    {
        let ticket = self.published.len() + self.pending.len();
        if ticket >= N {
            return Err(AppendArrayError::ArrayFull);
        }
        self.pending.push(None);
        Ok(Ticket { index: ticket })
    }

    /// Writes `item` into the slot that `ticket` reserved. Nothing becomes
    /// readable until the ticket is published.
    pub fn fill(&mut self, ticket: &Ticket, item: T)
        requires
            old(self).wf(),
            old(self)@.len() <= ticket.spec_index() < old(self).reserved(),
            !old(self).filled(ticket.spec_index() as int),
        ensures
            final(self).wf(),
            final(self)@ == old(self)@,
            final(self).reserved() == old(self).reserved(),
            final(self).filled(ticket.spec_index() as int),
            final(self).slot_value(ticket.spec_index() as int) == item,
            old(self).keeps_slots(final(self), ticket.spec_index() as int),
    {
        let j = ticket.index - self.published.len();
        self.pending.set(j, Some(item));
    }

    /// Publishes the filled slot of `ticket`, which succeeds only when every
    /// earlier slot is already published: slots become readable strictly in
    /// ticket order. Otherwise the ticket is handed back and nothing changes,
    /// and its holder must wait for the earlier writers.
    pub fn publish(&mut self, ticket: Ticket) -> (r: Result<usize, Ticket>)
        requires
            old(self).wf(),
            old(self)@.len() <= ticket.spec_index() < old(self).reserved(),
            old(self).filled(ticket.spec_index() as int),
        ensures
            final(self).wf(),
            final(self).reserved() == old(self).reserved(),
            match r {
                Ok(i) => {
                    &&& ticket.spec_index() == old(self)@.len()
                    &&& i == ticket.spec_index()
                    &&& final(self)@ == old(self)@.push(old(self).slot_value(i as int))
                    &&& old(self).keeps_slots(final(self), -1)
                },
                Err(t) => {
                    &&& ticket.spec_index() != old(self)@.len()
                    &&& t.spec_index() == ticket.spec_index()
                    &&& *final(self) == *old(self)
                },
            },
    {
        if ticket.index != self.published.len() {
            return Err(ticket);
        }
        let slot = self.pending.remove(0);
        match slot {
            Some(item) => {
                self.published.push(item);
                Ok(ticket.index)
            },
            // Not reached: a published ticket's slot was filled first.
            None => Err(ticket),
        }
    }

    /// Appends `item` and returns its index, or `ArrayFull` when all `N`
    /// slots are taken. The element is readable as soon as this returns.
    pub fn append(&mut self, item: T) -> (r: Result<usize, AppendArrayError>)
        requires
            old(self).wf(),
            old(self).outstanding() == 0,
        ensures
            final(self).wf(),
            final(self).outstanding() == 0,
            (final(self)@, r) == append_step(old(self)@, N as nat, item),
    {
        match self.reserve() {
            Ok(ticket) => {
                self.fill(&ticket, item);
                match self.publish(ticket) {
                    Ok(i) => Ok(i),
                    Err(_) => Err(AppendArrayError::ArrayFull),
                }
            },
            Err(e) => Err(e),
        }
    }

    /// An empty array with capacity `N`.
    pub fn new() -> (r: Self)
        ensures
            r.wf(),
            r@ == Seq::<T>::empty(),
            r.reserved() == 0,
    {
        AppendArray { published: Vec::new(), pending: Vec::new() }
    }
}

impl<T, const N: usize> Default for AppendArray<T, N> {
    /// An empty array with capacity `N`.
    fn default() -> (r: Self)
        ensures
            r.wf(),
            r@ == Seq::<T>::empty(),
            r.reserved() == 0,
    {
        Self::new()
    }
}

} // verus!

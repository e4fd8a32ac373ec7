use std::collections::hash_map::RandomState;
use std::collections::{HashSet, VecDeque};
use std::hash::Hash;
use vstd::prelude::*;
use vstd::pervasive::strictly_cloned;
use vstd::std_specs::hash::{builds_valid_hashers, obeys_key_model};

verus! {

broadcast use vstd::std_specs::hash::group_hash_axioms;

/// The element types for which the queue's set semantics can be stated:
/// hashing is deterministic, executable `==` is identity and a clone is
/// identical to its source (every primitive integer type qualifies).
pub open spec fn obeys_item_model<T: Clone>() -> bool {
    &&& obeys_key_model::<T>()
    &&& builds_valid_hashers::<RandomState>()
    &&& forall|a: T, b: T| #[trigger] strictly_cloned(a, b) ==> a == b
}

/// Room for `n` elements fits the address space with a wide margin: at
/// most `isize::MAX` bytes, counted as eight slots of one more byte than an
/// element for every element asked for, and sixteen more. The deque and the
/// hash set both refuse, by panicking, a request whose allocation would
/// pass `isize::MAX` bytes; the hash set rounds its slots up to a power of
/// two above 8/7 of the request and keeps a control byte per slot, and a
/// reservation may double what is there.
pub open spec fn capacity_fits<T>(n: int) -> bool {
    8 * (n + 16) * (vstd::layout::size_of::<T>() + 1) <= isize::MAX
}

/// The queue after `push_back(x)` for an element type that obeys the item
/// model: `x` joins the back unless it is already queued.
pub open spec fn pushed<T>(q: Seq<T>, x: T) -> Seq<T> {
    if q.contains(x) {
        q
    } else {
        q.push(x)
    }
}

/// The queue after pushing each element of `xs`, in order, onto `q`.
pub open spec fn pushed_all<T>(q: Seq<T>, xs: Seq<T>) -> Seq<T>
    decreases xs.len(),
{
    if xs.len() == 0 {
        q
    } else {
        pushed(pushed_all(q, xs.drop_last()), xs.last())
    }
}

/// A data structure that combines a queue (FIFO) with set semantics (no duplicates).
/// Elements can only be removed from the front and added to the back.
/// Duplicate insertions are prevented.
#[derive(Debug)]
pub struct QueueSet<T> where T: Hash + Eq + Clone {
    queue: VecDeque<T>,
    set: HashSet<T>,
}

impl<T> View for QueueSet<T> where T: Hash + Eq + Clone {
    type V = Seq<T>;

    /// The elements, front first.
    closed spec fn view(&self) -> Seq<T> {
        self.queue@
    }
}

impl<T> QueueSet<T> where T: Hash + Eq + Clone {
    /// Well-formedness: the lookup set holds exactly the queued elements and
    /// no element is queued twice.
    pub closed spec fn wf(&self) -> bool {
        obeys_item_model::<T>() ==> {
            &&& self.set@ == self.queue@.to_set()
            &&& self.queue@.no_duplicates()
        }
    }

    /// Creates a new empty QueueSet.
    pub fn new() -> (r: Self)
        ensures
            r.wf(),
            r@ == Seq::<T>::empty(),
    {
        let r = Self { queue: VecDeque::new(), set: HashSet::new() };
        assert(r.queue@.to_set() =~= Set::empty());
        r
    }

    /// The number of members of the lookup set; it is `self@.len()` for
    /// element types that obey the item model (`lemma_lookup_len`).
    pub closed spec fn lookup_len(&self) -> nat {
        self.set.len() as nat
    }

    /// Creates a new QueueSet with the specified capacity.
    pub fn with_capacity(capacity: usize) -> (r: Self)
        requires
            capacity_fits::<T>(capacity as int),
        ensures
            r.wf(),
            r@ == Seq::<T>::empty(),
    {
        let r = Self { queue: VecDeque::with_capacity(capacity), set: HashSet::with_capacity(capacity) };
        assert(r.queue@.to_set() =~= Set::empty());
        r
    }

    /// Adds an element to the back of the queue.
    /// Returns `true` if the element was newly inserted, `false` if it was already present.
    pub fn push_back(&mut self, value: T) -> (inserted: bool)
        requires
            old(self).wf(),
        ensures
            final(self).wf(),
            inserted ==> final(self)@ == old(self)@.push(value),
            !inserted ==> final(self)@ == old(self)@,
            obeys_item_model::<T>() ==> inserted == !old(self)@.contains(value),
            obeys_item_model::<T>() ==> final(self)@ == pushed(old(self)@, value),
    {
        let copy = value.clone();
        if self.set.insert(copy) {
            proof {
                if obeys_item_model::<T>() {
                    assert(strictly_cloned(value, copy));
                }
            }
            self.queue.push_back(value);
            proof {
                if obeys_item_model::<T>() {
                    old(self).queue@.lemma_push_to_set_commute(value);
                    assert(!old(self).queue@.contains(value));
                    assert(self.queue@.to_set() == old(self).queue@.to_set().insert(value));
                    assert(self.set@ == old(self).set@.insert(value));
                    assert(self.queue@.no_duplicates()) by {
                        assert forall|i: int, j: int|
                            0 <= i < self.queue@.len() && 0 <= j < self.queue@.len() && i != j
                            implies self.queue@[i] != self.queue@[j] by {
                            if i == old(self).queue@.len() as int {
                                assert(old(self).queue@.contains(self.queue@[j]));
                            } else if j == old(self).queue@.len() as int {
                                assert(old(self).queue@.contains(self.queue@[i]));
                            }
                        }
                    }
                }
            }
            true
        } else {
            proof {
                if obeys_item_model::<T>() {
                    assert(strictly_cloned(value, copy));
                    assert(old(self).queue@.to_set().contains(value));
                    assert(self.set@ =~= old(self).set@);
                }
            }
            false
        }
    }

    /// Removes and returns the element at the front of the queue.
    /// Returns `None` if the queue is empty.
    pub fn pop_front(&mut self) -> (front: Option<T>)
        requires
            old(self).wf(),
        ensures
            final(self).wf(),
            old(self)@.len() == 0 ==> front is None && final(self)@ == old(self)@,
            old(self)@.len() > 0 ==> front == Some(old(self)@[0]) && final(self)@ == old(self)@.drop_first(),
    {
        if let Some(value) = self.queue.pop_front() {
            self.set.remove(&value);
            proof {
                if obeys_item_model::<T>() {
                    let q = old(self).queue@;
                    assert(q == seq![value] + self.queue@);
                    assert(!self.queue@.contains(value));
                    assert(self.queue@.to_set() =~= q.to_set().remove(value));
                }
            }
            Some(value)
        } else {
            None
        }
    }

    /// Returns a reference to the element at the front of the queue without removing it.
    /// Returns `None` if the queue is empty.
    pub fn front(&self) -> (r: Option<&T>)
        ensures
            self@.len() == 0 ==> r is None,
            self@.len() > 0 ==> r == Some(&self@[0]),
    {
        if self.queue.len() == 0 {
            None
        } else {
            Some(&self.queue[0])
        }
    }

    /// Returns a reference to the element at the back of the queue without removing it.
    /// Returns `None` if the queue is empty.
    pub fn back(&self) -> (r: Option<&T>)
        ensures
            self@.len() == 0 ==> r is None,
            self@.len() > 0 ==> r == Some(&self@.last()),
    {
        let n = self.queue.len();
        if n == 0 {
            None
        } else {
            Some(&self.queue[n - 1])
        }
    }

    /// Returns `true` if the queue contains the specified value.
    pub fn contains(&self, value: &T) -> (r: bool)
        requires
            self.wf(),
        ensures
            obeys_item_model::<T>() ==> r == self@.contains(*value),
    {
        self.set.contains(value)
    }

    /// Returns the number of elements in the queue.
    pub fn len(&self) -> (n: usize)
        ensures
            n == self@.len(),
    {
        self.queue.len()
    }

    /// Returns `true` if the queue is empty.
    pub fn is_empty(&self) -> (r: bool)
        ensures
            r == (self@.len() == 0),
    {
        self.queue.len() == 0
    }

    /// Removes all elements from the queue.
    pub fn clear(&mut self)
        ensures
            final(self).wf(),
            final(self)@ == Seq::<T>::empty(),
    {
        self.queue.clear();
        self.set.clear();
        assert(self.queue@.to_set() =~= Set::empty());
    }

    /// Returns the element at the specified index, or `None` if out of bounds.
    pub fn get(&self, index: usize) -> (r: Option<&T>)
        ensures
            index < self@.len() ==> r == Some(&self@[index as int]),
            index >= self@.len() ==> r is None,
    {
        if index < self.queue.len() {
            Some(&self.queue[index])
        } else {
            None
        }
    }

    /// Shrinks the capacity of the queue as much as possible.
    pub fn shrink_to_fit(&mut self)
        requires
            old(self).wf(),
        ensures
            final(self).wf(),
            final(self)@ == old(self)@,
    {
        shrink_deque(&mut self.queue);
        shrink_set(&mut self.set);
    }

    /// Reserves capacity for at least `additional` more elements.
    pub fn reserve(&mut self, additional: usize)
        requires
            old(self).wf(),
            capacity_fits::<T>(old(self)@.len() + additional),
            capacity_fits::<T>(old(self).lookup_len() + additional),
        ensures
            final(self).wf(),
            final(self)@ == old(self)@,
    {
        self.queue.reserve(additional);
        self.set.reserve(additional);
    }
}

impl<T> Default for QueueSet<T> where T: Hash + Eq + Clone {
    fn default() -> (r: Self)
        ensures
            r.wf(),
            r@ == Seq::<T>::empty(),
    {
        Self::new()
    }
}

impl<T> Clone for QueueSet<T> where T: Hash + Eq + Clone {
    /// Copies the queue element by element, front first.
    fn clone(&self) -> (r: Self)
        ensures
            r.wf(),
            self.wf() && obeys_item_model::<T>() ==> r@ == self@,
    {
        let n = self.queue.len();
        let mut r = Self::new();
        let mut i: usize = 0;
        while i < n
            invariant
                n == self@.len(),
                i <= n,
                r.wf(),
                self.wf() && obeys_item_model::<T>() ==> r@ == self@.subrange(0, i as int),
            decreases n - i,
        {
            let item = self.queue[i].clone();
            proof {
                if self.wf() && obeys_item_model::<T>() {
                    assert(strictly_cloned(self@[i as int], item));
                    assert(!self@.subrange(0, i as int).contains(item));
                }
            }
            r.push_back(item);
            proof {
                if self.wf() && obeys_item_model::<T>() {
                    assert(self@.subrange(0, i + 1) =~= self@.subrange(0, i as int).push(item));
                }
            }
            i = i + 1;
        }
        proof {
            if self.wf() && obeys_item_model::<T>() {
                assert(self@.subrange(0, n as int) =~= self@);
            }
        }
        r
    }
}

/// Every element that stays queued is queued exactly once.
pub proof fn lemma_queued_elements_are_distinct<T: Hash + Eq + Clone>(qs: QueueSet<T>)
    requires
        qs.wf(),
        obeys_item_model::<T>(),
    ensures
        qs@.no_duplicates(),
{
}

/// First in, first out: pushing to the back never changes the front, and
/// after a push the remaining elements leave in the order they came.
pub proof fn lemma_push_keeps_fifo_order<T>(s: Seq<T>, x: T)
    requires
        s.len() > 0,
    ensures
        s.push(x)[0] == s[0],
        s.push(x).drop_first() == s.drop_first().push(x),
{
    assert(s.push(x).drop_first() =~= s.drop_first().push(x));
}

/// First in, first out: pushing distinct elements onto an empty queue, in
/// order, queues them in that order, and popping then gives them back in
/// that order. The `k`-th pop returns `xs[k]` and leaves the elements after
/// it; after `xs.len()` pops the queue is empty.
pub proof fn lemma_fifo_round_trip<T>(xs: Seq<T>)
    requires
        xs.no_duplicates(),
    ensures
        pushed_all(Seq::<T>::empty(), xs) == xs,
        forall|k: int|
            0 <= k < xs.len() ==> #[trigger] xs.skip(k)[0] == xs[k] && xs.skip(k).drop_first() == xs.skip(
                k + 1,
            ),
        xs.skip(xs.len() as int) == Seq::<T>::empty(),
    decreases xs.len(),
{
    if xs.len() > 0 {
        let init = xs.drop_last();
        assert(init.no_duplicates());
        lemma_fifo_round_trip(init);
        assert(!init.contains(xs.last())) by {
            if init.contains(xs.last()) {
                let j = choose|j: int| 0 <= j < init.len() && init[j] == xs.last();
                assert(xs[j] == xs[xs.len() - 1]);
            }
        }
        assert(init.push(xs.last()) =~= xs);
    }
    assert forall|k: int| 0 <= k < xs.len() implies #[trigger] xs.skip(k)[0] == xs[k] && xs.skip(
        k,
    ).drop_first() == xs.skip(k + 1) by {
        assert(xs.skip(k).drop_first() =~= xs.skip(k + 1));
    }
    assert(xs.skip(xs.len() as int) =~= Seq::<T>::empty());
}

/// The lookup set holds one member per queued element.
pub proof fn lemma_lookup_len<T: Hash + Eq + Clone>(qs: QueueSet<T>)
    requires
        qs.wf(),
        obeys_item_model::<T>(),
    ensures
        qs.lookup_len() == qs@.len(),
{
    broadcast use vstd::std_specs::hash::axiom_spec_hash_set_len;

    qs.queue@.unique_seq_to_set();
}

/// Port numbers (`u16`) obey the item model, so a `QueueSet<u16>` has the full
/// set semantics.
pub proof fn lemma_u16_obeys_item_model()
    ensures
        obeys_item_model::<u16>(),
{
    assert forall|a: u16, b: u16| #[trigger] strictly_cloned(a, b) implies a == b by {}
}

/// `VecDeque::shrink_to_fit` only releases spare capacity: the elements are unchanged.
#[verifier::external_body]
fn shrink_deque<T>(q: &mut VecDeque<T>)
    ensures
        final(q)@ == old(q)@,
{
    q.shrink_to_fit();
}

/// `HashSet::shrink_to_fit` only releases spare capacity: the members are unchanged.
#[verifier::external_body]
fn shrink_set<T: Hash + Eq>(s: &mut HashSet<T>)
    ensures
        final(s)@ == old(s)@,
{
    s.shrink_to_fit();
}

} // verus!

//! A fixed capacity first-in first-out ring buffer.
use vstd::prelude::*;

verus! {

/// The buffer was full.
pub struct PushError;

/// Advances a ring index by one, wrapping at `container_size`.
pub fn wrapping_increment(i: &mut usize, container_size: usize)
    requires
        container_size > 0,
        *old(i) < container_size,
    ensures
        *final(i) == (*old(i) + 1) % (container_size as int),
        *final(i) == if *old(i) + 1 < container_size {
            *old(i) + 1
        } else {
            0
        },
{
    proof {
        if *i + 1 < container_size {
            vstd::arithmetic::div_mod::lemma_small_mod((*i + 1) as nat, container_size as nat);
        } else {
            vstd::arithmetic::div_mod::lemma_mod_self_0(container_size as int);
        }
    }
    *i = (*i + 1) % container_size
}

/// What pushing `item` onto a buffer of capacity `cap` that holds `s` gives: the items
/// afterwards and whether the push was taken.
pub open spec fn push_effect<T>(s: Seq<T>, item: T, cap: nat) -> (Seq<T>, bool) {
    if s.len() < cap {
        (s.push(item), true)
    } else {
        (s, false)
    }
}

/// Pushing `items` one after the other onto a buffer of capacity `cap` that holds `s`:
/// the items afterwards and, for each push, whether it was taken.
pub open spec fn push_all<T>(s: Seq<T>, items: Seq<T>, cap: nat) -> (Seq<T>, Seq<bool>)
    decreases items.len(),
{
    if items.len() == 0 {
        (s, Seq::empty())
    } else {
        let before = push_all(s, items.drop_last(), cap);
        let after = push_effect(before.0, items.last(), cap);
        (after.0, before.1.push(after.1))
    }
}

/// A new buffer of capacity `cap` takes exactly the first `cap` of the items pushed
/// onto it, in order, and refuses every later one.
pub proof fn law_new_buffer_takes_exactly_capacity<T>(items: Seq<T>, cap: nat)
    ensures
        push_all(Seq::<T>::empty(), items, cap).0 == items.take(
            if items.len() <= cap { items.len() as int } else { cap as int },
        ),
        push_all(Seq::<T>::empty(), items, cap).1 == Seq::new(items.len(), |i: int| i < cap),
    decreases items.len(),
{
    if items.len() > 0 {
        let rest = items.drop_last();
        law_new_buffer_takes_exactly_capacity(rest, cap);
        if rest.len() < cap {
            assert(rest.take(rest.len() as int).push(items.last()) =~= items.take(
                items.len() as int,
            ));
        } else {
            assert(rest.take(cap as int) =~= items.take(cap as int));
        }
        assert(push_all(Seq::<T>::empty(), items, cap).1 =~= Seq::new(
            items.len(),
            |i: int| i < cap,
        ));
    } else {
        assert(items.take(0) =~= Seq::<T>::empty());
        assert(Seq::new(0, |i: int| i < cap) =~= Seq::<bool>::empty());
    }
}

/// A ring buffer holding at most `N` items. `tail` is the slot the next item goes
/// to, or `N + 1` while the buffer is full.
pub struct CircularArray<T, const N: usize> {
    array: Vec<Option<T>>,
    head: usize,
    tail: usize,
}

impl<T, const N: usize> CircularArray<T, N> {
    /// Number of items stored.
    pub closed spec fn count(&self) -> nat {
        if self.tail == N + 1 {
            N as nat
        } else if self.tail >= self.head {
            (self.tail - self.head) as nat
        } else {
            (self.tail + N - self.head) as nat
        }
    }

    /// Slot of the `i`-th item from the front.
    closed spec fn slot(&self, i: int) -> int {
        if self.head + i < N {
            self.head + i
        } else {
            self.head + i - N
        }
    }

    /// Position from the front of the item in slot `k`.
    closed spec fn offset(&self, k: int) -> int {
        if k >= self.head {
            k - self.head
        } else {
            k + N - self.head
        }
    }

    /// Whether the slots and indices describe a queue.
    pub closed spec fn wf(&self) -> bool {
        &&& N < usize::MAX
        &&& self.array@.len() == N
        &&& if N == 0 {
            self.head == 0 && self.tail == 0
        } else {
            &&& self.head < N
            &&& self.tail < N || self.tail == N + 1
            &&& forall|k: int|
                0 <= k < N ==> (#[trigger] self.array@[k] is Some <==> self.offset(k)
                    < self.count())
        }
    }

    /// The items, oldest first.
    pub closed spec fn view(&self) -> Seq<T> {
        Seq::new(self.count(), |i: int| self.array@[self.slot(i)].unwrap())
    }

    /// An empty buffer.
    pub fn new() -> (r: Self)
        requires
            N < usize::MAX,
        ensures
            r.wf(),
            r.view() == Seq::<T>::empty(),
    {
        let mut array: Vec<Option<T>> = Vec::new();
        let mut i: usize = 0;
        while i < N
            invariant
                i <= N,
                array@.len() == i,
                forall|k: int| 0 <= k < i ==> #[trigger] array@[k] is None,
            decreases N - i,
        {
            array.push(None);
            i += 1;
        }
        let r = Self { array, head: 0, tail: 0 };
        assert(r.view() =~= Seq::<T>::empty());
        r
    }

    /// Takes the oldest item out, or `None` when the buffer is empty.
    pub fn pop_front(&mut self) -> (r: Option<T>)
        requires
            old(self).wf(),
        ensures
            final(self).wf(),
            old(self).view().len() == 0 ==> r is None && final(self).view() == old(self).view(),
            old(self).view().len() > 0 ==> r == Some(old(self).view()[0]) && final(self).view()
                == old(self).view().drop_first(),
    {
        let index = self.head;

        if self.head == self.tail {
            return None;
        }

        wrapping_increment(&mut self.head, N);

        if self.tail == N + 1 {
            self.tail = index;
        }

        let mut ret: Option<T> = None;
        self.array.set_and_swap(index, &mut ret);
        match ret {
            Some(v) => Some(v),
            None => None,
        }
    }

    fn increment_tail(&mut self) -> (r: Option<usize>)
        requires
            N > 0,
            old(self).wf(),
        ensures
            old(self).tail == N + 1 ==> r is None && *final(self) == *old(self),
            old(self).tail != N + 1 ==> {
                let next = if old(self).tail + 1 < N {
                    old(self).tail + 1
                } else {
                    0
                };
                &&& final(self).array == old(self).array
                &&& final(self).head == old(self).head
                &&& final(self).tail == if next == old(self).head {
                    N + 1
                } else {
                    next
                }
                &&& r == Some(final(self).tail)
            },
    {
        if self.tail == N + 1 {
            return None;
        }

        wrapping_increment(&mut self.tail, N);
        if self.tail == self.head {
            self.tail = N + 1;
        }

        Some(self.tail)
    }

    /// Adds `item` after the newest one, or gives back an error when the buffer holds
    /// `N` items already.
    pub fn push_back(&mut self, item: T) -> (r: Result<(), PushError>)
        requires
            N > 0,
            old(self).wf(),
        ensures
            final(self).wf(),
            old(self).view().len() == N ==> r is Err && final(self).view() == old(self).view(),
            old(self).view().len() < N ==> r is Ok && final(self).view() == old(self).view().push(
                item,
            ),
            (final(self).view(), r is Ok) == push_effect(old(self).view(), item, N as nat),
    {
        let insertion_index = self.tail;
        match self.increment_tail() {
            Some(tail) => self.tail = tail,
            None => return Err(PushError),
        }

        let ghost before = *old(self);
        self.array.set(insertion_index, Some(item));
        proof {
            assert(before.offset(insertion_index as int) == before.count());
            assert(self.count() == before.count() + 1);
            assert forall|k: int| 0 <= k < N implies (#[trigger] self.array@[k] is Some
                <==> self.offset(k) < self.count()) by {
                if k != insertion_index {
                    assert(self.array@[k] == before.array@[k]);
                }
            }
            assert forall|i: int| 0 <= i < before.count() implies before.offset(before.slot(i))
                == i && before.slot(i) != insertion_index by {}
            assert(self.view() =~= before.view().push(item));
        }

        Ok(())
    }
}

} // verus!

//! A fixed-capacity FIFO ring buffer with reject-on-full semantics and
//! positional peek. The backing store grows lazily up to the capacity and is
//! then reused in place; the logical contents, oldest first, are the view.

use vstd::prelude::*;
use vstd::string::*;

use crate::json_display::{chunk_chars, join_chars, lemma_join_push, rendered_parts, JsonDisplay};

verus! {

/// A bounded FIFO queue over a circular backing store.
///
/// `first` is the read position, `last` the write position, `valid_items` the
/// number of retained items, and `max_items` the immutable capacity. While the
/// backing store is still growing (`data.len() < max_items`) no wrap-around has
/// happened yet, so `last` always equals `data.len()` and the live region is
/// `first..last`. Once the store is full, positions wrap modulo `max_items`.
pub struct CircularBuffer<T> {
    first: usize,
    last: usize,
    valid_items: usize,
    data: Vec<T>,
    max_items: usize,
}

impl<T> CircularBuffer<T> {
    /// The physical slot that holds the `i`-th oldest item: the read position
    /// advanced by `i`, wrapped once past the capacity.
    closed spec fn slot(self, i: int) -> int {
        if self.first + i < self.max_items {
            self.first + i
        } else {
            self.first + i - self.max_items
        }
    }

    /// Internal consistency of the three indices and the backing store.
    pub closed spec fn wf(self) -> bool {
        &&& self.data.len() <= self.max_items
        &&& self.valid_items <= self.max_items
        &&& (self.data.len() < self.max_items ==> {
            &&& self.last == self.data.len()
            &&& self.first <= self.last
            &&& self.first + self.valid_items == self.last
        })
        &&& (self.data.len() == self.max_items && self.max_items > 0 ==> {
            &&& self.first < self.max_items
            &&& self.last < self.max_items
            &&& self.last == self.slot(self.valid_items as int)
        })
        &&& (self.max_items == 0 ==> self.first == 0 && self.last == 0)
    }

    /// The capacity the buffer was created with.
    pub closed spec fn capacity(self) -> nat {
        self.max_items as nat
    }

    /// A consistent buffer never retains more items than its capacity.
    pub proof fn lemma_len_bounded(self)
        requires
            self.wf(),
        ensures
            self@.len() <= self.capacity(),
    {
    }

    pub fn new(size: usize) -> (r: CircularBuffer<T>)
        ensures
            r.wf(),
            r@ == Seq::<T>::empty(),
            r.capacity() == size,
    {
        let r = CircularBuffer {
            first: 0,
            last: 0,
            valid_items: 0,
            data: Vec::<T>::with_capacity(size),
            max_items: size,
        };
        proof {
            assert(r@ =~= Seq::<T>::empty());
        }
        r
    }

    pub fn is_empty(&self) -> (r: bool)
        ensures
            r == (self@.len() == 0),
    {
        self.valid_items == 0
    }

    pub fn get_nb_items(&self) -> (r: usize)
        ensures
            r == self@.len(),
    {
        self.valid_items
    }

    /// Stores `item_value` at the write position unless the buffer is full.
    /// A full buffer refuses the item and stays unchanged.
    pub fn put_item(&mut self, item_value: T) -> (r: bool)
        requires
            old(self).wf(),
        ensures
            final(self).wf(),
            final(self).capacity() == old(self).capacity(),
            old(self)@.len() == old(self).capacity() ==> !r && final(self)@ == old(self)@,
            old(self)@.len() < old(self).capacity() ==> r && final(self)@ == old(self)@.push(
                item_value,
            ),
            (final(self)@, r) == push_model(old(self)@, old(self).capacity(), item_value),
    {
        if self.valid_items >= self.max_items {
            proof {
                assert(final(self)@ =~= old(self)@);
            }
            false
        } else {
            let ghost pre = *self;
            self.valid_items = self.valid_items + 1;
            if self.data.len() < self.max_items {
                self.data.push(item_value);
            } else {
                self.data.set(self.last, item_value);
            }
            self.last = if self.last + 1 == self.max_items {
                0
            } else {
                self.last + 1
            };
            proof {
                assert(final(self)@ =~= pre@.push(item_value));
            }
            true
        }
    }

    /// Removes and returns the oldest item, or `None` if the buffer is empty.
    pub fn get_item(&mut self) -> (r: Option<T>) where T: Copy
        requires
            old(self).wf(),
        ensures
            final(self).wf(),
            final(self).capacity() == old(self).capacity(),
            old(self)@.len() == 0 ==> r is None && final(self)@ == old(self)@,
            old(self)@.len() > 0 ==> r == Some(old(self)@[0]) && final(self)@ == old(
                self,
            )@.skip(1),
            (final(self)@, r) == pop_model(old(self)@),
    {
        if self.valid_items == 0 {
            None
        } else {
            let ghost pre = *self;
            let index = self.first;
            self.first = if self.first + 1 == self.max_items {
                0
            } else {
                self.first + 1
            };
            self.valid_items = self.valid_items - 1;
            proof {
                assert(final(self)@ =~= pre@.skip(1));
            }
            Some(self.data[index])
        }
    }

    /// Returns the item `index` positions ahead of the read position without
    /// removing it, or `None` if fewer than `index + 1` items are retained.
    pub fn peek_item(&self, index: usize) -> (r: Option<T>) where T: Copy
        requires
            self.wf(),
        ensures
            index < self@.len() ==> r == Some(self@[index as int]),
            index >= self@.len() ==> r is None,
    {
        if index < self.valid_items {
            let internal_index = if index < self.max_items - self.first {
                self.first + index
            } else {
                index - (self.max_items - self.first)
            };
            Some(self.data[internal_index])
        } else {
            None
        }
    }
}

/// What one offered item does to buffer contents `s` at capacity `cap`: the
/// new contents and whether the item was accepted, exactly as `put_item`
/// ensures it.
pub open spec fn push_model<T>(s: Seq<T>, cap: nat, x: T) -> (Seq<T>, bool) {
    if s.len() < cap {
        (s.push(x), true)
    } else {
        (s, false)
    }
}

/// What one removal does to buffer contents `s`: the new contents and the
/// returned item, exactly as `get_item` ensures it.
pub open spec fn pop_model<T>(s: Seq<T>) -> (Seq<T>, Option<T>) {
    if s.len() == 0 {
        (s, None)
    } else {
        (s.skip(1), Some(s[0]))
    }
}

/// Offering `items` one by one to contents `s`: the final contents and how
/// many items were accepted.
pub open spec fn push_all<T>(s: Seq<T>, cap: nat, items: Seq<T>) -> (Seq<T>, nat)
    decreases items.len(),
{
    if items.len() == 0 {
        (s, 0)
    } else {
        let (s1, accepted) = push_model(s, cap, items[0]);
        let (s2, n) = push_all(s1, cap, items.skip(1));
        (s2, if accepted {
            n + 1
        } else {
            n
        })
    }
}

/// Removing `n` times from contents `s`: the final contents and the sequence
/// of items that came out.
pub open spec fn pop_all<T>(s: Seq<T>, n: nat) -> (Seq<T>, Seq<T>)
    decreases n,
{
    if n == 0 {
        (s, Seq::<T>::empty())
    } else {
        let (s1, r) = pop_model(s);
        let (s2, out) = pop_all(s1, (n - 1) as nat);
        (s2, match r {
            Some(x) => seq![x] + out,
            None => out,
        })
    }
}

/// While there is room for all of them, every offered item is accepted, in
/// order: pushing `c` items into an empty buffer of capacity `c` succeeds `c`
/// times and retains exactly those items — and one further push is refused
/// and leaves the contents unchanged, by `push_model`'s full case.
pub proof fn lemma_push_all_within_capacity<T>(s: Seq<T>, cap: nat, items: Seq<T>)
    requires
        s.len() + items.len() <= cap,
    ensures
        push_all(s, cap, items) == (s + items, items.len()),
    decreases items.len(),
{
    if items.len() == 0 {
        assert(s + items =~= s);
    } else {
        assert(s.push(items[0]) + items.skip(1) =~= s + items);
        lemma_push_all_within_capacity(s.push(items[0]), cap, items.skip(1));
    }
}

/// Popping `len()` times drains the buffer to empty and returns every item in
/// order; a further pop returns the empty result and changes nothing, by
/// `pop_model`'s empty case.
pub proof fn lemma_pop_all_drains<T>(s: Seq<T>)
    ensures
        pop_all(s, s.len()) == (Seq::<T>::empty(), s),
        pop_model(pop_all(s, s.len()).0) == (Seq::<T>::empty(), None::<T>),
    decreases s.len(),
{
    if s.len() == 0 {
        assert(pop_all(s, 0).0 =~= Seq::<T>::empty());
        assert(pop_all(s, 0).1 =~= s);
    } else {
        lemma_pop_all_drains(s.skip(1));
        assert(seq![s[0]] + s.skip(1) =~= s);
    }
}

impl<T: Copy + JsonDisplay> CircularBuffer<T> {
    /// Appends the retained items rendered oldest to newest, comma-separated,
    /// with no separator around an empty buffer.
    pub fn write_json_chunk(&self, w: &mut String)
        requires
            self.wf(),
        ensures
            final(w)@ == old(w)@ + chunk_chars(self@),
    {
        let ghost w0 = old(w)@;
        let n = self.get_nb_items();
        let mut first = true;
        let mut idx: usize = 0;
        proof {
            assert(rendered_parts(self@.take(0)) =~= Seq::<Seq<char>>::empty());
            assert(w@ =~= w0 + join_chars(rendered_parts(self@.take(0)), ","@));
        }
        while idx < n
            invariant
                self.wf(),
                n == self@.len(),
                idx <= n,
                first == (idx == 0),
                w@ == w0 + join_chars(rendered_parts(self@.take(idx as int)), ","@),
            decreases n - idx,
        {
            if !first {
                w.append(",");
            } else {
                first = false;
            }
            match self.peek_item(idx) {
                Some(data) => {
                    data.json_item(w);
                },
                None => {
                    proof {
                        assert(false);
                    }
                },
            }
            proof {
                reveal_strlit(",");
                lemma_join_push(
                    rendered_parts(self@.take(idx as int)),
                    self@[idx as int].spec_json(),
                    ","@,
                );
                assert(rendered_parts(self@.take(idx + 1)) =~= rendered_parts(
                    self@.take(idx as int),
                ).push(self@[idx as int].spec_json()));
                assert(w@ =~= w0 + join_chars(rendered_parts(self@.take(idx + 1)), ","@));
            }
            idx += 1;
        }
        proof {
            assert(self@.take(n as int) =~= self@);
        }
    }
}

impl<T> View for CircularBuffer<T> {
    type V = Seq<T>;

    /// The retained items, oldest first.
    closed spec fn view(&self) -> Seq<T> {
        Seq::new(self.valid_items as nat, |i: int| self.data[self.slot(i)])
    }
}

/// A one-shot forward walk over a buffer's current contents, oldest to
/// newest. Its view is the sequence of items not yet yielded.
pub struct CircularBufferIterator<'a, T> {
    circular_buffer: &'a CircularBuffer<T>,
    current_index: usize,
    remaining_items: usize,
}

impl<'a, T> CircularBufferIterator<'a, T> {
    /// The walk still points into a consistent buffer, at the slot of the
    /// next item to yield.
    pub closed spec fn wf(self) -> bool {
        &&& self.circular_buffer.wf()
        &&& self.remaining_items <= self.circular_buffer@.len()
        &&& self.current_index == self.circular_buffer.slot(
            self.circular_buffer@.len() - self.remaining_items,
        )
    }

    /// Yields the next-oldest item, or `None` once every item has been seen.
    pub fn next(&mut self) -> (r: Option<T>) where T: Copy
        requires
            old(self).wf(),
        ensures
            final(self).wf(),
            old(self)@.len() == 0 ==> r is None && final(self)@ == old(self)@,
            old(self)@.len() > 0 ==> r == Some(old(self)@[0]) && final(self)@ == old(
                self,
            )@.skip(1),
    {
        if self.remaining_items > 0 {
            let current_index_before_update = self.current_index;
            self.current_index = if self.current_index + 1 == self.circular_buffer.max_items {
                0
            } else {
                self.current_index + 1
            };
            self.remaining_items = self.remaining_items - 1;
            proof {
                assert(final(self)@ =~= old(self)@.skip(1));
            }
            Some(self.circular_buffer.data[current_index_before_update])
        } else {
            None
        }
    }
}

impl<'a, T> View for CircularBufferIterator<'a, T> {
    type V = Seq<T>;

    /// The items not yet yielded, oldest first.
    closed spec fn view(&self) -> Seq<T> {
        self.circular_buffer@.skip(
            self.circular_buffer@.len() - self.remaining_items as int,
        )
    }
}

impl<T> CircularBuffer<T> {
    /// Begins a walk over the current contents, oldest first.
    pub fn iter(&self) -> (it: CircularBufferIterator<'_, T>)
        requires
            self.wf(),
        ensures
            it.wf(),
            it@ == self@,
    {
        let it = CircularBufferIterator {
            circular_buffer: self,
            current_index: self.first,
            remaining_items: self.valid_items,
        };
        proof {
            assert(it@ =~= self@);
        }
        it
    }
}

} // verus!

//! One resolution level of the retention chain — a ring buffer plus the count
//! threshold that triggers reduction — and the cascade reducer that moves an
//! averaged carry from each over-limit tier into the next.

use vstd::prelude::*;

use crate::average::{fold_prefix, Average};
use crate::circular_buffer::CircularBuffer;
use crate::json_display::{chunk_chars, join_chars, lemma_join_push, JsonDisplay};
use vstd::string::*;

verus! {

/// The mathematical model of one tier: its retained items (oldest first), its
/// storage capacity, and the occupancy threshold past which it is reduced.
#[verifier::ext_equal]
pub struct TierModel<T> {
    pub items: Seq<T>,
    pub capacity: nat,
    pub limit: nat,
}

/// The model of a whole retention chain, finest tier first.
pub open spec fn models<T>(s: Seq<Historic<T>>) -> Seq<TierModel<T>> {
    Seq::new(s.len(), |i: int| s[i]@)
}

/// A tier after an offered sample: appended if there is room, dropped if not.
pub open spec fn tier_add<T>(t: TierModel<T>, x: T) -> TierModel<T> {
    if t.items.len() < t.capacity {
        TierModel { items: t.items.push(x), ..t }
    } else {
        t
    }
}

/// One cascade pass over the chain, fed by an optional carry from upstream.
///
/// The front tier first receives the pending carry. If it then exceeds its
/// limit, the oldest `limit / 2` items are folded into one averaged carry for
/// the next tier and removed; otherwise the pass stops and every tier
/// downstream is left untouched. The carry of the last tier is discarded.
pub open spec fn cascade<T: Average<T>>(tiers: Seq<TierModel<T>>, carry: Option<T>) -> Seq<
    TierModel<T>,
>
    decreases tiers.len(),
{
    if tiers.len() == 0 {
        tiers
    } else {
        let t = match carry {
            Some(x) => tier_add(tiers[0], x),
            None => tiers[0],
        };
        if t.items.len() > t.limit {
            let n = t.limit / 2;
            let avg = T::spec_divide(fold_prefix(t.items, n), n as int);
            seq![TierModel { items: t.items.skip(n as int), ..t }] + cascade(
                tiers.skip(1),
                Some(avg),
            )
        } else {
            seq![t] + tiers.skip(1)
        }
    }
}

/// Cascade idempotence: when no tier exceeds its limit, one cascade pass is a
/// no-op — no carries are produced and no element counts change.
pub proof fn lemma_cascade_noop<T: Average<T>>(tiers: Seq<TierModel<T>>)
    requires
        forall|j: int|
            0 <= j < tiers.len() ==> (#[trigger] tiers[j]).items.len() <= tiers[j].limit,
    ensures
        cascade(tiers, None::<T>) == tiers,
{
    if tiers.len() > 0 {
        assert(cascade(tiers, None::<T>) =~= tiers);
    }
}

/// The comma-joined chunk of each non-empty tier, in chain order: empty tiers
/// contribute no part, so they never introduce a spurious separator.
pub open spec fn tier_chunks<T: JsonDisplay>(tiers: Seq<TierModel<T>>) -> Seq<Seq<char>>
    decreases tiers.len(),
{
    if tiers.len() == 0 {
        Seq::<Seq<char>>::empty()
    } else if tiers[0].items.len() == 0 {
        tier_chunks(tiers.skip(1))
    } else {
        seq![chunk_chars(tiers[0].items)] + tier_chunks(tiers.skip(1))
    }
}

/// The whole snapshot: one flat JSON array of every retained sample in chain
/// order, oldest to newest within a tier, terminated by a newline.
pub open spec fn snapshot_chars<T: JsonDisplay>(tiers: Seq<TierModel<T>>) -> Seq<char> {
    "["@ + join_chars(tier_chunks(tiers), ",\n"@) + "]\n"@
}

/// Every snapshot is one complete array: it opens with `[` and is terminated
/// by `]` and a single trailing newline, whatever the tiers hold.
pub proof fn lemma_snapshot_envelope<T: JsonDisplay>(tiers: Seq<TierModel<T>>)
    ensures
        snapshot_chars(tiers).len() >= 3,
        snapshot_chars(tiers)[0] == '[',
        snapshot_chars(tiers)[snapshot_chars(tiers).len() - 2] == ']',
        snapshot_chars(tiers)[snapshot_chars(tiers).len() - 1] == '\n',
{
    reveal_strlit("[");
    reveal_strlit("]\n");
}

/// One more tier extends the chunk list by its chunk, or not at all when it
/// is empty.
proof fn lemma_tier_chunks_push<T: JsonDisplay>(tiers: Seq<TierModel<T>>, t: TierModel<T>)
    ensures
        tier_chunks(tiers.push(t)) == if t.items.len() == 0 {
            tier_chunks(tiers)
        } else {
            tier_chunks(tiers).push(chunk_chars(t.items))
        },
    decreases tiers.len(),
{
    if tiers.len() == 0 {
        assert(tiers.push(t)[0] == t);
        assert(tiers.push(t).skip(1) =~= Seq::<TierModel<T>>::empty());
        if t.items.len() != 0 {
            assert(seq![chunk_chars(t.items)] + tier_chunks(Seq::<TierModel<T>>::empty())
                =~= tier_chunks(tiers).push(chunk_chars(t.items)));
        }
    } else {
        assert(tiers.push(t)[0] == tiers[0]);
        assert(tiers.push(t).skip(1) =~= tiers.skip(1).push(t));
        lemma_tier_chunks_push(tiers.skip(1), t);
        if t.items.len() != 0 {
            assert(seq![chunk_chars(tiers[0].items)] + tier_chunks(tiers.skip(1)).push(
                chunk_chars(t.items),
            ) =~= (seq![chunk_chars(tiers[0].items)] + tier_chunks(tiers.skip(1))).push(
                chunk_chars(t.items),
            ));
        }
    }
}

/// A ring buffer together with the occupancy threshold that triggers its
/// reduction. The buffer may momentarily exceed `limit` (up to its capacity)
/// before a cascade pass runs.
pub struct Historic<T> {
    circular_buffer: CircularBuffer<T>,
    limit: usize,
}

impl<T> View for Historic<T> {
    type V = TierModel<T>;

    closed spec fn view(&self) -> TierModel<T> {
        TierModel {
            items: self.circular_buffer@,
            capacity: self.circular_buffer.capacity(),
            limit: self.limit as nat,
        }
    }
}

impl<T> Historic<T> {
    /// The buffer is consistent and the threshold can be halved and fits the
    /// storage.
    pub closed spec fn wf(self) -> bool {
        &&& self.circular_buffer.wf()
        &&& 2 <= self.limit
        &&& self.limit <= self.circular_buffer.capacity()
    }

    pub fn new(size: usize, limit: usize) -> (r: Historic<T>)
        requires
            2 <= limit <= size,
        ensures
            r.wf(),
            r@ == (TierModel { items: Seq::<T>::empty(), capacity: size as nat, limit: limit as nat }),
    {
        Historic { circular_buffer: CircularBuffer::<T>::new(size), limit }
    }

    /// Pushes one sample; a full tier refuses it and drops the sample.
    pub fn add(&mut self, element: T)
        requires
            old(self).wf(),
        ensures
            final(self).wf(),
            final(self)@ == tier_add(old(self)@, element),
    {
        self.circular_buffer.put_item(element);
        proof {
            old(self).circular_buffer.lemma_len_bounded();
            assert(self@ =~= tier_add(old(self)@, element));
        }
    }

    pub fn get_nb_items(&self) -> (r: usize)
        ensures
            r == self@.items.len(),
    {
        self.circular_buffer.get_nb_items()
    }

    pub fn is_empty(&self) -> (r: bool)
        ensures
            r == (self@.items.len() == 0),
    {
        self.circular_buffer.is_empty()
    }
}

impl<T: Copy + JsonDisplay> Historic<T> {
    /// Appends every sample currently resident in every tier as one flat JSON
    /// array, in chain order and oldest-to-newest within a tier, terminated by
    /// a newline. Empty tiers contribute zero elements and no separator.
    pub fn write_json_historics(historics: &[Historic<T>], w: &mut String)
        requires
            forall|j: int| 0 <= j < historics@.len() ==> (#[trigger] historics@[j]).wf(),
        ensures
            final(w)@ == old(w)@ + snapshot_chars(models(historics@)),
    {
        let ghost w0 = old(w)@;
        w.append("[");
        let mut first = true;
        let mut i: usize = 0;
        proof {
            assert(models(historics@).take(0) =~= Seq::<TierModel<T>>::empty());
            assert(w@ =~= w0 + "["@ + join_chars(
                tier_chunks(models(historics@).take(0)),
                ",\n"@,
            ));
        }
        while i < historics.len()
            invariant
                forall|j: int| 0 <= j < historics@.len() ==> (#[trigger] historics@[j]).wf(),
                i <= historics@.len(),
                first == (tier_chunks(models(historics@).take(i as int)).len() == 0),
                w@ == w0 + "["@ + join_chars(
                    tier_chunks(models(historics@).take(i as int)),
                    ",\n"@,
                ),
            decreases historics@.len() - i,
        {
            let h = &historics[i];
            if !h.is_empty() {
                if !first {
                    w.append(",\n");
                } else {
                    first = false;
                }
                h.circular_buffer.write_json_chunk(w);
                proof {
                    lemma_join_push(
                        tier_chunks(models(historics@).take(i as int)),
                        chunk_chars(historics@[i as int]@.items),
                        ",\n"@,
                    );
                }
            }
            proof {
                lemma_tier_chunks_push(
                    models(historics@).take(i as int),
                    historics@[i as int]@,
                );
                assert(models(historics@).take(i + 1) =~= models(historics@).take(
                    i as int,
                ).push(historics@[i as int]@));
                assert(w@ =~= w0 + "["@ + join_chars(
                    tier_chunks(models(historics@).take(i + 1)),
                    ",\n"@,
                ));
            }
            i += 1;
        }
        w.append("]\n");
        proof {
            assert(models(historics@).take(historics@.len() as int) =~= models(historics@));
            assert(final(w)@ =~= w0 + snapshot_chars(models(historics@)));
        }
    }
}

/// A mutable borrow of one element of a vector.
fn vec_index_mut<T>(v: &mut Vec<T>, i: usize) -> (element: &mut T)
    requires
        i < old(v).len(),
    ensures
        *element == old(v)@[i as int],
        final(v)@ == old(v)@.update(i as int, *final(element)),
{
    &mut v[i]
}

impl<T: Copy + Average<T>> Historic<T> {
    /// One cascade pass over the whole retention chain, finest tier first:
    /// exactly what the `cascade` spec function describes. Each over-limit
    /// tier has its oldest `limit / 2` items averaged into a carry for the
    /// next tier; the pass stops at the first tier within bounds.
    pub fn reduce(historics: &mut Vec<Historic<T>>)
        requires
            forall|j: int| 0 <= j < old(historics)@.len() ==> (#[trigger] old(historics)@[j]).wf(),
        ensures
            final(historics)@.len() == old(historics)@.len(),
            forall|j: int|
                0 <= j < final(historics)@.len() ==> (#[trigger] final(historics)@[j]).wf(),
            models(final(historics)@) == cascade(models(old(historics)@), None::<T>),
    {
        let ghost orig = models(old(historics)@);
        let mut carry: Option<T> = None;
        let mut i: usize = 0;
        proof {
            assert(orig.skip(0) =~= orig);
            assert(models(historics@).take(0) + cascade(orig, None::<T>) =~= cascade(
                orig,
                None::<T>,
            ));
        }
        while i < historics.len()
            invariant_except_break
                i <= historics@.len(),
                historics@.len() == orig.len(),
                forall|j: int| 0 <= j < historics@.len() ==> (#[trigger] historics@[j]).wf(),
                forall|j: int| i <= j < historics@.len() ==> (#[trigger] historics@[j])@ == orig[j],
                cascade(orig, None::<T>) == models(historics@).take(i as int) + cascade(
                    orig.skip(i as int),
                    carry,
                ),
            ensures
                historics@.len() == orig.len(),
                forall|j: int| 0 <= j < historics@.len() ==> (#[trigger] historics@[j]).wf(),
                models(historics@) == cascade(orig, None::<T>),
            decreases historics@.len() - i,
        {
            let ghost hs0 = historics@;
            let ghost carry0 = carry;
            let tier = vec_index_mut(historics, i);
            // look if the previous tier produced an averaged carry to insert here
            match carry {
                Some(data) => {
                    tier.add(data);
                    carry = None;
                }
                None => {},
            }
            let ghost t1 = tier@;
            proof {
                assert(t1 == match carry0 {
                    Some(x) => tier_add(orig[i as int], x),
                    None => orig[i as int],
                });
            }
            if tier.get_nb_items() > tier.limit {
                let nb_elements_to_sum = tier.limit / 2;
                proof {
                    assert(nb_elements_to_sum < t1.items.len());
                }
                // accumulate the oldest nb_elements_to_sum items, oldest first
                let mut accumulator_data = T::empty_cumulator();
                let mut j: usize = 0;
                while j < nb_elements_to_sum
                    invariant
                        j <= nb_elements_to_sum,
                        tier.wf(),
                        tier@ == t1,
                        nb_elements_to_sum < t1.items.len(),
                        accumulator_data == fold_prefix(t1.items, j as nat),
                    decreases nb_elements_to_sum - j,
                {
                    match tier.circular_buffer.peek_item(j) {
                        Some(data) => {
                            data.cumulate(&mut accumulator_data);
                        },
                        None => {
                            proof {
                                assert(false);
                            }
                        },
                    }
                    j += 1;
                }
                // remove the same items: exactly as many as were accumulated
                proof {
                    assert(t1.items.skip(0) =~= t1.items);
                }
                let mut k: usize = 0;
                while k < nb_elements_to_sum
                    invariant
                        k <= nb_elements_to_sum,
                        tier.wf(),
                        tier@.capacity == t1.capacity,
                        tier@.limit == t1.limit,
                        tier@.items == t1.items.skip(k as int),
                        nb_elements_to_sum < t1.items.len(),
                    decreases nb_elements_to_sum - k,
                {
                    let ghost before = tier@.items;
                    tier.circular_buffer.get_item();
                    proof {
                        assert(before.skip(1) =~= t1.items.skip(k + 1));
                    }
                    k += 1;
                }
                // the carry becomes the next tier's candidate input
                carry = Some(T::divide(&accumulator_data, nb_elements_to_sum));
                proof {
                    let ghost n = t1.limit / 2;
                    let ghost avg = T::spec_divide(fold_prefix(t1.items, n), n as int);
                    assert(carry == Some(avg));
                    let ghost s = orig.skip(i as int);
                    assert(s[0] == orig[i as int]);
                    assert(s.skip(1) =~= orig.skip(i + 1));
                    assert(cascade(s, carry0) =~= seq![
                        TierModel { items: t1.items.skip(n as int), ..t1 },
                    ] + cascade(orig.skip(i + 1), Some(avg)));
                    assert(models(historics@).take(i + 1) =~= models(hs0).take(i as int) + seq![
                        TierModel { items: t1.items.skip(n as int), ..t1 },
                    ]);
                    assert(cascade(orig, None::<T>) =~= models(historics@).take(i + 1) + cascade(
                        orig.skip(i + 1),
                        carry,
                    ));
                }
                i += 1;
            } else {
                // this tier is within bounds: it and all coarser tiers stay
                // untouched this round
                proof {
                    let ghost s = orig.skip(i as int);
                    assert(s[0] == orig[i as int]);
                    assert(s.skip(1) =~= orig.skip(i + 1));
                    assert(cascade(s, carry0) =~= seq![t1] + orig.skip(i + 1));
                    assert(models(historics@) =~= models(hs0).take(i as int) + seq![t1]
                        + orig.skip(i + 1));
                    assert(models(historics@) =~= cascade(orig, None::<T>));
                }
                break ;
            }
        }
    }
}

} // verus!

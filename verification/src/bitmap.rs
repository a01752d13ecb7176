use vstd::prelude::*;
use crate::config::PRIO_NUM;

verus! {

/// A priority bitmap: bit `p` is set when something of priority `p` is ready.
#[derive(Clone, Copy)]
pub struct BitMap(pub usize);

/// Whether bit `i` of `x` is set.
pub open spec fn bit_of(x: usize, i: usize) -> bool {
    (x >> i) & 1usize == 1usize
}

proof fn lemma_set_bit(x: usize, p: usize, i: usize)
    requires
        p < usize::BITS,
        i < usize::BITS,
    ensures
        bit_of(x | (1usize << p), i) == (i == p || bit_of(x, i)),
{
    assert(((x | (1usize << p)) >> i) & 1usize == 1usize <==> (i == p || (x >> i) & 1usize
        == 1usize)) by (bit_vector)
        requires
            p < usize::BITS,
            i < usize::BITS,
    ;
}

proof fn lemma_clear_bit(x: usize, p: usize, i: usize)
    requires
        p < usize::BITS,
        i < usize::BITS,
    ensures
        bit_of(x & !(1usize << p), i) == (i != p && bit_of(x, i)),
{
    assert(((x & !(1usize << p)) >> i) & 1usize == 1usize <==> (i != p && (x >> i) & 1usize
        == 1usize)) by (bit_vector)
        requires
            p < usize::BITS,
            i < usize::BITS,
    ;
}

proof fn lemma_zero_bits(i: usize)
    requires
        i < usize::BITS,
    ensures
        !bit_of(0usize, i),
{
    assert((0usize >> i) & 1usize != 1usize) by (bit_vector);
}

/// `new` marks what `old` marks, except that priority `p` is marked iff `val`.
pub open spec fn bit_updated(old: BitMap, new: BitMap, p: usize, val: bool) -> bool {
    forall|i: usize|
        i < usize::BITS ==> #[trigger] new.has(i) == if i == p {
            val
        } else {
            old.has(i)
        }
}

impl BitMap {
    /// Whether priority `i` is marked.
    pub open spec fn has(self, i: usize) -> bool {
        bit_of(self.0, i)
    }

    /// The lowest marked priority below `PRIO_NUM`, or `PRIO_NUM` when there is none.
    pub open spec fn lowest(self) -> usize {
        if exists|i: usize| i < PRIO_NUM && #[trigger] self.has(i) {
            choose|i: usize|
                i < PRIO_NUM && #[trigger] self.has(i) && forall|j: usize|
                    j < i ==> !#[trigger] self.has(j)
        } else {
            PRIO_NUM
        }
    }

    /// An empty bitmap.
    pub fn new() -> (b: BitMap)
        ensures
            forall|i: usize| i < usize::BITS ==> !#[trigger] b.has(i),
    {
        proof {
            assert forall|i: usize| i < usize::BITS implies !#[trigger] BitMap(0).has(i) by {
                lemma_zero_bits(i);
            }
        }
        BitMap(0)
    }

    /// Marks (`val`) or clears (`!val`) priority `prio`, leaving every other bit as it was.
    pub fn update(&mut self, prio: usize, val: bool)
        requires
            prio < usize::BITS,
        ensures
            forall|i: usize|
                i < usize::BITS ==> #[trigger] final(self).has(i) == if i == prio {
                    val
                } else {
                    old(self).has(i)
                },
    {
        let old_bits = self.0;
        if val {
            self.0 = old_bits | (1usize << prio);
            proof {
                assert forall|i: usize| i < usize::BITS implies #[trigger] bit_of(
                    old_bits | (1usize << prio),
                    i,
                ) == (i == prio || bit_of(old_bits, i)) by {
                    lemma_set_bit(old_bits, prio, i);
                }
            }
        } else {
            self.0 = old_bits & !(1usize << prio);
            proof {
                assert forall|i: usize| i < usize::BITS implies #[trigger] bit_of(
                    old_bits & !(1usize << prio),
                    i,
                ) == (i != prio && bit_of(old_bits, i)) by {
                    lemma_clear_bit(old_bits, prio, i);
                }
            }
        }
    }

    /// The lowest marked priority below `PRIO_NUM`, or `PRIO_NUM` when none is marked.
    pub fn get_priority(&self) -> (r: usize)
        ensures
            r <= PRIO_NUM,
            r < PRIO_NUM ==> self.has(r),
            forall|j: usize| j < r ==> !#[trigger] self.has(j),
            r == self.lowest(),
    {
        let mut i: usize = 0;
        while i < PRIO_NUM
            invariant
                i <= PRIO_NUM,
                forall|j: usize| j < i ==> !#[trigger] self.has(j),
            decreases PRIO_NUM - i,
        {
            if (self.0 >> i) & 1usize == 1usize {
                proof {
                    self.lemma_lowest_is(i);
                }
                return i;
            }
            i = i + 1;
        }
        proof {
            assert(!exists|k: usize| k < PRIO_NUM && #[trigger] self.has(k));
        }
        PRIO_NUM
    }

    proof fn lemma_lowest_is(self, i: usize)
        requires
            i < PRIO_NUM,
            self.has(i),
            forall|j: usize| j < i ==> !#[trigger] self.has(j),
        ensures
            self.lowest() == i,
    {
        let c = choose|k: usize|
            k < PRIO_NUM && #[trigger] self.has(k) && forall|j: usize| j < k ==> !#[trigger] self.has(j);
        assert(i < PRIO_NUM && self.has(i) && forall|j: usize| j < i ==> !#[trigger] self.has(j));
        if c < i {
            assert(!self.has(c));
        } else if c > i {
            assert(!self.has(i));
        }
    }
}

/// Marking priority `prio` lowers the lowest marked priority to `prio` when `prio` is
/// below it, and leaves it otherwise.
pub proof fn lemma_lowest_after_mark(old_map: BitMap, new_map: BitMap, prio: usize)
    requires
        forall|i: usize| i < usize::BITS ==> #[trigger] new_map.has(i) == (i == prio || old_map.has(i)),
        prio < usize::BITS,
    ensures
        new_map.lowest() == if prio < old_map.lowest() { prio } else { old_map.lowest() },
{
    let lo = old_map.lowest();
    old_map.lemma_lowest_spec();
    new_map.lemma_lowest_spec();
    let nl = new_map.lowest();
    if prio < lo {
        assert(new_map.has(prio));
        if nl < prio {
            assert(old_map.has(nl));
        }
    } else {
        if lo < PRIO_NUM {
            assert(new_map.has(lo));
            if nl < lo {
                assert(old_map.has(nl) || nl == prio);
            }
        } else {
            if nl < PRIO_NUM {
                assert(old_map.has(nl) || nl == prio);
            }
        }
    }
}

impl BitMap {
    proof fn lemma_least_below(self, w: usize)
        requires
            w < PRIO_NUM,
            self.has(w),
        ensures
            exists|k: usize| k < PRIO_NUM && #[trigger] self.has(k) && forall|j: usize| j < k ==> !#[trigger] self.has(j),
        decreases w,
    {
        if exists|j: usize| j < w && #[trigger] self.has(j) {
            let j = choose|j: usize| j < w && #[trigger] self.has(j);
            self.lemma_least_below(j);
        } else {
            assert(w < PRIO_NUM && self.has(w) && forall|j: usize| j < w ==> !#[trigger] self.has(j));
        }
    }

    /// What `lowest` is: at most `PRIO_NUM`, marked when below `PRIO_NUM`, with nothing
    /// marked below it.
    pub proof fn lemma_lowest_spec(self)
        ensures
            self.lowest() <= PRIO_NUM,
            self.lowest() < PRIO_NUM ==> self.has(self.lowest()),
            forall|j: usize| j < self.lowest() ==> !#[trigger] self.has(j),
    {
        if exists|i: usize| i < PRIO_NUM && #[trigger] self.has(i) {
            let w = choose|i: usize| i < PRIO_NUM && #[trigger] self.has(i);
            self.lemma_least_below(w);
        }
    }
}

/// Two bitmaps that mark the same priorities have the same lowest marked priority.
pub proof fn lemma_lowest_same(a: BitMap, b: BitMap)
    requires
        forall|i: usize| i < usize::BITS ==> #[trigger] a.has(i) == b.has(i),
    ensures
        a.lowest() == b.lowest(),
{
    a.lemma_lowest_spec();
    b.lemma_lowest_spec();
    let la = a.lowest();
    let lb = b.lowest();
    if la < lb {
        assert(a.has(la) && !b.has(la));
    } else if lb < la {
        assert(b.has(lb) && !a.has(lb));
    }
}

} // verus!

//! The head-style window selector: which lines or bytes of a source to
//! emit given a signed count, with "all but the trailing k" computed by
//! a fixed-capacity trailing buffer rather than by holding the whole
//! source.

use vstd::prelude::*;

verus! {

/// A head-style count. `First(n)` keeps the first `n` items; a count
/// written with a leading minus keeps everything but the last `k`
/// items, `AllButLast(k)`.
#[derive(Clone, Copy, Debug, PartialEq, Eq, Structural)]
pub enum Count {
    First(usize),
    AllButLast(usize),
}

/// How many of `total` items the count selects.
pub open spec fn selected_len(total: nat, c: Count) -> nat {
    match c {
        Count::First(n) => if n < total { n as nat } else { total },
        Count::AllButLast(k) => if k < total { (total - k) as nat } else { 0 },
    }
}

/// The window a count selects: always a prefix of the items.
pub open spec fn window<T>(items: Seq<T>, c: Count) -> Seq<T> {
    items.take(selected_len(items.len(), c) as int)
}

/// A fixed-capacity queue of the most recent items pushed into it.
/// Pushing onto a full buffer evicts and returns the oldest item, so a
/// stream pushed through it comes out with its trailing `capacity`
/// items withheld.
pub struct TrailBuffer<T> {
    capacity: usize,
    buf: Vec<T>,
}

impl<T> TrailBuffer<T> {
    /// The items currently held, oldest first.
    pub closed spec fn contents(&self) -> Seq<T> {
        self.buf@
    }

    /// The capacity the buffer was created with.
    pub closed spec fn cap(&self) -> nat {
        self.capacity as nat
    }

    /// The buffer never holds more than its capacity.
    pub closed spec fn wf(&self) -> bool {
        self.buf@.len() <= self.capacity
    }

    /// An empty trailing buffer of the given capacity.
    pub fn new(capacity: usize) -> (r: Self)
        ensures
            r.wf(),
            r.cap() == capacity,
            r.contents() == Seq::<T>::empty(),
    {
        TrailBuffer { capacity, buf: Vec::new() }
    }

    /// Pushes one item; when the buffer would exceed its capacity, the
    /// oldest item leaves and is returned.
    pub fn push(&mut self, x: T) -> (evicted: Option<T>)
        requires
            old(self).wf(),
        ensures
            final(self).wf(),
            final(self).cap() == old(self).cap(),
            ({
                let stream = old(self).contents().push(x);
                if stream.len() <= old(self).cap() {
                    final(self).contents() == stream && evicted is None
                } else {
                    final(self).contents() == stream.skip(1) && evicted == Some(stream[0])
                }
            }),
    {
        if self.capacity == 0 {
            proof {
                assert(self.buf@.push(x).skip(1) =~= self.buf@);
            }
            Some(x)
        } else {
            self.buf.push(x);
            if self.buf.len() > self.capacity {
                let out = self.buf.remove(0);
                proof {
                    assert(self.buf@ =~= old(self).contents().push(x).skip(1));
                }
                Some(out)
            } else {
                None
            }
        }
    }
}

/// The first `n` items, or all of them when fewer exist.
pub fn take_first_items<T>(items: Vec<T>, n: usize) -> (out: Vec<T>)
    ensures
        out@ == window(items@, Count::First(n)),
{
    let ghost orig = items@;
    let mut out = items;
    out.truncate(n);
    proof {
        assert(out@ =~= window(orig, Count::First(n)));
    }
    out
}

/// All items but the trailing `k`, computed through a `TrailBuffer` of
/// capacity `k` so that only `k` items are ever withheld at once; what
/// the buffer still holds at the end of the stream is discarded.
pub fn drop_last_items<T>(items: Vec<T>, k: usize) -> (out: Vec<T>)
    ensures
        out@ == window(items@, Count::AllButLast(k)),
{
    let ghost orig = items@;
    let mut rest = items;
    let mut tb = TrailBuffer::<T>::new(k);
    let mut out: Vec<T> = Vec::new();
    let ghost total = orig.len() as int;
    while rest.len() > 0
        invariant
            tb.wf(),
            tb.cap() == k,
            orig.len() == total,
            rest@ =~= orig.skip(total - rest@.len()),
            out@ + tb.contents() =~= orig.take(total - rest@.len()),
            tb.contents().len() == ({
                let done = total - rest@.len();
                if done < k { done } else { k as int }
            }),
        decreases rest.len(),
    {
        let ghost done = total - rest@.len();
        let ghost pre_out = out@;
        let ghost pre_c = tb.contents();
        let x = rest.remove(0);
        proof {
            assert(x == orig[done]);
            assert(rest@ =~= orig.skip(done + 1));
            assert(orig.take(done + 1) =~= (pre_out + pre_c).push(x));
        }
        match tb.push(x) {
            Some(y) => {
                proof {
                    assert(y == pre_c.push(x)[0]);
                    assert(tb.contents() == pre_c.push(x).skip(1));
                }
                out.push(y);
                proof {
                    assert(out@ + tb.contents() =~= (pre_out + pre_c).push(x));
                }
            },
            None => {
                proof {
                    assert(out@ + tb.contents() =~= (pre_out + pre_c).push(x));
                }
            },
        }
    }
    proof {
        let kept = total - (if k < total { k as int } else { total });
        assert(out@ + tb.contents() =~= orig.take(total));
        assert(out@.len() == kept);
        assert(out@ =~= orig.take(kept));
        assert(out@ =~= window(orig, Count::AllButLast(k)));
    }
    out
}

/// The window the count selects, over whole items of any one kind
/// (decoded lines, or raw bytes).
pub fn select_window<T>(items: Vec<T>, c: Count) -> (out: Vec<T>)
    ensures
        out@ == window(items@, c),
{
    match c {
        Count::First(n) => take_first_items(items, n),
        Count::AllButLast(k) => drop_last_items(items, k),
    }
}

/// A count at least as large as the source selects the whole source.
pub proof fn lemma_count_exceeding_keeps_all<T>(items: Seq<T>, n: usize)
    requires
        n >= items.len(),
    ensures
        window(items, Count::First(n)) == items,
{
    assert(window(items, Count::First(n)) =~= items);
}

} // verus!

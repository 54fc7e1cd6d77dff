use vstd::prelude::*;
use std::collections::VecDeque;

verus! {

/// The last `capacity` items of `s` (all of `s` when it is shorter).
pub open spec fn keep_last<T>(s: Seq<T>, capacity: int) -> Seq<T> {
    if s.len() > capacity {
        s.skip(s.len() - capacity)
    } else {
        s
    }
}

/// Index of the first `b` in `s`, or -1.
pub open spec fn first_index(s: Seq<u8>, b: u8) -> int
    decreases s.len(),
{
    if s.len() == 0 {
        -1
    } else if s[0] == b {
        0
    } else {
        let r = first_index(s.skip(1), b);
        if r < 0 {
            -1
        } else {
            r + 1
        }
    }
}

pub proof fn lemma_first_index(s: Seq<u8>, b: u8)
    ensures
        -1 <= first_index(s, b) < s.len(),
        first_index(s, b) >= 0 ==> s[first_index(s, b)] == b,
        forall|i: int| 0 <= i < s.len() && (first_index(s, b) < 0 || i < first_index(s, b)) ==> s[i]
            != b,
    decreases s.len(),
{
    if s.len() > 0 && s[0] != b {
        lemma_first_index(s.skip(1), b);
        assert forall|i: int|
            0 <= i < s.len() && (first_index(s, b) < 0 || i < first_index(s, b)) implies s[i]
            != b by {
            if i > 0 {
                assert(s[i] == s.skip(1)[i - 1]);
            }
        }
    }
}

/// Position of the first `b` in `v`.
pub fn position(v: &Vec<u8>, b: u8) -> (r: Option<usize>)
    ensures
        r matches Some(i) ==> i as int == first_index(v@, b) && i < v@.len(),
        r is None ==> first_index(v@, b) < 0,
{
    proof {
        lemma_first_index(v@, b);
    }
    let mut i: usize = 0;
    while i < v.len()
        invariant
            i <= v@.len(),
            forall|j: int| 0 <= j < i ==> v@[j] != b,
            -1 <= first_index(v@, b) < v@.len(),
            first_index(v@, b) >= 0 ==> v@[first_index(v@, b)] == b,
            forall|j: int|
                0 <= j < v@.len() && (first_index(v@, b) < 0 || j < first_index(v@, b)) ==> v@[j]
                    != b,
        decreases v@.len() - i,
    {
        if v[i] == b {
            return Some(i);
        }
        i += 1;
    }
    None
}

/// A copy of `s[from..to]`.
pub fn copy_range(s: &[u8], from: usize, to: usize) -> (r: Vec<u8>)
    requires
        from <= to <= s@.len(),
    ensures
        r@ == s@.subrange(from as int, to as int),
{
    let mut r: Vec<u8> = Vec::new();
    let mut i: usize = from;
    while i < to
        invariant
            from <= i <= to <= s@.len(),
            r@ == s@.subrange(from as int, i as int),
        decreases to - i,
    {
        r.push(s[i]);
        i += 1;
    }
    r
}

/// Appends `bytes`, then drops the oldest bytes beyond `capacity`.
pub fn push_capped_vec(buffer: &mut Vec<u8>, bytes: &[u8], capacity: usize)
    ensures
        final(buffer)@ == keep_last(old(buffer)@ + bytes@, capacity as int),
{
    let mut all = copy_range(buffer.as_slice(), 0, buffer.len());
    let mut i: usize = 0;
    assert(buffer@.subrange(0, buffer@.len() as int) =~= buffer@);
    while i < bytes.len()
        invariant
            i <= bytes@.len(),
            all@ == old(buffer)@ + bytes@.subrange(0, i as int),
        decreases bytes@.len() - i,
    {
        all.push(bytes[i]);
        i += 1;
    }
    assert(bytes@.subrange(0, bytes@.len() as int) =~= bytes@);
    if all.len() > capacity {
        let excess = all.len() - capacity;
        *buffer = copy_range(all.as_slice(), excess, all.len());
    } else {
        *buffer = all;
    }
}

/// Appends `bytes`, keeping only the newest `capacity` bytes of the old
/// queue and the new bytes together, in their order.
pub fn push_capped_deque(queue: &mut VecDeque<u8>, bytes: &[u8], capacity: usize)
    ensures
        final(queue)@ == keep_last(old(queue)@ + bytes@, capacity as int),
{
    let ghost q0 = queue@;
    let n = queue.len();
    let b = bytes.len();
    let keep_old: usize = if b >= capacity {
        0
    } else if n <= capacity - b {
        n
    } else {
        capacity - b
    };
    let drop = n - keep_old;
    let mut k: usize = 0;
    while k < drop
        invariant
            k <= drop,
            drop <= n,
            n == q0.len(),
            queue@ == q0.skip(k as int),
        decreases drop - k,
    {
        queue.pop_front();
        k += 1;
        assert(queue@ =~= q0.skip(k as int));
    }
    let from: usize = if b >= capacity {
        b - capacity
    } else {
        0
    };
    let mut i: usize = from;
    while i < b
        invariant
            from <= i <= b,
            b == bytes@.len(),
            queue@ == q0.skip(drop as int) + bytes@.subrange(from as int, i as int),
        decreases b - i,
    {
        queue.push_back(bytes[i]);
        i += 1;
        assert(queue@ =~= q0.skip(drop as int) + bytes@.subrange(from as int, i as int));
    }
    let ghost all = q0 + bytes@;
    assert(queue@ =~= keep_last(all, capacity as int));
}

} // verus!

//! The rope: a binary tree of byte runs backing each open file.
//!
//! Leaves own contiguous byte buffers; internal nodes cache the size of their
//! left subtree and of the whole subtree. Byte addressing is 0-based over the
//! in-order concatenation of the leaves. After any operation no internal node
//! has an empty child; an empty leaf can only be the root.

use vstd::prelude::*;

use crate::error::EditorError;

verus! {

/// The bytes of `s` with `d` spliced in at position `at`.
pub open spec fn spliced_in(s: Seq<u8>, at: int, d: Seq<u8>) -> Seq<u8> {
    s.subrange(0, at) + d + s.subrange(at, s.len() as int)
}

/// The bytes of `s` with the range `[from, to)` spliced out.
pub open spec fn spliced_out(s: Seq<u8>, from: int, to: int) -> Seq<u8> {
    s.subrange(0, from) + s.subrange(to, s.len() as int)
}

enum Node {
    Leaf(Vec<u8>),
    Internal(Box<Inner>),
}

struct Inner {
    left: Node,
    right: Node,
    /// Cached size of the left subtree.
    left_size: usize,
    /// Cached size of the whole subtree.
    total_size: usize,
}

impl Node {
    /// The in-order concatenation of the leaf buffers under this node.
    spec fn view(self) -> Seq<u8>
        decreases self,
    {
        match self {
            Node::Leaf(data) => data@,
            Node::Internal(inner) => inner.left.view() + inner.right.view(),
        }
    }

    /// Structural invariant: cached sizes are correct and no internal node
    /// has an empty child.
    spec fn wf(self) -> bool
        decreases self,
    {
        match self {
            Node::Leaf(_) => true,
            Node::Internal(inner) => {
                &&& inner.left.wf()
                &&& inner.right.wf()
                &&& inner.left_size == inner.left.view().len()
                &&& inner.total_size == inner.left.view().len() + inner.right.view().len()
                &&& inner.left.view().len() > 0
                &&& inner.right.view().len() > 0
            },
        }
    }

    fn size(&self) -> (r: usize)
        requires
            self.wf(),
        ensures
            r == self.view().len(),
    {
        match self {
            Node::Leaf(data) => data.len(),
            Node::Internal(inner) => inner.total_size,
        }
    }

    /// Reassembles two subtrees side by side, promoting the non-empty side
    /// when the other is empty so that no internal node gets an empty child.
    fn join(left: Node, right: Node) -> (r: Node)
        requires
            left.wf(),
            right.wf(),
            left.view().len() + right.view().len() <= usize::MAX,
        ensures
            r.wf(),
            r.view() == left.view() + right.view(),
    {
        let left_size = left.size();
        let right_size = right.size();
        if left_size == 0 {
            proof {
                assert(left.view() + right.view() =~= right.view());
            }
            right
        } else if right_size == 0 {
            proof {
                assert(left.view() + right.view() =~= left.view());
            }
            left
        } else {
            Node::Internal(Box::new(Inner {
                left,
                right,
                left_size,
                total_size: left_size + right_size,
            }))
        }
    }

    /// Splits the leaf buffer at `index`, appends `input` onto the left part,
    /// and reassembles; recursive descent through internal nodes keeps the
    /// cached sizes correct.
    fn insert_at(self, index: usize, input: &[u8]) -> (r: Node)
        requires
            self.wf(),
            index <= self.view().len(),
            self.view().len() + input@.len() <= usize::MAX,
        ensures
            r.wf(),
            r.view() == spliced_in(self.view(), index as int, input@),
        decreases self,
    {
        match self {
            Node::Leaf(data) => {
                let mut left_data = data;
                let right_data = left_data.split_off(index);
                append_slice(&mut left_data, input);
                let r = Node::join(Node::Leaf(left_data), Node::Leaf(right_data));
                proof {
                    assert(r.view() =~= spliced_in(data@, index as int, input@));
                }
                r
            },
            Node::Internal(inner) => {
                let node = *inner;
                let ghost left_view = node.left.view();
                let ghost right_view = node.right.view();
                if index <= node.left_size {
                    let new_left = node.left.insert_at(index, input);
                    let r = Node::join(new_left, node.right);
                    proof {
                        assert(r.view() =~= spliced_in(
                            left_view + right_view,
                            index as int,
                            input@,
                        ));
                    }
                    r
                } else {
                    let new_right = node.right.insert_at(index - node.left_size, input);
                    let r = Node::join(node.left, new_right);
                    proof {
                        assert(r.view() =~= spliced_in(
                            left_view + right_view,
                            index as int,
                            input@,
                        ));
                    }
                    r
                }
            },
        }
    }

    /// Removes the byte range `[from, to)`. At a leaf the buffer is split and
    /// truncated; at an internal node the range is split at the cached left
    /// size, and after both children return, an emptied child is replaced by
    /// the other one.
    fn remove_range(self, from: usize, to: usize) -> (r: Node)
        requires
            self.wf(),
            from <= to <= self.view().len(),
        ensures
            r.wf(),
            r.view() == spliced_out(self.view(), from as int, to as int),
        decreases self,
    {
        match self {
            Node::Leaf(data) => {
                let mut left_data = data;
                let total = left_data.len();
                let right_data = left_data.split_off(to);
                left_data.truncate(from);
                assert(left_data@.len() + right_data@.len() <= total);
                let r = Node::join(Node::Leaf(left_data), Node::Leaf(right_data));
                proof {
                    assert(r.view() =~= spliced_out(data@, from as int, to as int));
                }
                r
            },
            Node::Internal(inner) => {
                let node = *inner;
                let ghost left_view = node.left.view();
                let ghost right_view = node.right.view();
                let m = node.left_size;
                let l_from = if from < m { from } else { m };
                let l_to = if to < m { to } else { m };
                let r_from = if from > m { from - m } else { 0 };
                let r_to = if to > m { to - m } else { 0 };
                let new_left = node.left.remove_range(l_from, l_to);
                let new_right = node.right.remove_range(r_from, r_to);
                let r = Node::join(new_left, new_right);
                proof {
                    assert(r.view() =~= spliced_out(
                        left_view + right_view,
                        from as int,
                        to as int,
                    ));
                }
                r
            },
        }
    }

    /// The in-order byte copy of the whole subtree, as one buffer.
    fn flatten_to_vec(self) -> (r: Vec<u8>)
        requires
            self.wf(),
        ensures
            r@ == self.view(),
        decreases self,
    {
        match self {
            Node::Leaf(data) => data,
            Node::Internal(inner) => {
                let node = *inner;
                let mut left_data = node.left.flatten_to_vec();
                let mut right_data = node.right.flatten_to_vec();
                left_data.append(&mut right_data);
                left_data
            },
        }
    }

    /// The bytes of the range `[from, to)`, collected in order.
    fn collect_range(&self, from: usize, to: usize) -> (r: Vec<u8>)
        requires
            self.wf(),
            from <= to <= self.view().len(),
        ensures
            r@ == self.view().subrange(from as int, to as int),
        decreases self,
    {
        match self {
            Node::Leaf(data) => copy_range(data, from, to),
            Node::Internal(inner) => {
                let ghost left_view = inner.left.view();
                let ghost right_view = inner.right.view();
                let m = inner.left_size;
                let l_from = if from < m { from } else { m };
                let l_to = if to < m { to } else { m };
                let r_from = if from > m { from - m } else { 0 };
                let r_to = if to > m { to - m } else { 0 };
                let mut left_part = inner.left.collect_range(l_from, l_to);
                let mut right_part = inner.right.collect_range(r_from, r_to);
                left_part.append(&mut right_part);
                proof {
                    assert(left_part@ =~= (left_view + right_view).subrange(
                        from as int,
                        to as int,
                    ));
                }
                left_part
            },
        }
    }
}

/// Appends every byte of `input` onto `v`, in order.
fn append_slice(v: &mut Vec<u8>, input: &[u8])
    requires
        old(v)@.len() + input@.len() <= usize::MAX,
    ensures
        final(v)@ == old(v)@ + input@,
{
    let mut i: usize = 0;
    while i < input.len()
        invariant
            i <= input@.len(),
            old(v)@.len() + input@.len() <= usize::MAX,
            v@ == old(v)@ + input@.subrange(0, i as int),
        decreases input@.len() - i,
    {
        v.push(input[i]);
        i = i + 1;
        proof {
            assert(v@ =~= old(v)@ + input@.subrange(0, i as int));
        }
    }
    proof {
        assert(v@ =~= old(v)@ + input@);
    }
}

/// A copy of `v`'s byte range `[from, to)`.
fn copy_range(v: &Vec<u8>, from: usize, to: usize) -> (r: Vec<u8>)
    requires
        from <= to <= v@.len(),
    ensures
        r@ == v@.subrange(from as int, to as int),
{
    let mut out: Vec<u8> = Vec::new();
    let mut i: usize = from;
    while i < to
        invariant
            from <= i <= to <= v@.len(),
            out@ == v@.subrange(from as int, i as int),
        decreases to - i,
    {
        out.push(v[i]);
        i = i + 1;
        proof {
            assert(out@ =~= v@.subrange(from as int, i as int));
        }
    }
    out
}

/// An in-memory, splittable and mergeable byte sequence. Its abstract value
/// (the view) is the full byte sequence in order.
pub struct Rope {
    root: Node,
}

impl View for Rope {
    type V = Seq<u8>;

    closed spec fn view(&self) -> Seq<u8> {
        self.root.view()
    }
}

impl Rope {
    /// Structural well-formedness: cached sizes match and no internal node
    /// has an empty child. Established by `new` and preserved by every
    /// operation.
    pub closed spec fn wf(&self) -> bool {
        self.root.wf()
    }

    /// Whether the whole tree has been collapsed into a single leaf.
    pub closed spec fn is_flat(&self) -> bool {
        self.root is Leaf
    }

    /// An empty rope.
    pub fn new() -> (r: Rope)
        ensures
            r.wf(),
            r@ == Seq::<u8>::empty(),
    {
        Rope { root: Node::Leaf(Vec::new()) }
    }

    /// The total number of bytes.
    pub fn len(&self) -> (r: usize)
        requires
            self.wf(),
        ensures
            r == self@.len(),
    {
        self.root.size()
    }

    /// Whether the rope holds no bytes.
    pub fn is_empty(&self) -> (r: bool)
        requires
            self.wf(),
        ensures
            r == (self@.len() == 0),
    {
        self.len() == 0
    }

    /// Inserts `input` at byte position `index`; appends when
    /// `index == len()`. Fails with `OutOfRange` (leaving the bytes
    /// unchanged) exactly when `index > len()`, or when the grown length
    /// would not fit in `usize`.
    pub fn insert_at(&mut self, index: usize, input: &[u8]) -> (r: Result<(), EditorError>)
        requires
            old(self).wf(),
        ensures
            final(self).wf(),
            index <= old(self)@.len() && old(self)@.len() + input@.len() <= usize::MAX ==> r
                == Ok::<(), EditorError>(()) && final(self)@ == spliced_in(
                old(self)@,
                index as int,
                input@,
            ),
            !(index <= old(self)@.len() && old(self)@.len() + input@.len() <= usize::MAX) ==> r
                == Err::<(), EditorError>(EditorError::OutOfRange) && *final(self) == *old(self),
    {
        let n = self.len();
        if index > n || input.len() > usize::MAX - n {
            return Err(EditorError::OutOfRange);
        }
        let mut root = Node::Leaf(Vec::new());
        core::mem::swap(&mut self.root, &mut root);
        self.root = root.insert_at(index, input);
        Ok(())
    }

    /// Removes the byte range `[from, from + size)`. Fails with `OutOfRange`
    /// (leaving the bytes unchanged) exactly when the range does not fit,
    /// that is when `from + size > len()`.
    pub fn remove(&mut self, from: usize, size: usize) -> (r: Result<(), EditorError>)
        requires
            old(self).wf(),
        ensures
            final(self).wf(),
            from + size <= old(self)@.len() ==> r == Ok::<(), EditorError>(()) && final(self)@
                == spliced_out(old(self)@, from as int, from + size),
            from + size > old(self)@.len() ==> r == Err::<(), EditorError>(
                EditorError::OutOfRange,
            ) && *final(self) == *old(self),
    {
        let n = self.len();
        if size > n || from > n - size {
            return Err(EditorError::OutOfRange);
        }
        let mut root = Node::Leaf(Vec::new());
        core::mem::swap(&mut self.root, &mut root);
        self.root = root.remove_range(from, from + size);
        Ok(())
    }

    /// The bytes of the range `[from, to)`. Fails with `OutOfRange` exactly
    /// when the range is reversed (`from > to`) or reaches past the end
    /// (`to > len()`); nothing is clamped.
    pub fn collect(&self, from: usize, to: usize) -> (r: Result<Vec<u8>, EditorError>)
        requires
            self.wf(),
        ensures
            from <= to <= self@.len() ==> (r matches Ok(bytes) && bytes@ == self@.subrange(
                from as int,
                to as int,
            )),
            !(from <= to <= self@.len()) ==> r == Err::<Vec<u8>, EditorError>(
                EditorError::OutOfRange,
            ),
    {
        if from > to || to > self.len() {
            return Err(EditorError::OutOfRange);
        }
        Ok(self.root.collect_range(from, to))
    }

    /// Collapses the whole tree into a single leaf holding every byte in
    /// order; the bytes themselves do not change.
    pub fn flatten(&mut self)
        requires
            old(self).wf(),
        ensures
            final(self).wf(),
            final(self)@ == old(self)@,
            final(self).is_flat(),
    {
        let mut root = Node::Leaf(Vec::new());
        core::mem::swap(&mut self.root, &mut root);
        self.root = Node::Leaf(root.flatten_to_vec());
    }

    /// Every position at which `needle` occurs, in strictly ascending order:
    /// the result lists each matching offset once and nothing else.
    pub fn search(&self, needle: u8) -> (r: Vec<usize>)
        requires
            self.wf(),
        ensures
            forall|i: int, j: int| 0 <= i < j < r@.len() ==> r@[i] < r@[j],
            forall|i: int| 0 <= i < r@.len() ==> r@[i] < self@.len() && self@[r@[i] as int]
                == needle,
            forall|k: int| 0 <= k < self@.len() && self@[k] == needle ==> r@.contains(k as usize),
    {
        let n = self.len();
        let bytes = self.root.collect_range(0, n);
        proof {
            assert(bytes@ =~= self@);
        }
        let mut out: Vec<usize> = Vec::new();
        let mut i: usize = 0;
        while i < n
            invariant
                i <= n == self@.len(),
                bytes@ == self@,
                forall|a: int, b: int| 0 <= a < b < out@.len() ==> out@[a] < out@[b],
                forall|a: int| 0 <= a < out@.len() ==> out@[a] < i && self@[out@[a] as int]
                    == needle,
                forall|k: int| 0 <= k < i && self@[k] == needle ==> out@.contains(k as usize),
            decreases n - i,
        {
            if bytes[i] == needle {
                let ghost prev = out@;
                out.push(i);
                proof {
                    assert(out@[prev.len() as int] == i);
                    assert(forall|a: int| 0 <= a < prev.len() ==> out@[a] == prev[a]);
                    assert(forall|k: int|
                        0 <= k < i + 1 && self@[k] == needle ==> out@.contains(k as usize)) by {
                        assert(out@.contains(i));
                        assert(forall|k: usize| #[trigger] prev.contains(k) ==> out@.contains(k));
                    }
                }
            }
            i = i + 1;
        }
        out
    }
}

/// Offset arithmetic after an insert: writing `d` at offset `o` grows the
/// byte sequence by `|d|`, places `d` exactly at `[o, o + |d|)`, and leaves
/// the bytes before `o` and the bytes previously at and after `o` (now
/// shifted right by `|d|`) unchanged.
pub proof fn lemma_insert_offset_arithmetic(s: Seq<u8>, o: int, d: Seq<u8>)
    requires
        0 <= o <= s.len(),
    ensures
        spliced_in(s, o, d).len() == s.len() + d.len(),
        spliced_in(s, o, d).subrange(o, o + d.len()) == d,
        forall|j: int| 0 <= j < o ==> spliced_in(s, o, d)[j] == s[j],
        forall|j: int| o <= j < s.len() ==> spliced_in(s, o, d)[j + d.len()] == s[j],
{
    assert(spliced_in(s, o, d).subrange(o, o + d.len()) =~= d);
}

/// Offset arithmetic after a remove: deleting `k` bytes at offset `o`
/// shrinks the byte sequence by `k`, keeps the bytes before `o`, and moves
/// the bytes previously at `[o + k, len)` to `[o, len - k)`.
pub proof fn lemma_remove_offset_arithmetic(s: Seq<u8>, o: int, k: int)
    requires
        0 <= o,
        0 <= k,
        o + k <= s.len(),
    ensures
        spliced_out(s, o, o + k).len() == s.len() - k,
        forall|j: int| 0 <= j < o ==> spliced_out(s, o, o + k)[j] == s[j],
        forall|j: int| o + k <= j < s.len() ==> spliced_out(s, o, o + k)[j - k] == s[j],
{
}

/// Round-trip: `collect(0, len())` returns `subrange(0, len)` of the rope's
/// bytes, and that subrange is the whole byte sequence — so reading the rope
/// back yields exactly the bytes that the preceding splices produced.
pub proof fn lemma_collect_round_trip(s: Seq<u8>)
    ensures
        s.subrange(0, s.len() as int) == s,
{
    assert(s.subrange(0, s.len() as int) =~= s);
}

} // verus!

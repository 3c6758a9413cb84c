use vstd::prelude::*;
use crate::error::runtime_error::RuntimeError;
use crate::interpreter::value::Value;
use std::collections::HashSet;

verus! {

broadcast use vstd::std_specs::hash::group_hash_axioms;

/// A block of the heap that has been handed out: its start (relative to the
/// heap's first address) and its length in words.
#[derive(Debug, Copy, Clone, PartialEq, Eq, Structural)]
pub struct AllocInfo {
    pub ptr: usize,
    pub len: usize,
}

/// The heap of the virtual machine: words at addresses `ptr_offset..`, and the
/// blocks handed out, kept in the order of their start.
#[derive(Debug)]
pub struct Heap {
    pub heap_size: usize,
    pub mem: Vec<Value>,
    pub ptr_offset: usize,
    pub free_space: usize,
    pub allocated: Vec<AllocInfo>,
}

/// The position after the last word of a block.
pub open spec fn end_of(a: AllocInfo) -> int {
    a.ptr + a.len
}

/// The blocks follow one another in the order of their start, without overlap.
pub open spec fn ordered(a: Seq<AllocInfo>) -> bool {
    forall|i: int, j: int| 0 <= i < j < a.len() ==> #[trigger] end_of(a[i]) <= #[trigger] a[j].ptr
}

/// The end of the last block, or 0.
pub open spec fn last_end(a: Seq<AllocInfo>) -> int {
    if a.len() == 0 {
        0
    } else {
        end_of(a.last())
    }
}

/// Searching from the pair of blocks `i`, `i + 1` onwards: the end of the first
/// block after which a gap of at least `size` words follows, or the end of the last block.
pub open spec fn gap_fit(a: Seq<AllocInfo>, size: int, i: int) -> int
    decreases a.len() - i,
{
    if i + 1 >= a.len() {
        last_end(a)
    } else if a[i + 1].ptr - end_of(a[i]) >= size {
        end_of(a[i])
    } else {
        gap_fit(a, size, i + 1)
    }
}

/// Where a block of `size` words is placed: first fit after a block, else after the last one.
pub open spec fn placement(a: Seq<AllocInfo>, size: int) -> int {
    if a.len() == 0 {
        0
    } else {
        gap_fit(a, size, 0)
    }
}

/// The number of leading blocks that start at or before `p` (for ordered blocks).
pub open spec fn count_le(a: Seq<AllocInfo>, p: int) -> nat
    decreases a.len(),
{
    if a.len() == 0 {
        0
    } else if a.last().ptr <= p {
        a.len()
    } else {
        count_le(a.drop_last(), p)
    }
}

/// The word at relative address `p` of the memory `m`: `Null` past the words written.
pub open spec fn heap_word(m: Seq<Value>, p: int) -> Value {
    if 0 <= p < m.len() {
        m[p]
    } else {
        Value::Null
    }
}

/// The memory `m` after writing `v` at relative address `p`, grown with `Null` words as needed.
pub open spec fn heap_written(m: Seq<Value>, p: int, v: Value) -> Seq<Value> {
    let n = if p < m.len() { m.len() as int } else { p + 1 };
    Seq::new(n as nat, |i: int| if i == p { v } else { heap_word(m, i) })
}

// ---------------------------------------------------------------------------
// Garbage collection
// ---------------------------------------------------------------------------

/// The block addresses that the values of `s` refer to.
pub open spec fn ref_ptrs(s: Seq<Value>) -> Set<u32>
    decreases s.len(),
{
    if s.len() == 0 {
        Set::empty()
    } else {
        let rest = ref_ptrs(s.drop_last());
        match s.last() {
            Value::RefValue { ptr, .. } => rest.insert(ptr),
            _ => rest,
        }
    }
}

/// The block addresses that the stack `stack` and the heap words `mem` refer to:
/// the only addresses that marking can record.
pub open spec fn reach(stack: Seq<Value>, mem: Seq<Value>) -> Set<u32> {
    ref_ptrs(stack).union(ref_ptrs(mem))
}

/// Every reference in `s` ends within the `u32` addresses.
pub open spec fn refs_fit(s: Seq<Value>) -> bool {
    forall|i: int| 0 <= i < s.len() ==> (#[trigger] s[i] matches Value::RefValue { ptr, len } ==> ptr + len <= u32::MAX)
}

/// What a collection needs of the stack and the heap words: their references end
/// within the `u32` addresses, and they refer to no more distinct addresses than
/// the stack has words.
pub open spec fn gc_ready(stack: Seq<Value>, mem: Seq<Value>) -> bool {
    &&& reach(stack, mem).len() <= stack.len()
    &&& refs_fit(stack)
    &&& refs_fit(mem)
}

/// The word that marking reads at address `p`, with the set `used` recorded so far:
/// a stack word while `p` is below the number of recorded addresses, else the heap
/// word at `p` when `p` lies in the heap; `None` where it reads nothing.
pub open spec fn mark_read(p: int, stack: Seq<Value>, mem: Seq<Value>, off: int, used: Set<u32>) -> Option<Value> {
    if p < used.len() {
        if 0 <= p < stack.len() {
            Some(stack[p])
        } else {
            None
        }
    } else if p < off {
        None
    } else if p - off < mem.len() {
        Some(mem[p - off])
    } else {
        None
    }
}

/// The recorded addresses after marking from address `p`: a reference read there
/// whose address is new is recorded, and marking goes on over the words it spans.
pub open spec fn mark_from(p: int, stack: Seq<Value>, mem: Seq<Value>, off: int, used: Set<u32>) -> Set<u32>
    decreases reach(stack, mem).difference(used).len(), 0nat, 0int,
{
    match mark_read(p, stack, mem, off, used) {
        Some(Value::RefValue { ptr, len }) => if used.contains(ptr) {
            used
        } else {
            proof {
                lemma_mark_read_reach(p, stack, mem, off, used);
                lemma_difference_insert(reach(stack, mem), used, ptr);
            }
            mark_span(ptr as int, ptr + len, stack, mem, off, used.insert(ptr))
        },
        _ => used,
    }
}

/// The recorded addresses after marking from each address of `lo..hi` in turn.
pub open spec fn mark_span(lo: int, hi: int, stack: Seq<Value>, mem: Seq<Value>, off: int, used: Set<u32>) -> Set<u32>
    decreases reach(stack, mem).difference(used).len(), 1nat, hi - lo,
{
    if lo >= hi {
        used
    } else {
        let next = mark_from(lo, stack, mem, off, used);
        if used.subset_of(next) {
            proof {
                lemma_reach_finite(stack, mem);
                lemma_difference_subset(reach(stack, mem), used, next);
            }
            mark_span(lo + 1, hi, stack, mem, off, next)
        } else {
            next
        }
    }
}

/// The addresses that a collection finds in use: those marked from every stack address.
pub open spec fn marks(stack: Seq<Value>, mem: Seq<Value>, off: int) -> Set<u32> {
    mark_span(0, stack.len() as int, stack, mem, off, Set::empty())
}

/// The blocks that a collection keeps: those whose start is among the marked addresses.
pub open spec fn kept(a: Seq<AllocInfo>, m: Set<u32>) -> Seq<AllocInfo>
    decreases a.len(),
{
    if a.len() == 0 {
        Seq::empty()
    } else if m.contains(a.last().ptr as u32) {
        kept(a.drop_last(), m).push(a.last())
    } else {
        kept(a.drop_last(), m)
    }
}

/// The words of the blocks that a collection releases.
pub open spec fn freed_len(a: Seq<AllocInfo>, m: Set<u32>) -> int
    decreases a.len(),
{
    if a.len() == 0 {
        0
    } else if m.contains(a.last().ptr as u32) {
        freed_len(a.drop_last(), m)
    } else {
        freed_len(a.drop_last(), m) + a.last().len
    }
}

/// The words of all the blocks.
pub open spec fn total_len(a: Seq<AllocInfo>) -> int
    decreases a.len(),
{
    if a.len() == 0 {
        0
    } else {
        total_len(a.drop_last()) + a.last().len
    }
}

/// Whether some block is followed by a gap of at least `size` words.
pub open spec fn gap_found(a: Seq<AllocInfo>, size: int) -> bool {
    exists|j: int| 0 <= j < a.len() - 1 && #[trigger] a[j + 1].ptr - end_of(a[j]) >= size
}

/// Whether placing a block of `size` words collects first: no gap fits it, and after
/// the last block it would reach the end of the heap.
pub open spec fn needs_gc(a: Seq<AllocInfo>, size: int, heap_size: int) -> bool {
    a.len() > 0 && !gap_found(a, size) && last_end(a) + size >= heap_size
}

/// `ref_ptrs(s)` is finite and holds the address of every reference in `s`.
pub proof fn lemma_ref_ptrs(s: Seq<Value>)
    ensures
        ref_ptrs(s).finite(),
        forall|i: int| 0 <= i < s.len() ==> (#[trigger] s[i] matches Value::RefValue { ptr, .. } ==> ref_ptrs(s).contains(ptr)),
    decreases s.len(),
{
    if s.len() > 0 {
        lemma_ref_ptrs(s.drop_last());
        assert forall|i: int| 0 <= i < s.len() implies (#[trigger] s[i] matches Value::RefValue { ptr, .. } ==> ref_ptrs(s).contains(ptr)) by {
            if i < s.len() - 1 {
                assert(s[i] == s.drop_last()[i]);
            }
        }
    }
}

/// The addresses that marking can record form a finite set.
pub proof fn lemma_reach_finite(stack: Seq<Value>, mem: Seq<Value>)
    ensures
        reach(stack, mem).finite(),
{
    lemma_ref_ptrs(stack);
    lemma_ref_ptrs(mem);
}

/// A reference that marking reads refers to an address that marking can record.
pub proof fn lemma_mark_read_reach(p: int, stack: Seq<Value>, mem: Seq<Value>, off: int, used: Set<u32>)
    ensures
        reach(stack, mem).finite(),
        mark_read(p, stack, mem, off, used) matches Some(Value::RefValue { ptr, .. }) ==> reach(stack, mem).contains(ptr),
{
    lemma_ref_ptrs(stack);
    lemma_ref_ptrs(mem);
    if p < used.len() {
        if 0 <= p < stack.len() {
            assert(stack[p] == stack[p]);
        }
    } else if p >= off && p - off < mem.len() {
        assert(mem[p - off] == mem[p - off]);
    }
}

/// Recording a new address of a finite set `r` leaves fewer addresses of `r` to record.
pub proof fn lemma_difference_insert(r: Set<u32>, u: Set<u32>, x: u32)
    requires
        r.finite(),
        r.contains(x),
        !u.contains(x),
    ensures
        r.difference(u.insert(x)).len() < r.difference(u).len(),
{
    assert(r.difference(u.insert(x)) =~= r.difference(u).remove(x));
    vstd::set::axiom_set_difference_finite(r, u);
    vstd::set::axiom_set_remove_len(r.difference(u), x);
}

/// Recording more addresses leaves no more addresses of a finite set `r` to record.
pub proof fn lemma_difference_subset(r: Set<u32>, u: Set<u32>, v: Set<u32>)
    requires
        r.finite(),
        u.subset_of(v),
    ensures
        r.difference(v).len() <= r.difference(u).len(),
{
    vstd::set::axiom_set_difference_finite(r, u);
    vstd::set_lib::lemma_len_subset(r.difference(v), r.difference(u));
}

/// In ordered blocks, every block ends at or before the last block ends.
proof fn lemma_end_le_last(a: Seq<AllocInfo>, i: int)
    requires
        ordered(a),
        0 <= i < a.len(),
    ensures
        end_of(a[i]) <= last_end(a),
{
    if i < a.len() - 1 {
        assert(end_of(a[i]) <= a[a.len() - 1].ptr);
    }
}

/// The blocks a collection keeps are blocks of `a`; kept from ordered blocks they are
/// ordered, and they end no later.
pub proof fn lemma_kept(a: Seq<AllocInfo>, m: Set<u32>)
    ensures
        kept(a, m).len() <= a.len(),
        forall|k: int| 0 <= k < kept(a, m).len() ==> exists|i: int| 0 <= i < a.len() && #[trigger] kept(a, m)[k] == a[i],
        ordered(a) ==> ordered(kept(a, m)),
        ordered(a) ==> last_end(kept(a, m)) <= last_end(a),
    decreases a.len(),
{
    if a.len() > 0 {
        let b = a.drop_last();
        let kb = kept(b, m);
        lemma_kept(b, m);
        assert forall|k: int| 0 <= k < kept(a, m).len() implies exists|i: int| 0 <= i < a.len() && #[trigger] kept(a, m)[k] == a[i] by {
            if k < kb.len() {
                let i = choose|i: int| 0 <= i < b.len() && kb[k] == b[i];
                assert(kept(a, m)[k] == a[i]);
            } else {
                assert(kept(a, m)[k] == a[a.len() - 1]);
            }
        }
        if ordered(a) {
            assert(ordered(b));
            let ka = kept(a, m);
            assert forall|x: int, y: int| 0 <= x < y < ka.len() implies #[trigger] end_of(ka[x]) <= #[trigger] ka[y].ptr by {
                if y >= kb.len() {
                    assert(ka[x] == kb[x]);
                    let i = choose|i: int| 0 <= i < b.len() && kb[x] == b[i];
                    assert(end_of(a[i]) <= a[a.len() - 1].ptr);
                } else {
                    assert(ka[x] == kb[x] && ka[y] == kb[y]);
                }
            }
            if ka.len() > 0 {
                let i = choose|i: int| 0 <= i < a.len() && ka[ka.len() - 1] == a[i];
                lemma_end_le_last(a, i);
            }
        }
    }
}

/// The words released are some of the words of all the blocks.
proof fn lemma_freed_len(a: Seq<AllocInfo>, m: Set<u32>)
    ensures
        0 <= freed_len(a, m) <= total_len(a),
    decreases a.len(),
{
    if a.len() > 0 {
        lemma_freed_len(a.drop_last(), m);
    }
}

/// The blocks of a prefix hold no more words than all the blocks.
proof fn lemma_total_len_prefix(a: Seq<AllocInfo>, j: int)
    requires
        0 <= j <= a.len(),
    ensures
        0 <= total_len(a.take(j)) <= total_len(a),
    decreases a.len(),
{
    if j < a.len() {
        assert(a.take(j) == a.drop_last().take(j));
        lemma_total_len_prefix(a.drop_last(), j);
    } else {
        assert(a.take(j) == a);
        lemma_total_len_nonneg(a);
    }
}

proof fn lemma_total_len_nonneg(a: Seq<AllocInfo>)
    ensures
        total_len(a) >= 0,
    decreases a.len(),
{
    if a.len() > 0 {
        lemma_total_len_nonneg(a.drop_last());
    }
}

/// What handing out a block of `size` words did to the blocks `a`, giving `after` and
/// the result `r`: the block goes where `placement` says; when it reaches the end of
/// a heap of `heap_size` words the result is `OutOfMemory` and the block is recorded
/// last, else the result is its absolute address and it is recorded in order.
pub open spec fn allocated_as(a: Seq<AllocInfo>, after: Seq<AllocInfo>, heap_size: int, off: int, size: int, r: Result<u32, RuntimeError>) -> bool {
    let p = placement(a, size);
    let info = AllocInfo { ptr: p as usize, len: size as usize };
    if p + size >= heap_size {
        &&& r == Err::<u32, RuntimeError>(RuntimeError::OutOfMemory)
        &&& after == a.push(info)
    } else {
        &&& r == Ok::<u32, RuntimeError>((off + p) as u32)
        &&& after == a.insert(count_le(a, p) as int, info)
    }
}

impl Heap {
    /// The blocks are ordered and every address fits in a `usize`.
    pub open spec fn wf(&self) -> bool {
        &&& ordered(self.allocated@)
        &&& last_end(self.allocated@) <= usize::MAX
    }

    pub fn new(ptr_offset: usize, heap_size: usize) -> (h: Self)
        ensures
            h.wf(),
            h.heap_size == heap_size,
            h.ptr_offset == ptr_offset,
            h.free_space == heap_size,
            h.mem@.len() == 0,
            h.allocated@.len() == 0,
    {
        Heap {
            heap_size,
            mem: Vec::with_capacity(1000),
            ptr_offset,
            free_space: heap_size,
            allocated: Vec::new(),
        }
    }

    /// Hands out a block of `size` words and returns its absolute address.
    ///
    /// The block goes after the first block that is followed by a gap of at least
    /// `size` words, else after the last block. When it then reaches the end of the
    /// heap the result is `OutOfMemory`, and the block stays recorded at the end of
    /// the list.
    pub fn allocate(&mut self, size: u32) -> (r: Result<u32, RuntimeError>)
        requires
            old(self).wf(),
            old(self).free_space >= size,
            old(self).ptr_offset + last_end(old(self).allocated@) + size <= usize::MAX,
        ensures
            final(self).heap_size == old(self).heap_size,
            final(self).ptr_offset == old(self).ptr_offset,
            final(self).mem == old(self).mem,
            final(self).free_space == old(self).free_space - size,
            allocated_as(old(self).allocated@, final(self).allocated@, old(self).heap_size as int, old(self).ptr_offset as int, size as int, r),
            size > 0 && r is Ok ==> final(self).wf(),
    {
        self._alloc(size, None)
    }

    /// Hands out a block of `size` words as `allocate` does, but first collects the
    /// blocks not in use (see `gc`) when no gap fits the block and after the last
    /// block it would reach the end of the heap.
    pub fn gc_alloc(&mut self, size: u32, stack: &[Value]) -> (r: Result<u32, RuntimeError>)
        requires
            old(self).wf(),
            old(self).free_space >= size,
            old(self).ptr_offset + last_end(old(self).allocated@) + size <= usize::MAX,
            gc_ready(stack@, old(self).mem@),
            old(self).free_space + total_len(old(self).allocated@) <= usize::MAX,
        ensures
            final(self).heap_size == old(self).heap_size,
            final(self).ptr_offset == old(self).ptr_offset,
            final(self).mem == old(self).mem,
            ({
                let a = old(self).allocated@;
                let m = marks(stack@, old(self).mem@, old(self).ptr_offset as int);
                if needs_gc(a, size as int, old(self).heap_size as int) {
                    &&& final(self).free_space == old(self).free_space + freed_len(a, m) - size
                    &&& allocated_as(kept(a, m), final(self).allocated@, old(self).heap_size as int, old(self).ptr_offset as int, size as int, r)
                } else {
                    &&& final(self).free_space == old(self).free_space - size
                    &&& allocated_as(a, final(self).allocated@, old(self).heap_size as int, old(self).ptr_offset as int, size as int, r)
                }
            }),
            size > 0 && r is Ok ==> final(self).wf(),
    {
        self._alloc(size, Some(stack))
    }

    /// Hands out a block of `size` words, collecting first as `gc_alloc` does when a
    /// stack is given.
    pub fn _alloc(&mut self, size: u32, stack: Option<&[Value]>) -> (r: Result<u32, RuntimeError>)
        requires
            old(self).wf(),
            old(self).free_space >= size,
            old(self).ptr_offset + last_end(old(self).allocated@) + size <= usize::MAX,
            stack matches Some(st) ==> gc_ready(st@, old(self).mem@) && old(self).free_space + total_len(
                old(self).allocated@,
            ) <= usize::MAX,
        ensures
            final(self).heap_size == old(self).heap_size,
            final(self).ptr_offset == old(self).ptr_offset,
            final(self).mem == old(self).mem,
            ({
                let a = old(self).allocated@;
                if stack is Some && needs_gc(a, size as int, old(self).heap_size as int) {
                    let m = marks(stack->0@, old(self).mem@, old(self).ptr_offset as int);
                    &&& final(self).free_space == old(self).free_space + freed_len(a, m) - size
                    &&& allocated_as(kept(a, m), final(self).allocated@, old(self).heap_size as int, old(self).ptr_offset as int, size as int, r)
                } else {
                    &&& final(self).free_space == old(self).free_space - size
                    &&& allocated_as(a, final(self).allocated@, old(self).heap_size as int, old(self).ptr_offset as int, size as int, r)
                }
            }),
            size > 0 && r is Ok ==> final(self).wf(),
    {
        let ghost a0 = self.allocated@;
        let ptr = self.find_space(size as usize, stack);
        let ghost a = self.allocated@;
        proof {
            if let Some(st) = stack {
                lemma_freed_len(a0, marks(st@, self.mem@, self.ptr_offset as int));
            }
        }
        let info = AllocInfo { ptr, len: size as usize };
        self.free_space = self.free_space - size as usize;
        if ptr + (size as usize) >= self.heap_size {
            self.allocated.push(info);
            return Err(RuntimeError::OutOfMemory);
        }
        let k = self.insert_index(ptr);
        self.allocated.insert(k, info);
        proof {
            if size > 0 {
                lemma_insert_ordered(a, size as int);
            }
        }
        Ok((self.ptr_offset + ptr) as u32)
    }

    /// Releases the block that starts at the absolute address `ptr`; exactly one
    /// block must start there.
    pub fn free(&mut self, ptr: u32)
        requires
            old(self).ptr_offset <= ptr,
            exists|k: int|
                0 <= k < old(self).allocated@.len() && #[trigger] old(self).allocated@[k].ptr == ptr
                    - old(self).ptr_offset && forall|j: int|
                    0 <= j < old(self).allocated@.len() && j != k ==> old(
                        self,
                    ).allocated@[j].ptr != ptr - old(self).ptr_offset,
        ensures
            final(self).heap_size == old(self).heap_size,
            final(self).ptr_offset == old(self).ptr_offset,
            final(self).mem == old(self).mem,
            final(self).free_space == old(self).free_space,
            ({
                let k = choose|k: int|
                    0 <= k < old(self).allocated@.len() && #[trigger] old(self).allocated@[k].ptr
                        == ptr - old(self).ptr_offset;
                final(self).allocated@ == old(self).allocated@.remove(k)
            }),
            old(self).wf() ==> final(self).wf(),
    {
        let rel = self.rel_ptr(ptr as usize);
        let ghost a = self.allocated@;
        let mut i: usize = 0;
        while self.allocated[i].ptr != rel
            invariant
                self.allocated@ == a,
                rel == ptr - self.ptr_offset,
                0 <= i < a.len(),
                forall|j: int| 0 <= j < i ==> a[j].ptr != rel,
                exists|k: int| i <= k < a.len() && #[trigger] a[k].ptr == rel,
            decreases a.len() - i,
        {
            proof {
                assert(a[i as int].ptr != rel);
                let k = choose|k: int| i <= k < a.len() && #[trigger] a[k].ptr == rel;
                assert(k > i);
                assert(exists|k: int| i + 1 <= k < a.len() && #[trigger] a[k].ptr == rel);
            }
            assert(i + 1 < self.allocated.len());
            i += 1;
        }
        self.allocated.remove(i);
        proof {
            let k = choose|k: int| 0 <= k < a.len() && #[trigger] a[k].ptr == rel;
            assert(k == i);
            if ordered(a) {
                assert forall|x: int, y: int|
                    0 <= x < y < self.allocated@.len() implies #[trigger] end_of(
                    self.allocated@[x],
                ) <= #[trigger] self.allocated@[y].ptr by {
                    let xx = if x < i { x } else { x + 1 };
                    let yy = if y < i { y } else { y + 1 };
                    assert(self.allocated@[x] == a[xx]);
                    assert(self.allocated@[y] == a[yy]);
                }
                if self.allocated@.len() > 0 {
                    let n = a.len() - 1;
                    if i < n {
                        assert(self.allocated@.last() == a.last());
                    } else {
                        assert(end_of(self.allocated@.last()) <= a[n].ptr);
                    }
                }
            }
        }
    }

    /// Releases every block whose start is not among the addresses found in use by
    /// marking from each stack address; the space of the released blocks becomes free.
    pub fn gc(&mut self, stack: &[Value])
        requires
            gc_ready(stack@, old(self).mem@),
            old(self).free_space + total_len(old(self).allocated@) <= usize::MAX,
        ensures
            final(self).heap_size == old(self).heap_size,
            final(self).ptr_offset == old(self).ptr_offset,
            final(self).mem == old(self).mem,
            ({
                let m = marks(stack@, old(self).mem@, old(self).ptr_offset as int);
                &&& final(self).allocated@ == kept(old(self).allocated@, m)
                &&& final(self).free_space == old(self).free_space + freed_len(old(self).allocated@, m)
            }),
            old(self).wf() ==> final(self).wf(),
            last_end(final(self).allocated@) <= last_end(old(self).allocated@) || !old(self).wf(),
    {
        let ghost r = reach(stack@, self.mem@);
        let ghost off = self.ptr_offset as int;
        proof {
            lemma_reach_finite(stack@, self.mem@);
        }
        let mut used: HashSet<u32> = HashSet::new();
        let mut i: usize = 0;
        while i < stack.len()
            invariant
                r == reach(stack@, self.mem@),
                r.finite(),
                off == self.ptr_offset,
                gc_ready(stack@, self.mem@),
                i <= stack@.len(),
                used@.subset_of(r),
                mark_span(i as int, stack@.len() as int, stack@, self.mem@, off, used@)
                    == marks(stack@, self.mem@, off),
            decreases stack@.len() - i,
        {
            let ghost before = used@;
            self.mark(i, stack, &mut used);
            assert(mark_span(i as int, stack@.len() as int, stack@, self.mem@, off, before)
                == mark_span(i + 1, stack@.len() as int, stack@, self.mem@, off, used@));
            i += 1;
        }
        let ghost m = used@;
        let ghost a = self.allocated@;
        proof {
            lemma_total_len_prefix(a, a.len() as int);
        }
        let mut keep: Vec<AllocInfo> = Vec::new();
        let mut j: usize = 0;
        while j < self.allocated.len()
            invariant
                a == self.allocated@,
                m == used@,
                j <= a.len(),
                keep@ == kept(a.take(j as int), m),
                self.free_space == old(self).free_space + freed_len(a.take(j as int), m),
                old(self).free_space + total_len(a) <= usize::MAX,
                self.heap_size == old(self).heap_size,
                self.ptr_offset == old(self).ptr_offset,
                self.mem == old(self).mem,
            decreases a.len() - j,
        {
            let info = self.allocated[j];
            proof {
                assert(a.take(j + 1).drop_last() == a.take(j as int));
                assert(a.take(j + 1).last() == info);
                lemma_freed_len(a.take(j + 1), m);
                lemma_total_len_prefix(a, j + 1);
            }
            if used.contains(&(info.ptr as u32)) {
                keep.push(info);
            } else {
                self.free_space = self.free_space + info.len;
            }
            j += 1;
        }
        assert(a.take(a.len() as int) == a);
        self.allocated = keep;
        proof {
            lemma_kept(a, m);
        }
    }

    /// Records the addresses in use that are reached from address `mem_ptr`.
    fn mark(&self, mem_ptr: usize, stack: &[Value], used: &mut HashSet<u32>)
        requires
            old(used)@.subset_of(reach(stack@, self.mem@)),
            gc_ready(stack@, self.mem@),
        ensures
            final(used)@ == mark_from(mem_ptr as int, stack@, self.mem@, self.ptr_offset as int, old(used)@),
            old(used)@.subset_of(final(used)@),
            final(used)@.subset_of(reach(stack@, self.mem@)),
        decreases reach(stack@, self.mem@).difference(old(used)@).len(), 0nat, 0int,
    {
        let ghost r = reach(stack@, self.mem@);
        let ghost off = self.ptr_offset as int;
        proof {
            lemma_reach_finite(stack@, self.mem@);
            vstd::set_lib::lemma_len_subset(used@, r);
            lemma_mark_read_reach(mem_ptr as int, stack@, self.mem@, off, used@);
        }
        let val: Value;
        if mem_ptr < used.len() {
            val = stack[mem_ptr];
        } else {
            if mem_ptr < self.ptr_offset {
                return;
            }
            let rel = self.rel_ptr(mem_ptr);
            if rel >= self.mem.len() {
                return;
            }
            val = self.mem[rel];
        }
        assert(mark_read(mem_ptr as int, stack@, self.mem@, off, old(used)@) == Some(val));
        let (ptr, len) = match val {
            Value::RefValue { ptr, len } => (ptr, len),
            _ => {
                return;
            },
        };
        if used.contains(&ptr) {
            return;
        }
        used.insert(ptr);
        let ghost u1 = used@;
        proof {
            lemma_difference_insert(r, old(used)@, ptr);
            lemma_ref_ptrs(stack@);
            lemma_ref_ptrs(self.mem@);
            if mem_ptr < old(used)@.len() {
                assert(stack@[mem_ptr as int] == val);
            } else {
                assert(self.mem@[mem_ptr - off] == val);
            }
        }
        let end: u32 = ptr + len;
        let mut i: u32 = ptr;
        while i < end
            invariant
                r == reach(stack@, self.mem@),
                r.finite(),
                off == self.ptr_offset,
                gc_ready(stack@, self.mem@),
                ptr <= i <= end,
                end == ptr + len,
                u1 == old(used)@.insert(ptr),
                u1.subset_of(used@),
                used@.subset_of(r),
                r.difference(u1).len() < r.difference(old(used)@).len(),
                mark_span(i as int, end as int, stack@, self.mem@, off, used@)
                    == mark_span(ptr as int, end as int, stack@, self.mem@, off, u1),
            decreases end - i,
        {
            let ghost before = used@;
            proof {
                lemma_difference_subset(r, u1, used@);
            }
            self.mark(i as usize, stack, used);
            assert(mark_span(i as int, end as int, stack@, self.mem@, off, before)
                == mark_span(i + 1, end as int, stack@, self.mem@, off, used@));
            i += 1;
        }
    }

    /// The word at the absolute address `ptr` plus `offset`; `Null` past the words written.
    pub fn load(&self, ptr: u32, offset: u32) -> (v: Value)
        requires
            self.ptr_offset <= ptr,
            ptr - self.ptr_offset + offset <= usize::MAX,
        ensures
            v == heap_word(self.mem@, ptr - self.ptr_offset + offset),
    {
        let p = self.rel_ptr(ptr as usize) + (offset as usize);
        if p >= self.mem.len() {
            return Value::Null;
        }
        self.mem[p]
    }

    /// Writes `value` at the absolute address `ptr` plus `offset`, first growing the
    /// memory with `Null` words up to that address.
    pub fn store(&mut self, ptr: u32, offset: u32, value: Value)
        requires
            old(self).ptr_offset <= ptr,
            ptr - old(self).ptr_offset + offset + 1 <= usize::MAX,
        ensures
            final(self).heap_size == old(self).heap_size,
            final(self).ptr_offset == old(self).ptr_offset,
            final(self).free_space == old(self).free_space,
            final(self).allocated == old(self).allocated,
            final(self).mem@ == heap_written(old(self).mem@, ptr - old(self).ptr_offset + offset, value),
    {
        let p = self.rel_ptr(ptr as usize) + (offset as usize);
        let ghost m = self.mem@;
        while self.mem.len() <= p
            invariant
                self.heap_size == old(self).heap_size,
                self.ptr_offset == old(self).ptr_offset,
                self.free_space == old(self).free_space,
                self.allocated == old(self).allocated,
                m == old(self).mem@,
                m.len() <= self.mem@.len(),
                self.mem@.len() <= p + 1 || self.mem@.len() == m.len(),
                forall|i: int| 0 <= i < self.mem@.len() ==> #[trigger] self.mem@[i] == if i
                    < m.len() {
                    m[i]
                } else {
                    Value::Null
                },
                p == ptr - self.ptr_offset + offset,
                p + 1 <= usize::MAX,
            decreases p + 1 - self.mem@.len(),
        {
            self.mem.push(Value::Null);
        }
        self.mem.set(p, value);
        assert(self.mem@ =~= heap_written(m, p as int, value));
    }

    /// Where a block of `size` words is placed, collecting first when the block
    /// would otherwise reach the end of the heap and a stack is given.
    fn find_space(&mut self, size: usize, stack: Option<&[Value]>) -> (p: usize)
        requires
            old(self).wf(),
            last_end(old(self).allocated@) + size <= usize::MAX,
            stack matches Some(st) ==> gc_ready(st@, old(self).mem@) && old(self).free_space + total_len(
                old(self).allocated@,
            ) <= usize::MAX,
        ensures
            final(self).heap_size == old(self).heap_size,
            final(self).ptr_offset == old(self).ptr_offset,
            final(self).mem == old(self).mem,
            final(self).wf(),
            last_end(final(self).allocated@) <= last_end(old(self).allocated@),
            p <= last_end(final(self).allocated@),
            ({
                let a = old(self).allocated@;
                match stack {
                    Some(st) => if needs_gc(a, size as int, old(self).heap_size as int) {
                        let m = marks(st@, old(self).mem@, old(self).ptr_offset as int);
                        &&& final(self).allocated@ == kept(a, m)
                        &&& final(self).free_space == old(self).free_space + freed_len(a, m)
                        &&& p == placement(kept(a, m), size as int)
                    } else {
                        &&& final(self).allocated@ == a
                        &&& final(self).free_space == old(self).free_space
                        &&& p == placement(a, size as int)
                    },
                    None => {
                        &&& final(self).allocated@ == a
                        &&& final(self).free_space == old(self).free_space
                        &&& p == placement(a, size as int)
                    },
                }
            }),
    {
        self._find_space(size, stack, true)
    }

    /// Where a block of `size` words is placed; `try_free` says whether a collection
    /// may still be tried.
    fn _find_space(&mut self, size: usize, stack: Option<&[Value]>, try_free: bool) -> (p: usize)
        requires
            old(self).wf(),
            last_end(old(self).allocated@) + size <= usize::MAX,
            try_free ==> (stack matches Some(st) ==> gc_ready(st@, old(self).mem@) && old(self).free_space
                + total_len(old(self).allocated@) <= usize::MAX),
        ensures
            final(self).heap_size == old(self).heap_size,
            final(self).ptr_offset == old(self).ptr_offset,
            final(self).mem == old(self).mem,
            final(self).wf(),
            last_end(final(self).allocated@) <= last_end(old(self).allocated@),
            p <= last_end(final(self).allocated@),
            ({
                let a = old(self).allocated@;
                if try_free && stack is Some && needs_gc(a, size as int, old(self).heap_size as int) {
                    let m = marks(stack->0@, old(self).mem@, old(self).ptr_offset as int);
                    &&& final(self).allocated@ == kept(a, m)
                    &&& final(self).free_space == old(self).free_space + freed_len(a, m)
                    &&& p == placement(kept(a, m), size as int)
                } else {
                    &&& final(self).allocated@ == a
                    &&& final(self).free_space == old(self).free_space
                    &&& p == placement(a, size as int)
                }
            }),
        decreases if try_free { 1int } else { 0int },
    {
        let ghost a = self.allocated@;
        if self.allocated.len() == 0 {
            return 0;
        }
        proof {
            lemma_gap_fit_bound(a, size as int, 0);
        }
        let mut i: usize = 0;
        while i < self.allocated.len() - 1
            invariant
                self.wf(),
                a == self.allocated@,
                i < a.len(),
                gap_fit(a, size as int, i as int) == placement(a, size as int),
                forall|j: int| 0 <= j < i ==> #[trigger] a[j + 1].ptr - end_of(a[j]) < size,
            decreases a.len() - i,
        {
            let prev = self.allocated[i];
            let info = self.allocated[i + 1];
            assert(end_of(a[i as int]) <= a[i + 1].ptr);
            let prev_end = prev.ptr + prev.len;
            let free = info.ptr - prev_end;
            if free >= size {
                assert(gap_found(a, size as int));
                return prev_end;
            }
            i += 1;
        }
        let last = self.allocated[i];
        let end = last.ptr + last.len;
        proof {
            if gap_found(a, size as int) {
                let j = choose|j: int| 0 <= j < a.len() - 1 && #[trigger] a[j + 1].ptr - end_of(a[j]) >= size;
                assert(a[j + 1].ptr - end_of(a[j]) < size);
            }
        }
        if end + size >= self.heap_size && try_free {
            if let Some(st) = stack {
                self.gc(st);
                proof {
                    lemma_kept(a, marks(st@, self.mem@, self.ptr_offset as int));
                }
                return self._find_space(size, stack, false);
            }
        }
        end
    }

    /// The position at which a block that starts at `p` keeps the blocks in order.
    fn insert_index(&self, p: usize) -> (k: usize)
        ensures
            k == count_le(self.allocated@, p as int),
            k <= self.allocated@.len(),
    {
        let ghost a = self.allocated@;
        let mut k: usize = self.allocated.len();
        assert(a.subrange(0, a.len() as int) == a);
        while k > 0 && self.allocated[k - 1].ptr > p
            invariant
                k <= a.len(),
                a == self.allocated@,
                count_le(a.subrange(0, k as int), p as int) == count_le(a, p as int),
            decreases k,
        {
            assert(a.subrange(0, k as int).drop_last() == a.subrange(0, k - 1));
            k -= 1;
        }
        if k > 0 {
            assert(a.subrange(0, k as int).last() == a[k - 1]);
        } else {
            assert(a.subrange(0, 0).len() == 0);
        }
        k
    }

    fn rel_ptr(&self, ptr: usize) -> (r: usize)
        requires
            self.ptr_offset <= ptr,
        ensures
            r == ptr - self.ptr_offset,
    {
        ptr - self.ptr_offset
    }
}

/// A new block goes at or after the start of the heap and at or before the end of
/// the last block.
pub proof fn lemma_placement_bounds(a: Seq<AllocInfo>, size: int)
    requires
        ordered(a),
    ensures
        0 <= placement(a, size) <= last_end(a),
{
    if a.len() > 0 {
        lemma_gap_fit_bound(a, size, 0);
    }
}

/// Where the heap's addresses fit in 32 bits, a successful allocation returns
/// exactly the heap's start plus the place of the new block, and the block ends
/// before the end of the heap.
pub proof fn lemma_allocated_address(a: Seq<AllocInfo>, after: Seq<AllocInfo>, heap_size: int, off: int, size: int, r: Result<u32, RuntimeError>)
    requires
        ordered(a),
        0 <= off,
        0 <= size,
        off + heap_size <= u32::MAX + 1,
        allocated_as(a, after, heap_size, off, size, r),
        r is Ok,
    ensures
        r == Ok::<u32, RuntimeError>((off + placement(a, size)) as u32),
        (off + placement(a, size)) as u32 == off + placement(a, size),
        placement(a, size) + size < heap_size,
        after == a.insert(count_le(a, placement(a, size)) as int, AllocInfo { ptr: placement(a, size) as usize, len: size as usize }),
{
    lemma_placement_bounds(a, size);
    let x = off + placement(a, size);
    assert(0 <= x <= u32::MAX);
    assert(x as u32 == x);
}

proof fn lemma_gap_fit_bound(a: Seq<AllocInfo>, size: int, i: int)
    requires
        ordered(a),
        0 <= i < a.len(),
    ensures
        gap_fit(a, size, i) <= last_end(a),
        gap_fit(a, size, i) >= end_of(a[i]),
    decreases a.len() - i,
{
    if i + 1 < a.len() {
        assert(end_of(a[i]) <= a[i + 1].ptr);
        if a[i + 1].ptr - end_of(a[i]) < size {
            lemma_gap_fit_bound(a, size, i + 1);
        }
        assert(end_of(a[i + 1]) <= last_end(a)) by {
            if i + 1 < a.len() - 1 {
                assert(end_of(a[i + 1]) <= a[a.len() - 1].ptr);
            }
        }
    }
}

/// The block after which `gap_fit` places a new block, searching from `i`.
proof fn lemma_gap_fit_block(a: Seq<AllocInfo>, size: int, i: int) -> (j: int)
    requires
        ordered(a),
        0 <= i < a.len(),
    ensures
        i <= j < a.len(),
        gap_fit(a, size, i) == end_of(a[j]),
        j + 1 < a.len() ==> a[j + 1].ptr - end_of(a[j]) >= size,
    decreases a.len() - i,
{
    if i + 1 >= a.len() {
        i
    } else if a[i + 1].ptr - end_of(a[i]) >= size {
        i
    } else {
        lemma_gap_fit_block(a, size, i + 1)
    }
}

/// For ordered blocks, `count_le` counts the blocks that start at or before `p`.
proof fn lemma_count_le(a: Seq<AllocInfo>, p: int, m: int)
    requires
        0 <= m <= a.len(),
        forall|x: int| 0 <= x < m ==> (#[trigger] a[x]).ptr <= p,
        forall|x: int| m <= x < a.len() ==> (#[trigger] a[x]).ptr > p,
    ensures
        count_le(a, p) == m,
    decreases a.len(),
{
    if a.len() > 0 && m < a.len() {
        let b = a.drop_last();
        assert forall|x: int| 0 <= x < m implies (#[trigger] b[x]).ptr <= p by {
            assert(b[x] == a[x]);
        }
        assert forall|x: int| m <= x < b.len() implies (#[trigger] b[x]).ptr > p by {
            assert(b[x] == a[x]);
        }
        lemma_count_le(b, p, m);
    }
}

/// Placing a block of positive size and inserting it where `count_le` says keeps the blocks ordered.
proof fn lemma_insert_ordered(a: Seq<AllocInfo>, size: int)
    requires
        ordered(a),
        last_end(a) <= usize::MAX,
        size > 0,
        placement(a, size) + size <= usize::MAX,
    ensures
        ({
            let p = placement(a, size);
            let b = a.insert(
                count_le(a, p) as int,
                AllocInfo { ptr: p as usize, len: size as usize },
            );
            ordered(b) && last_end(b) <= usize::MAX
        }),
{
    let p = placement(a, size);
    let new = AllocInfo { ptr: p as usize, len: size as usize };
    if a.len() == 0 {
        lemma_count_le(a, p, 0);
        let b = a.insert(0, new);
        assert(b.len() == 1);
        assert(b.last() == new);
    } else {
        let j = lemma_gap_fit_block(a, size, 0);
        assert forall|x: int| 0 <= x <= j implies (#[trigger] a[x]).ptr <= p by {
            if x < j {
                assert(end_of(a[x]) <= a[j].ptr);
            }
        }
        assert forall|x: int| j + 1 <= x < a.len() implies (#[trigger] a[x]).ptr > p by {
            if x > j + 1 {
                assert(end_of(a[j + 1]) <= a[x].ptr);
            }
        }
        lemma_count_le(a, p, j + 1);
        let b = a.insert(j + 1, new);
        assert forall|x: int, y: int| 0 <= x < y < b.len() implies #[trigger] end_of(b[x])
            <= #[trigger] b[y].ptr by {
            if y < j + 1 {
                assert(b[x] == a[x] && b[y] == a[y]);
            } else if y == j + 1 {
                assert(b[x] == a[x]);
                if x < j {
                    assert(end_of(a[x]) <= a[j].ptr);
                }
            } else if x == j + 1 {
                assert(b[y] == a[y - 1]);
                if y - 1 > j + 1 {
                    assert(end_of(a[j + 1]) <= a[y - 1].ptr);
                }
            } else if x < j + 1 {
                assert(b[x] == a[x] && b[y] == a[y - 1]);
                if x < j {
                    assert(end_of(a[x]) <= a[j].ptr);
                }
                if y - 1 > j + 1 {
                    assert(end_of(a[j + 1]) <= a[y - 1].ptr);
                }
            } else {
                assert(b[x] == a[x - 1] && b[y] == a[y - 1]);
            }
        }
        if j + 1 < a.len() {
            assert(b.last() == a.last());
        } else {
            assert(b.last() == new);
        }
    }
}

/// What a read gives back of a write: the word written at `p`, and the old word
/// (or `Null`) everywhere else.
pub proof fn lemma_load_after_store(m: Seq<Value>, p: int, v: Value, q: int)
    requires
        0 <= p,
        0 <= q,
    ensures
        heap_word(heap_written(m, p, v), q) == if q == p { v } else { heap_word(m, q) },
{
}

/// A collection neither loses nor makes words: the words of the blocks it keeps and
/// the words it releases add up to the words of all the blocks.
pub proof fn lemma_gc_conserves_words(a: Seq<AllocInfo>, m: Set<u32>)
    ensures
        total_len(kept(a, m)) + freed_len(a, m) == total_len(a),
    decreases a.len(),
{
    if a.len() > 0 {
        lemma_gc_conserves_words(a.drop_last(), m);
        if m.contains(a.last().ptr as u32) {
            assert(kept(a, m).drop_last() == kept(a.drop_last(), m));
        }
    }
}

/// Ordered blocks never overlap.
pub proof fn lemma_blocks_disjoint(a: Seq<AllocInfo>, i: int, j: int)
    requires
        ordered(a),
        0 <= i < a.len(),
        0 <= j < a.len(),
        i != j,
    ensures
        end_of(a[i]) <= a[j].ptr || end_of(a[j]) <= a[i].ptr,
{
}

} // verus!

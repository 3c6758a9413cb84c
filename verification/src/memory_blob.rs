use vstd::prelude::*;
use std::collections::HashMap;
use crate::error::runtime_error::{RuntimeError, ValueTypeVariant};
use crate::interpreter::interpreter::{Interpreter, VmModel};
use crate::interpreter::value::Value;

verus! {

broadcast use vstd::std_specs::hash::group_hash_axioms;

/// The number of distinct 32-bit addresses.
pub open spec fn address_count() -> int {
    0x1_0000_0000
}

/// A set of 32-bit addresses has at most `address_count()` members.
pub proof fn lemma_addresses_bounded(s: Set<u32>)
    requires
        s.finite(),
    ensures
        s.len() <= address_count(),
{
    let f = |x: u32| x as int;
    let t = s.map(f);
    assert(vstd::relations::injective_on(f, s));
    vstd::set_lib::lemma_map_size(s, t, f);
    vstd::set_lib::lemma_int_range(0, address_count());
    assert(t.subset_of(vstd::set_lib::set_int_range(0, address_count())));
    vstd::set_lib::lemma_len_subset(t, vstd::set_lib::set_int_range(0, address_count()));
}

/// Copying the value `v` of the machine `m` into the blob `mem`, where `map` gives,
/// for each address whose words were copied already, where their copy starts.
/// A reference to an address copied before is written with the address of that
/// copy. A reference to a new address is written with the next position of the
/// blob, and then each word of its range is copied the same way, in order. Any
/// other value is copied as it is. `None` where a range runs past the last 32-bit
/// address or the blob outgrows 32-bit positions.
pub open spec fn resolved(m: VmModel, v: Value, mem: Seq<Value>, map: Map<u32, u32>) -> Option<(Seq<Value>, Map<u32, u32>)>
    decreases address_count() - map.dom().len(), 0int, 0int,
{
    match v {
        Value::RefValue { ptr, len } => {
            if map.contains_key(ptr) {
                Some((mem.push(Value::RefValue { ptr: map[ptr], len }), map))
            } else if mem.len() > u32::MAX || ptr + len > u32::MAX || !map.dom().finite() {
                None
            } else {
                let mapped = mem.len() as u32;
                proof {
                    lemma_addresses_bounded(map.insert(ptr, mapped).dom());
                }
                resolved_range(m, ptr as int, ptr + len, mem.push(Value::RefValue { ptr: mapped, len }), map.insert(ptr, mapped))
            }
        },
        _ => Some((mem.push(v), map)),
    }
}

/// Copying the words at the addresses `i` up to `end` of the machine `m`, in order
/// (see `resolved`).
pub open spec fn resolved_range(m: VmModel, i: int, end: int, mem: Seq<Value>, map: Map<u32, u32>) -> Option<(Seq<Value>, Map<u32, u32>)>
    decreases address_count() - map.dom().len(), 1int, end - i,
{
    if i >= end {
        Some((mem, map))
    } else {
        match resolved(m, m.word_at(i), mem, map) {
            Some((mem2, map2)) => {
                if map.dom().finite() && map.dom().subset_of(map2.dom()) && map2.dom().finite() {
                    proof {
                        vstd::set_lib::lemma_len_subset(map.dom(), map2.dom());
                        lemma_addresses_bounded(map2.dom());
                    }
                    resolved_range(m, i + 1, end, mem2, map2)
                } else {
                    None
                }
            },
            None => None,
        }
    }
}

/// Every reference in `mem` points at a position of `mem`, and so does every copy
/// position in `map`.
pub open spec fn closed_blob(mem: Seq<Value>, map: Map<u32, u32>) -> bool {
    &&& forall|k: int| 0 <= k < mem.len() ==> (#[trigger] mem[k] matches Value::RefValue { ptr, .. } ==> ptr < mem.len())
    &&& forall|p: u32| map.contains_key(p) ==> #[trigger] map[p] < mem.len()
}

proof fn lemma_resolved_closed(m: VmModel, v: Value, mem: Seq<Value>, map: Map<u32, u32>)
    requires
        closed_blob(mem, map),
        resolved(m, v, mem, map) is Some,
    ensures
        closed_blob(resolved(m, v, mem, map).unwrap().0, resolved(m, v, mem, map).unwrap().1),
        mem.len() < resolved(m, v, mem, map).unwrap().0.len(),
        mem.is_prefix_of(resolved(m, v, mem, map).unwrap().0),
    decreases address_count() - map.dom().len(), 0int, 0int,
{
    match v {
        Value::RefValue { ptr, len } => {
            if !map.contains_key(ptr) {
                let mapped = mem.len() as u32;
                let mem1 = mem.push(Value::RefValue { ptr: mapped, len });
                let map1 = map.insert(ptr, mapped);
                lemma_addresses_bounded(map1.dom());
                assert(closed_blob(mem1, map1)) by {
                    assert forall|k: int| 0 <= k < mem1.len() implies (#[trigger] mem1[k] matches Value::RefValue { ptr, .. } ==> ptr < mem1.len()) by {
                        if k < mem.len() {
                            assert(mem1[k] == mem[k]);
                        }
                    }
                }
                lemma_resolved_range_closed(m, ptr as int, ptr + len, mem1, map1);
                assert(mem.is_prefix_of(mem1));
            } else {
                let mem1 = mem.push(Value::RefValue { ptr: map[ptr], len });
                assert forall|k: int| 0 <= k < mem1.len() implies (#[trigger] mem1[k] matches Value::RefValue { ptr, .. } ==> ptr < mem1.len()) by {
                    if k < mem.len() {
                        assert(mem1[k] == mem[k]);
                    }
                }
            }
        },
        _ => {
            let mem1 = mem.push(v);
            assert forall|k: int| 0 <= k < mem1.len() implies (#[trigger] mem1[k] matches Value::RefValue { ptr, .. } ==> ptr < mem1.len()) by {
                if k < mem.len() {
                    assert(mem1[k] == mem[k]);
                }
            }
        },
    }
}

proof fn lemma_resolved_range_closed(m: VmModel, i: int, end: int, mem: Seq<Value>, map: Map<u32, u32>)
    requires
        closed_blob(mem, map),
        resolved_range(m, i, end, mem, map) is Some,
    ensures
        closed_blob(resolved_range(m, i, end, mem, map).unwrap().0, resolved_range(m, i, end, mem, map).unwrap().1),
        mem.len() <= resolved_range(m, i, end, mem, map).unwrap().0.len(),
        mem.is_prefix_of(resolved_range(m, i, end, mem, map).unwrap().0),
    decreases address_count() - map.dom().len(), 1int, end - i,
{
    if i < end {
        lemma_resolved_closed(m, m.word_at(i), mem, map);
        let (mem2, map2) = resolved(m, m.word_at(i), mem, map)->0;
        vstd::set_lib::lemma_len_subset(map.dom(), map2.dom());
        lemma_addresses_bounded(map2.dom());
        lemma_resolved_range_closed(m, i + 1, end, mem2, map2);
    }
}

/// A blob is self-contained: every reference in it points at a position of the
/// blob. Its first word is the value itself, a reference renumbered to point at
/// position 0.
pub proof fn lemma_blob_closed(m: VmModel, v: Value)
    requires
        resolved(m, v, Seq::empty(), Map::empty()) is Some,
    ensures
        ({
            let blob = resolved(m, v, Seq::empty(), Map::empty()).unwrap().0;
            &&& blob.len() > 0
            &&& forall|k: int| 0 <= k < blob.len() ==> (#[trigger] blob[k] matches Value::RefValue { ptr, .. } ==> ptr < blob.len())
            &&& blob[0] == match v {
                Value::RefValue { len, .. } => Value::RefValue { ptr: 0, len },
                other => other,
            }
        }),
{
    lemma_resolved_closed(m, v, Seq::empty(), Map::empty());
    let blob = resolved(m, v, Seq::empty(), Map::empty()).unwrap().0;
    match v {
        Value::RefValue { ptr, len } => {
            let mem1 = seq![Value::RefValue { ptr: 0, len }];
            let map1 = Map::<u32, u32>::empty().insert(ptr, 0);
            assert(Seq::<Value>::empty().push(Value::RefValue { ptr: 0, len }) == mem1);
            lemma_addresses_bounded(map1.dom());
            assert(closed_blob(mem1, map1));
            lemma_resolved_range_closed(m, ptr as int, ptr + len, mem1, map1);
            assert(mem1.is_prefix_of(blob));
            assert(blob[0] == mem1[0]);
        },
        _ => {},
    }
}

/// Copies `value` into `mem` (see `resolved`).
fn resolve_value(value: Value, mem: &mut Vec<Value>, interpreter: &Interpreter, address_map: &mut HashMap<u32, u32>)
    requires
        interpreter.wf(),
        resolved(interpreter@, value, old(mem)@, old(address_map)@) is Some,
    ensures
        resolved(interpreter@, value, old(mem)@, old(address_map)@) == Some((final(mem)@, final(address_map)@)),
        old(address_map)@.dom().subset_of(final(address_map)@.dom()),
    decreases address_count() - old(address_map)@.dom().len(),
{
    let ghost target = resolved(interpreter@, value, mem@, address_map@);
    let ghost map0 = address_map@;
    if let Value::RefValue { ptr, len } = value {
        match address_map.get(&ptr) {
            Some(mapped_ptr) => {
                let m = *mapped_ptr;
                mem.push(Value::RefValue { ptr: m, len });
            },
            None => {
                let mapped = mem.len() as u32;
                address_map.insert(ptr, mapped);
                mem.push(Value::RefValue { ptr: mapped, len });
                let end: u32 = ptr + len;
                let mut i: u32 = ptr;
                proof {
                    lemma_addresses_bounded(map0.dom());
                }
                while i < end
                    invariant
                        interpreter.wf(),
                        ptr <= i <= end,
                        !map0.contains_key(ptr),
                        map0 == old(address_map)@,
                        map0.dom().finite(),
                        map0.dom().insert(ptr).subset_of(address_map@.dom()),
                        target is Some,
                        resolved_range(interpreter@, i as int, end as int, mem@, address_map@) == target,
                    decreases end - i,
                {
                    let v = interpreter.load_at_ptr(i as usize);
                    proof {
                        vstd::set_lib::lemma_len_subset(map0.dom().insert(ptr), address_map@.dom());
                        lemma_addresses_bounded(address_map@.dom());
                        assert(map0.dom().insert(ptr).len() == map0.dom().len() + 1);
                        assert(map0 == old(address_map)@);
                    }
                    resolve_value(v, mem, interpreter, address_map);
                    i = i + 1;
                }
            },
        }
    } else {
        mem.push(value);
    }
}

/// The blob of `value` in `interpreter`: `value` and every word it reaches, copied
/// with the references renumbered as positions of the blob (see `resolved`), read
/// from its start.
pub fn resolve_blob(value: Value, interpreter: &Interpreter) -> (b: MemoryBlob)
    requires
        interpreter.wf(),
        resolved(interpreter@, value, Seq::empty(), Map::empty()) is Some,
    ensures
        b.values() == resolved(interpreter@, value, Seq::empty(), Map::empty()).unwrap().0,
        b.position() == 0,
{
    let mut mem: Vec<Value> = Vec::new();
    let mut address_map: HashMap<u32, u32> = HashMap::new();
    proof {
        assert(mem@ == Seq::<Value>::empty());
        assert(address_map@ == Map::<u32, u32>::empty());
    }
    resolve_value(value, &mut mem, interpreter, &mut address_map);
    MemoryBlob::new(mem)
}

/// The values that a run left behind, read one after another.
#[derive(Debug, Clone)]
pub struct MemoryBlob {
    mem: Vec<Value>,
    ptr: usize,
}

impl MemoryBlob {
    /// The values held.
    pub closed spec fn values(&self) -> Seq<Value> {
        self.mem@
    }

    /// The position of the next value to read.
    pub closed spec fn position(&self) -> int {
        self.ptr as int
    }

    /// A blob over `mem`, read from its start.
    pub fn new(mem: Vec<Value>) -> (b: Self)
        ensures
            b.values() == mem@,
            b.position() == 0,
    {
        MemoryBlob { mem, ptr: 0 }
    }

    /// Reads the next value, which must be an integer.
    pub fn next_int(&mut self) -> (r: Result<i32, RuntimeError>)
        requires
            old(self).position() < usize::MAX,
        ensures
            final(self).values() == old(self).values(),
            final(self).position() == old(self).position() + 1,
            ({
                let p = old(self).position();
                let s = old(self).values();
                if p >= s.len() {
                    r == Err::<i32, RuntimeError>(RuntimeError::StackUnderflow(""))
                } else {
                    match s[p] {
                        Value::IntValue(i) => r == Ok::<i32, RuntimeError>(i),
                        v => r == Err::<i32, RuntimeError>(
                            RuntimeError::TypeMismatch { expected: ValueTypeVariant::Int, got: v },
                        ),
                    }
                }
            }),
    {
        let value = self.next()?;
        if let Value::IntValue(i) = value {
            Ok(*i)
        } else {
            Err(RuntimeError::TypeMismatch { expected: ValueTypeVariant::Int, got: *value })
        }
    }

    /// Reads the next value, which must be a float; gives its bit pattern.
    pub fn next_float(&mut self) -> (r: Result<u32, RuntimeError>)
        requires
            old(self).position() < usize::MAX,
        ensures
            final(self).values() == old(self).values(),
            final(self).position() == old(self).position() + 1,
            ({
                let p = old(self).position();
                let s = old(self).values();
                if p >= s.len() {
                    r == Err::<u32, RuntimeError>(RuntimeError::StackUnderflow(""))
                } else {
                    match s[p] {
                        Value::FloatValue(f) => r == Ok::<u32, RuntimeError>(f),
                        v => r == Err::<u32, RuntimeError>(
                            RuntimeError::TypeMismatch { expected: ValueTypeVariant::Float, got: v },
                        ),
                    }
                }
            }),
    {
        let value = self.next()?;
        if let Value::FloatValue(f) = value {
            Ok(*f)
        } else {
            Err(RuntimeError::TypeMismatch { expected: ValueTypeVariant::Float, got: *value })
        }
    }

    /// Succeeds when every value has been read.
    pub fn expect_end(&self) -> (r: Result<(), RuntimeError>)
        ensures
            r == if self.position() < self.values().len() {
                Err::<(), RuntimeError>(RuntimeError::DanglingValue)
            } else {
                Ok::<(), RuntimeError>(())
            },
    {
        if self.ptr < self.mem.len() {
            return Err(RuntimeError::DanglingValue);
        }
        crate::error::ok()
    }

    fn next(&mut self) -> (r: Result<&Value, RuntimeError>)
        requires
            old(self).ptr < usize::MAX,
        ensures
            final(self).mem == old(self).mem,
            final(self).ptr == old(self).ptr + 1,
            old(self).ptr < old(self).mem@.len() ==> r == Ok::<&Value, RuntimeError>(
                &old(self).mem@[old(self).ptr as int],
            ),
            old(self).ptr >= old(self).mem@.len() ==> r == Err::<&Value, RuntimeError>(
                RuntimeError::StackUnderflow(""),
            ),
    {
        let p = self.ptr;
        self.ptr += 1;
        if p < self.mem.len() {
            return Ok(&self.mem[p]);
        }
        Err(RuntimeError::StackUnderflow(""))
    }
}

} // verus!

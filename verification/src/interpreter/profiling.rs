use vstd::prelude::*;
use std::collections::HashMap;
use crate::text::{push_char, push_str};

verus! {

broadcast use vstd::std_specs::hash::group_hash_axioms;

/// What a profiled run spent, in total and by instruction name, source line and address.
pub struct ProfilingData {
    pub total_cost: u64,
    pub insn_count: u64,
    /// The cost per instruction name, each name once, in the order first met.
    pub by_instruction: Vec<(String, u64)>,
    pub by_line: HashMap<usize, u64>,
    /// Per instruction address: how often it ran, and its total cost.
    pub insn_stats: HashMap<usize, (u64, u64)>,
}

/// The map that a list of named costs stands for.
pub open spec fn named_costs(s: Seq<(String, u64)>) -> Map<Seq<char>, u64>
    decreases s.len(),
{
    if s.len() == 0 {
        Map::empty()
    } else {
        named_costs(s.drop_last()).insert(s.last().0@, s.last().1)
    }
}

/// Every name occurs at most once.
pub open spec fn distinct_names(s: Seq<(String, u64)>) -> bool {
    forall|i: int, j: int| 0 <= i < j < s.len() ==> (#[trigger] s[i]).0@ != (#[trigger] s[j]).0@
}

/// The value recorded for `k` in `m`, or 0.
pub open spec fn or_zero<K>(m: Map<K, u64>, k: K) -> int {
    if m.contains_key(k) {
        m[k] as int
    } else {
        0
    }
}

/// The sum of `f` over the finite set `s`.
pub open spec fn set_sum<K>(s: Set<K>, f: spec_fn(K) -> int) -> int
    decreases s.len(),
    when s.finite()
{
    if s.len() == 0 {
        0
    } else {
        let k = s.choose();
        f(k) + set_sum(s.remove(k), f)
    }
}

proof fn lemma_set_sum_remove<K>(s: Set<K>, f: spec_fn(K) -> int, k: K)
    requires
        s.finite(),
        s.contains(k),
    ensures
        set_sum(s, f) == f(k) + set_sum(s.remove(k), f),
    decreases s.len(),
{
    let c = s.choose();
    if c != k {
        lemma_set_sum_remove(s.remove(c), f, k);
        lemma_set_sum_remove(s.remove(k), f, c);
        assert(s.remove(c).remove(k) =~= s.remove(k).remove(c));
    }
}

proof fn lemma_set_sum_congruent<K>(s: Set<K>, f: spec_fn(K) -> int, g: spec_fn(K) -> int)
    requires
        s.finite(),
        forall|x: K| s.contains(x) ==> f(x) == g(x),
    ensures
        set_sum(s, f) == set_sum(s, g),
    decreases s.len(),
{
    if s.len() > 0 {
        let c = s.choose();
        lemma_set_sum_congruent(s.remove(c), f, g);
    }
}

/// The sum of the values of a map with a finite domain.
pub open spec fn map_total<K>(m: Map<K, u64>) -> int {
    set_sum(m.dom(), |k: K| m[k] as int)
}

/// Raising the value under `k` by `c` (adding `k` with `c` where it is new) raises
/// the sum by `c`.
proof fn lemma_map_total_add<K>(m: Map<K, u64>, k: K, c: u64)
    requires
        m.dom().finite(),
        or_zero(m, k) + c <= u64::MAX,
    ensures
        map_total(m.insert(k, (or_zero(m, k) + c) as u64)) == map_total(m) + c,
{
    let m2 = m.insert(k, (or_zero(m, k) + c) as u64);
    let f = |x: K| m[x] as int;
    let g = |x: K| m2[x] as int;
    if m.contains_key(k) {
        assert(m2.dom() =~= m.dom());
        lemma_set_sum_remove(m.dom(), f, k);
        lemma_set_sum_remove(m.dom(), g, k);
        lemma_set_sum_congruent(m.dom().remove(k), f, g);
    } else {
        assert(m2.dom().remove(k) =~= m.dom());
        lemma_set_sum_remove(m2.dom(), g, k);
        lemma_set_sum_congruent(m.dom(), f, g);
    }
}

/// The run counts of a table of per-address statistics, summed.
pub open spec fn stats_count(m: Map<usize, (u64, u64)>) -> int {
    set_sum(m.dom(), |k: usize| m[k].0 as int)
}

/// The costs of a table of per-address statistics, summed.
pub open spec fn stats_cost(m: Map<usize, (u64, u64)>) -> int {
    set_sum(m.dom(), |k: usize| m[k].1 as int)
}

/// The statistics of `m` after one more run at `k` that cost `c`.
pub open spec fn stats_after(m: Map<usize, (u64, u64)>, k: usize, c: u64) -> Map<usize, (u64, u64)> {
    m.insert(
        k,
        if m.contains_key(k) {
            ((m[k].0 + 1) as u64, (m[k].1 + c) as u64)
        } else {
            (1u64, c)
        },
    )
}

proof fn lemma_stats_add(m: Map<usize, (u64, u64)>, k: usize, c: u64)
    requires
        m.dom().finite(),
        m.contains_key(k) ==> m[k].0 < u64::MAX && m[k].1 + c <= u64::MAX,
    ensures
        stats_count(stats_after(m, k, c)) == stats_count(m) + 1,
        stats_cost(stats_after(m, k, c)) == stats_cost(m) + c,
{
    let m2 = stats_after(m, k, c);
    let f0 = |x: usize| m[x].0 as int;
    let g0 = |x: usize| m2[x].0 as int;
    let f1 = |x: usize| m[x].1 as int;
    let g1 = |x: usize| m2[x].1 as int;
    if m.contains_key(k) {
        assert(m2.dom() =~= m.dom());
        lemma_set_sum_remove(m.dom(), f0, k);
        lemma_set_sum_remove(m.dom(), g0, k);
        lemma_set_sum_congruent(m.dom().remove(k), f0, g0);
        lemma_set_sum_remove(m.dom(), f1, k);
        lemma_set_sum_remove(m.dom(), g1, k);
        lemma_set_sum_congruent(m.dom().remove(k), f1, g1);
    } else {
        assert(m2.dom().remove(k) =~= m.dom());
        lemma_set_sum_remove(m2.dom(), g0, k);
        lemma_set_sum_congruent(m.dom(), f0, g0);
        lemma_set_sum_remove(m2.dom(), g1, k);
        lemma_set_sum_congruent(m.dom(), f1, g1);
    }
}

proof fn lemma_named_costs_finite(s: Seq<(String, u64)>)
    ensures
        named_costs(s).dom().finite(),
    decreases s.len(),
{
    if s.len() > 0 {
        lemma_named_costs_finite(s.drop_last());
    }
}

impl ProfilingData {
    /// The totals agree with the tables: the total cost is the sum of the costs by
    /// name, by line and by address, and the count is the sum of the runs by address.
    pub open spec fn consistent(&self) -> bool {
        &&& self.total_cost == map_total(named_costs(self.by_instruction@))
        &&& self.total_cost == map_total(self.by_line@)
        &&& self.total_cost == stats_cost(self.insn_stats@)
        &&& self.insn_count == stats_count(self.insn_stats@)
    }

    pub fn new() -> (p: Self)
        ensures
            p.total_cost == 0,
            p.insn_count == 0,
            p.by_instruction@.len() == 0,
            p.by_line@ == Map::<usize, u64>::empty(),
            p.insn_stats@ == Map::<usize, (u64, u64)>::empty(),
            p.consistent(),
    {
        ProfilingData {
            total_cost: 0,
            insn_count: 0,
            by_instruction: Vec::new(),
            by_line: HashMap::new(),
            insn_stats: HashMap::new(),
        }
    }

    /// Records one run of the instruction `insn_name` at `insn_addr`, on source
    /// line `line`, that cost `cost`.
    pub fn record(&mut self, insn_addr: usize, insn_name: &str, line: usize, cost: u64)
        requires
            distinct_names(old(self).by_instruction@),
            old(self).total_cost + cost <= u64::MAX,
            old(self).insn_count < u64::MAX,
            or_zero(named_costs(old(self).by_instruction@), insn_name@) + cost <= u64::MAX,
            or_zero(old(self).by_line@, line) + cost <= u64::MAX,
            old(self).insn_stats@.contains_key(insn_addr) ==> old(self).insn_stats@[insn_addr].0
                < u64::MAX && old(self).insn_stats@[insn_addr].1 + cost <= u64::MAX,
        ensures
            distinct_names(final(self).by_instruction@),
            final(self).total_cost == old(self).total_cost + cost,
            final(self).insn_count == old(self).insn_count + 1,
            named_costs(final(self).by_instruction@) == named_costs(
                old(self).by_instruction@,
            ).insert(
                insn_name@,
                (or_zero(named_costs(old(self).by_instruction@), insn_name@) + cost) as u64,
            ),
            final(self).by_line@ == old(self).by_line@.insert(
                line,
                (or_zero(old(self).by_line@, line) + cost) as u64,
            ),
            old(self).consistent() ==> final(self).consistent(),
            final(self).insn_stats@ == old(self).insn_stats@.insert(
                insn_addr,
                if old(self).insn_stats@.contains_key(insn_addr) {
                    (
                        (old(self).insn_stats@[insn_addr].0 + 1) as u64,
                        (old(self).insn_stats@[insn_addr].1 + cost) as u64,
                    )
                } else {
                    (1u64, cost)
                },
            ),
    {
        self.total_cost += cost;
        self.insn_count += 1;
        add_named_cost(&mut self.by_instruction, insn_name, cost);
        let before = match self.by_line.get(&line) {
            Some(c) => *c,
            None => 0,
        };
        self.by_line.insert(line, before + cost);
        let entry = match self.insn_stats.get(&insn_addr) {
            Some(e) => (e.0 + 1, e.1 + cost),
            None => (1, cost),
        };
        self.insn_stats.insert(insn_addr, entry);
        proof {
            lemma_named_costs_finite(old(self).by_instruction@);
            lemma_map_total_add(named_costs(old(self).by_instruction@), insn_name@, cost);
            lemma_map_total_add(old(self).by_line@, line, cost);
            lemma_stats_add(old(self).insn_stats@, insn_addr, cost);
            assert(self.insn_stats@ == stats_after(old(self).insn_stats@, insn_addr, cost));
        }
    }
}

/// Adds `cost` to the cost recorded for `name`, adding the name when it is new.
fn add_named_cost(v: &mut Vec<(String, u64)>, name: &str, cost: u64)
    requires
        distinct_names(old(v)@),
        or_zero(named_costs(old(v)@), name@) + cost <= u64::MAX,
    ensures
        distinct_names(final(v)@),
        named_costs(final(v)@) == named_costs(old(v)@).insert(
            name@,
            (or_zero(named_costs(old(v)@), name@) + cost) as u64,
        ),
{
    let ghost s = v@;
    let wanted = crate::text::to_owned_string(name);
    let mut i: usize = 0;
    while i < v.len()
        invariant
            v@ == s,
            s == old(v)@,
            wanted@ == name@,
            distinct_names(s),
            or_zero(named_costs(s), name@) + cost <= u64::MAX,
            i <= s.len(),
            forall|j: int| 0 <= j < i ==> (#[trigger] s[j]).0@ != name@,
        decreases s.len() - i,
    {
        if v[i].0 == wanted {
            proof {
                lemma_named_costs_at(s, i as int);
            }
            let old_cost = v[i].1;
            let key = v[i].0.clone();
            v.set(i, (key, old_cost + cost));
            proof {
                assert(v@ == s.update(i as int, v@[i as int]));
                assert(v@[i as int].0@ == name@);
                assert(v@[i as int].1 == or_zero(named_costs(s), name@) + cost);
                lemma_named_costs_update(s, i as int, v@[i as int]);
                assert((or_zero(named_costs(s), name@) + cost) as u64 == v@[i as int].1);
                assert(named_costs(v@) == named_costs(s).insert(name@, v@[i as int].1));
            }
            return;
        }
        i += 1;
    }
    proof {
        lemma_named_costs_absent(s, name@);
    }
    v.push((wanted, cost));
    proof {
        assert(v@.drop_last() == s);
        assert forall|a: int, b: int| 0 <= a < b < v@.len() implies (#[trigger] v@[a]).0@
            != (#[trigger] v@[b]).0@ by {
            if b == s.len() {
                assert(v@[a] == s[a]);
            }
        }
    }
}

proof fn lemma_named_costs_absent(s: Seq<(String, u64)>, name: Seq<char>)
    requires
        forall|j: int| 0 <= j < s.len() ==> (#[trigger] s[j]).0@ != name,
    ensures
        !named_costs(s).contains_key(name),
    decreases s.len(),
{
    if s.len() > 0 {
        lemma_named_costs_absent(s.drop_last(), name);
    }
}

proof fn lemma_named_costs_at(s: Seq<(String, u64)>, i: int)
    requires
        distinct_names(s),
        0 <= i < s.len(),
    ensures
        named_costs(s).contains_key(s[i].0@),
        named_costs(s)[s[i].0@] == s[i].1,
    decreases s.len(),
{
    if i < s.len() - 1 {
        lemma_named_costs_at(s.drop_last(), i);
        assert(s.drop_last()[i] == s[i]);
        assert(s.last().0@ != s[i].0@);
    }
}

proof fn lemma_named_costs_update(s: Seq<(String, u64)>, i: int, e: (String, u64))
    requires
        distinct_names(s),
        0 <= i < s.len(),
        e.0@ == s[i].0@,
    ensures
        distinct_names(s.update(i, e)),
        named_costs(s.update(i, e)) == named_costs(s).insert(e.0@, e.1),
    decreases s.len(),
{
    let t = s.update(i, e);
    assert forall|a: int, b: int| 0 <= a < b < t.len() implies (#[trigger] t[a]).0@
        != (#[trigger] t[b]).0@ by {
        assert(t[a].0@ == s[a].0@);
        assert(t[b].0@ == s[b].0@);
    }
    if i == s.len() - 1 {
        assert(t.drop_last() == s.drop_last());
    } else {
        lemma_named_costs_update(s.drop_last(), i, e);
        assert(t.drop_last() == s.drop_last().update(i, e));
        lemma_named_costs_at(s, i);
        assert(s.last().0@ != e.0@);
        assert(named_costs(t) =~= named_costs(s).insert(e.0@, e.1));
    }
}

/// `s` with `&`, `<` and `>` replaced by their HTML entities.
pub open spec fn html_escaped(s: Seq<char>) -> Seq<char>
    decreases s.len(),
{
    if s.len() == 0 {
        Seq::empty()
    } else {
        let c = s.last();
        html_escaped(s.drop_last()) + if c == '&' {
            "&amp;"@
        } else if c == '<' {
            "&lt;"@
        } else if c == '>' {
            "&gt;"@
        } else {
            seq![c]
        }
    }
}

/// The positions in `lines` (the source line of each instruction) that hold `line`,
/// in increasing order.
pub open spec fn addresses_with(lines: Seq<usize>, line: usize) -> Seq<usize>
    decreases lines.len(),
{
    if lines.len() == 0 {
        Seq::empty()
    } else {
        let before = addresses_with(lines.drop_last(), line);
        if lines.last() == line {
            before.push((lines.len() - 1) as usize)
        } else {
            before
        }
    }
}

/// The addresses of the instructions compiled from source line `line`, in program
/// order, given the source line of each instruction.
pub fn addresses_of_line(line_maps: &[usize], line: usize) -> (v: Vec<usize>)
    ensures
        v@ == addresses_with(line_maps@, line),
{
    let mut v: Vec<usize> = Vec::new();
    let mut addr: usize = 0;
    while addr < line_maps.len()
        invariant
            addr <= line_maps@.len(),
            v@ == addresses_with(line_maps@.subrange(0, addr as int), line),
        decreases line_maps@.len() - addr,
    {
        assert(line_maps@.subrange(0, addr + 1).drop_last() == line_maps@.subrange(0, addr as int));
        if line_maps[addr] == line {
            v.push(addr);
        }
        addr += 1;
    }
    assert(line_maps@.subrange(0, line_maps@.len() as int) == line_maps@);
    v
}

/// Escapes `&`, `<` and `>` for HTML.
pub fn escape_html(s: &str) -> (r: String)
    ensures
        r@ == html_escaped(s@),
{
    let chars = crate::text::chars_of(s);
    let mut r = String::new();
    let mut i: usize = 0;
    while i < chars.len()
        invariant
            i <= chars@.len(),
            chars@ == s@,
            r@ == html_escaped(chars@.subrange(0, i as int)),
        decreases chars@.len() - i,
    {
        let c = chars[i];
        assert(chars@.subrange(0, i + 1).drop_last() == chars@.subrange(0, i as int));
        if c == '&' {
            push_str(&mut r, "&amp;");
        } else if c == '<' {
            push_str(&mut r, "&lt;");
        } else if c == '>' {
            push_str(&mut r, "&gt;");
        } else {
            push_char(&mut r, c);
        }
        i += 1;
    }
    assert(chars@.subrange(0, chars@.len() as int) == chars@);
    r
}

} // verus!

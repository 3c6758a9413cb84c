use vstd::prelude::*;
use vstd::hash_map::StringHashMap;
use crate::analysis::operator_table::OperatorTable;
use crate::analysis::type_registry::TypeEntry;
use crate::text::to_owned_string;

verus! {

/// Nested scopes of symbols; each symbol maps to a value and optional extra information.
#[verifier::reject_recursive_types(T)]
#[verifier::reject_recursive_types(E)]
pub struct SymbolTable<T: Clone, E: Clone> {
    pub op_table: OperatorTable,
    pub symbols: Vec<StringHashMap<(T, Option<E>)>>,
}

/// A symbol table of types, whose extra information is a flag.
pub type TypeSymTable = SymbolTable<TypeEntry, bool>;

/// The scopes of a symbol table, as maps.
pub open spec fn scope_maps<T, E>(s: Seq<StringHashMap<(T, Option<E>)>>) -> Seq<
    Map<Seq<char>, (T, Option<E>)>,
> {
    s.map_values(|m: StringHashMap<(T, Option<E>)>| m@)
}

/// The entry for `symbol` in the innermost scope of `scopes` that has one.
pub open spec fn lookup_scopes<T, E>(scopes: Seq<Map<Seq<char>, (T, Option<E>)>>, symbol: Seq<char>) -> Option<(T, Option<E>)>
    decreases scopes.len(),
{
    if scopes.len() == 0 {
        None
    } else if scopes.last().contains_key(symbol) {
        Some(scopes.last()[symbol])
    } else {
        lookup_scopes(scopes.drop_last(), symbol)
    }
}

/// The name under which a function's return type is recorded.
pub open spec fn return_symbol() -> Seq<char> {
    seq![':', ':', 'r', 'e', 't', 'u', 'r', 'n']
}

/// A name recorded in the innermost scope is found with what was recorded; every
/// other name is found as before.
pub proof fn lemma_lookup_after_record<T, E>(
    scopes: Seq<Map<Seq<char>, (T, Option<E>)>>,
    symbol: Seq<char>,
    entry: (T, Option<E>),
    other: Seq<char>,
)
    requires
        scopes.len() > 0,
    ensures
        ({
            let after = scopes.update(scopes.len() - 1, scopes.last().insert(symbol, entry));
            &&& lookup_scopes(after, symbol) == Some(entry)
            &&& other != symbol ==> lookup_scopes(after, other) == lookup_scopes(scopes, other)
        }),
{
    let after = scopes.update(scopes.len() - 1, scopes.last().insert(symbol, entry));
    assert(after.drop_last() == scopes.drop_last());
}

/// A name is found exactly when some scope has it.
pub proof fn lemma_lookup_found<T, E>(scopes: Seq<Map<Seq<char>, (T, Option<E>)>>, symbol: Seq<char>)
    ensures
        lookup_scopes(scopes, symbol) is Some <==> exists|i: int| 0 <= i < scopes.len() && #[trigger] scopes[i].contains_key(symbol),
    decreases scopes.len(),
{
    if scopes.len() > 0 {
        lemma_lookup_found(scopes.drop_last(), symbol);
        if exists|i: int| 0 <= i < scopes.len() && #[trigger] scopes[i].contains_key(symbol) {
            let i = choose|i: int| 0 <= i < scopes.len() && #[trigger] scopes[i].contains_key(symbol);
            if i < scopes.len() - 1 {
                assert(scopes.drop_last()[i] == scopes[i]);
            }
        }
        if exists|i: int| 0 <= i < scopes.drop_last().len() && #[trigger] scopes.drop_last()[i].contains_key(symbol) {
            let i = choose|i: int| 0 <= i < scopes.drop_last().len() && #[trigger] scopes.drop_last()[i].contains_key(symbol);
            assert(scopes[i] == scopes.drop_last()[i]);
        }
    }
}

/// Opening a scope hides nothing: every name is found as before.
pub proof fn lemma_lookup_after_push<T, E>(scopes: Seq<Map<Seq<char>, (T, Option<E>)>>, symbol: Seq<char>)
    ensures
        lookup_scopes(scopes.push(Map::empty()), symbol) == lookup_scopes(scopes, symbol),
{
    assert(scopes.push(Map::empty()).drop_last() == scopes);
}

/// What is recorded in a scope is forgotten when the scope closes: opening a scope,
/// recording a name in it and closing it again leaves every name found as before.
pub proof fn lemma_scope_closes<T, E>(
    scopes: Seq<Map<Seq<char>, (T, Option<E>)>>,
    symbol: Seq<char>,
    entry: (T, Option<E>),
    other: Seq<char>,
)
    ensures
        ({
            let opened = scopes.push(Map::empty());
            let recorded = opened.update(opened.len() - 1, opened.last().insert(symbol, entry));
            lookup_scopes(recorded.drop_last(), other) == lookup_scopes(scopes, other)
        }),
{
    let opened = scopes.push(Map::empty());
    let recorded = opened.update(opened.len() - 1, opened.last().insert(symbol, entry));
    assert(recorded.drop_last() == scopes);
}

/// The scopes after recording each of `rs` (a name and what it is recorded with),
/// in order, in the innermost scope, as `record` and `record_with_info` do.
pub open spec fn records_applied<T, E>(
    scopes: Seq<Map<Seq<char>, (T, Option<E>)>>,
    rs: Seq<(Seq<char>, (T, Option<E>))>,
) -> Seq<Map<Seq<char>, (T, Option<E>)>>
    decreases rs.len(),
{
    if rs.len() == 0 {
        scopes
    } else {
        let p = records_applied(scopes, rs.drop_last());
        p.update(p.len() - 1, p.last().insert(rs.last().0, rs.last().1))
    }
}

/// Closing a scope undoes opening it and everything recorded since: after a push,
/// any sequence of records and a pop, the scopes are what they were, so every name
/// is found as before.
pub proof fn lemma_pop_undoes_scope<T, E>(
    scopes: Seq<Map<Seq<char>, (T, Option<E>)>>,
    rs: Seq<(Seq<char>, (T, Option<E>))>,
)
    ensures
        records_applied(scopes.push(Map::empty()), rs).len() == scopes.len() + 1,
        records_applied(scopes.push(Map::empty()), rs).drop_last() == scopes,
    decreases rs.len(),
{
    if rs.len() > 0 {
        lemma_pop_undoes_scope(scopes, rs.drop_last());
        let p = records_applied(scopes.push(Map::empty()), rs.drop_last());
        let q = p.update(p.len() - 1, p.last().insert(rs.last().0, rs.last().1));
        assert(q.drop_last() =~= p.drop_last());
    } else {
        assert(scopes.push(Map::empty()).drop_last() =~= scopes);
    }
}

impl<T: Clone, E: Clone> SymbolTable<T, E> {
    /// The scopes, outermost first.
    pub open spec fn scopes(&self) -> Seq<Map<Seq<char>, (T, Option<E>)>> {
        scope_maps(self.symbols@)
    }

    /// A table with one empty scope.
    pub fn new() -> (t: Self)
        ensures
            t.scopes() == seq![Map::<Seq<char>, (T, Option<E>)>::empty()],
    {
        let mut new = SymbolTable { op_table: OperatorTable::new(), symbols: Vec::new() };
        new.push();
        new
    }

    /// Opens a new innermost scope.
    pub fn push(&mut self)
        ensures
            final(self).scopes() == old(self).scopes().push(Map::empty()),
    {
        self.symbols.push(StringHashMap::new());
        assert(self.scopes() =~= old(self).scopes().push(Map::empty()));
    }

    /// Closes the innermost scope, if any.
    pub fn pop(&mut self)
        ensures
            final(self).scopes() == if old(self).scopes().len() == 0 {
                old(self).scopes()
            } else {
                old(self).scopes().drop_last()
            },
    {
        let _ = self.symbols.pop();
        assert(self.scopes() =~= if old(self).scopes().len() == 0 {
            old(self).scopes()
        } else {
            old(self).scopes().drop_last()
        });
    }

    /// Whether any scope has `symbol`.
    pub fn contains(&self, symbol: &String) -> (b: bool)
        ensures
            b == exists|i: int| 0 <= i < self.scopes().len() && #[trigger] self.scopes()[i].contains_key(symbol@),
    {
        let mut i: usize = 0;
        while i < self.symbols.len()
            invariant
                i <= self.symbols@.len(),
                forall|j: int| 0 <= j < i ==> !(#[trigger] self.scopes()[j]).contains_key(symbol@),
            decreases self.symbols@.len() - i,
        {
            if self.symbols[i].contains_key(symbol.as_str()) {
                assert(self.scopes()[i as int].contains_key(symbol@));
                return true;
            }
            i += 1;
        }
        false
    }

    /// Whether the innermost scope has `symbol`; there must be a scope.
    pub fn contains_in_current(&self, symbol: &String) -> (b: bool)
        requires
            self.scopes().len() > 0,
        ensures
            b == self.scopes().last().contains_key(symbol@),
    {
        let last = self.last();
        match last {
            Some(l) => l.contains_key(symbol.as_str()),
            None => false,
        }
    }

    /// A copy of the entry for `symbol` in the innermost scope that has one.
    pub fn get_with_info(&self, symbol: String) -> (r: Option<(T, Option<E>)>)
        ensures
            match (lookup_scopes(self.scopes(), symbol@), r) {
                (None, None) => true,
                (Some(e), Some(c)) => cloned(e.0, c.0) && match (e.1, c.1) {
                    (None, None) => true,
                    (Some(x), Some(y)) => cloned(x, y),
                    _ => false,
                },
                _ => false,
            },
    {
        let mut i: usize = self.symbols.len();
        assert(self.scopes().take(i as int) == self.scopes());
        while i > 0
            invariant
                i <= self.symbols@.len(),
                lookup_scopes(self.scopes(), symbol@) == lookup_scopes(self.scopes().take(i as int), symbol@),
            decreases i,
        {
            proof {
                assert(self.scopes().take(i as int).drop_last() == self.scopes().take(i - 1));
                assert(self.scopes().take(i as int).last() == self.symbols@[i - 1]@);
            }
            match self.symbols[i - 1].get(symbol.as_str()) {
                Some(entry) => {
                    return Some((entry.0.clone(), entry.1.clone()));
                },
                None => {},
            }
            i -= 1;
        }
        None
    }

    /// A copy of the value for `symbol` in the innermost scope that has one.
    pub fn get(&self, symbol: String) -> (r: Option<T>)
        ensures
            match (lookup_scopes(self.scopes(), symbol@), r) {
                (None, None) => true,
                (Some(e), Some(c)) => cloned(e.0, c),
                _ => false,
            },
    {
        let t = self.get_with_info(symbol);
        if let Some(value) = t {
            return Some(value.0);
        }
        None
    }

    /// The innermost scope, if any.
    pub fn last(&self) -> (r: Option<&StringHashMap<(T, Option<E>)>>)
        ensures
            self.symbols@.len() == 0 ==> r is None,
            self.symbols@.len() > 0 ==> r == Some(&self.symbols@.last()),
    {
        self.symbols.last()
    }

    /// Records `symbol` with value `t` and no extra information in the innermost scope.
    pub fn record(&mut self, symbol: String, t: T)
        requires
            old(self).scopes().len() > 0,
        ensures
            final(self).scopes() == old(self).scopes().update(
                old(self).scopes().len() - 1,
                old(self).scopes().last().insert(symbol@, (t, None)),
            ),
    {
        let n = self.symbols.len();
        let mut scope = self.symbols.pop().unwrap();
        scope.insert(symbol, (t, None));
        self.symbols.push(scope);
        assert(self.scopes() =~= old(self).scopes().update(
            n - 1,
            old(self).scopes().last().insert(symbol@, (t, None)),
        ));
    }

    /// Records `symbol` with value `t` and extra information `info` in the innermost scope.
    pub fn record_with_info(&mut self, symbol: String, t: T, info: E)
        requires
            old(self).scopes().len() > 0,
        ensures
            final(self).scopes() == old(self).scopes().update(
                old(self).scopes().len() - 1,
                old(self).scopes().last().insert(symbol@, (t, Some(info))),
            ),
    {
        let n = self.symbols.len();
        let mut scope = self.symbols.pop().unwrap();
        scope.insert(symbol, (t, Some(info)));
        self.symbols.push(scope);
        assert(self.scopes() =~= old(self).scopes().update(
            n - 1,
            old(self).scopes().last().insert(symbol@, (t, Some(info))),
        ));
    }
}

impl SymbolTable<TypeEntry, bool> {
    /// Records the return type of the function being read, in the innermost scope.
    pub fn record_return_type(&mut self, t: TypeEntry)
        requires
            old(self).scopes().len() > 0,
        ensures
            final(self).scopes() == old(self).scopes().update(
                old(self).scopes().len() - 1,
                old(self).scopes().last().insert(return_symbol(), (t, None)),
            ),
    {
        let name = to_owned_string("::return");
        proof {
            reveal_strlit("::return");
            assert(name@ == return_symbol());
        }
        self.record(name, t);
    }

    /// The return type recorded in the innermost scope that has one.
    pub fn get_return_type(&self) -> (r: Option<TypeEntry>)
        ensures
            r == match lookup_scopes(self.scopes(), return_symbol()) {
                Some(e) => Some(e.0),
                None => None,
            },
    {
        let name = to_owned_string("::return");
        proof {
            reveal_strlit("::return");
            assert(name@ == return_symbol());
        }
        let r = self.get(name);
        proof {
            if let Some(c) = r {
                let e = lookup_scopes(self.scopes(), return_symbol())->0;
                assert(cloned(e.0, c));
                assert(e.0 == c);
            }
        }
        r
    }
}

} // verus!

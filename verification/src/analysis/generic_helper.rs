use vstd::prelude::*;
use vstd::hash_map::StringHashMap;
use ordermap::OrderMap;
use crate::analysis::type_registry::{entry_type, TypeEntry, TypeRegistry};
use crate::ast::ast_type::{generic_entries, generics_clone, generics_pairs, types_equal, AstType, AstTypeModel};
use crate::ast::modifier::Modifier;
use crate::ast::statement::{duplicate_block, spanned_stmt_views, Parameter, SpannedStmtModel, Statement};
use crate::error::context::Span;
use crate::text::chars_of;
use crate::util::spanned::Spanned;

verus! {

/// A generic function as recorded: its name, modifier, parameters, return type,
/// untyped body and span.
pub type GenericFunction = (String, Modifier, Vec<Parameter>, TypeEntry, Vec<Spanned<Statement<()>>>, Span);

/// A request to resolve a generic function: the types given to its generic
/// parameters, and the type that owns it, if any.
pub type Request = (OrderMap<String, TypeEntry>, Option<AstType>);

/// The model of a request: the (name, type key) pairs of the generic arguments, in
/// order, and the owner's type.
pub type RequestModel = (Seq<(Seq<char>, u64)>, Option<AstTypeModel>);

/// The model of a possible owner.
pub open spec fn owner_model(o: Option<AstType>) -> Option<AstTypeModel> {
    match o {
        Some(t) => Some(t@),
        None => None,
    }
}

/// The model of a request.
pub open spec fn request_model(r: Request) -> RequestModel {
    (generic_entries(r.0), owner_model(r.1))
}

/// The models of a list of requests.
pub open spec fn request_models(v: Seq<Request>) -> Seq<RequestModel> {
    v.map_values(|q: Request| request_model(q))
}

/// The (name, type key) pairs of a list of generic arguments.
pub open spec fn pairs_model(v: Seq<(String, TypeEntry)>) -> Seq<(Seq<char>, u64)> {
    v.map_values(|p: (String, TypeEntry)| (p.0@, p.1.key))
}

/// Two lists of generic arguments name the same parameters in the same order and
/// give them strictly equal types.
pub open spec fn pairs_match(a: Seq<(Seq<char>, u64)>, b: Seq<(Seq<char>, u64)>, reg: Map<u64, AstTypeModel>) -> bool {
    &&& a.len() == b.len()
    &&& forall|i: int|
        0 <= i < a.len() ==> (#[trigger] a[i]).0 == b[i].0 && types_equal(
            entry_type(reg, a[i].1),
            entry_type(reg, b[i].1),
            reg,
            false,
        )
}

/// A recorded owner matches an asked one: both absent, or both struct types whose
/// generic arguments match.
pub open spec fn owners_match(stored: Option<AstTypeModel>, asked: Option<AstTypeModel>, reg: Map<u64, AstTypeModel>) -> bool {
    match (stored, asked) {
        (None, None) => true,
        (Some(AstTypeModel::StructType { generics: g1, .. }), Some(AstTypeModel::StructType { generics: g2, .. })) => pairs_match(
            g1,
            g2,
            reg,
        ),
        _ => false,
    }
}

/// A recorded request stands for the asked one.
pub open spec fn request_matches(stored: RequestModel, asked: RequestModel, reg: Map<u64, AstTypeModel>) -> bool {
    pairs_match(asked.0, stored.0, reg) && owners_match(stored.1, asked.1, reg)
}

/// `r` was already requested for the function `k`.
pub open spec fn requested(m: Map<Seq<char>, Seq<RequestModel>>, k: Seq<char>, r: RequestModel, reg: Map<u64, AstTypeModel>) -> bool {
    m.contains_key(k) && exists|i: int| 0 <= i < m[k].len() && request_matches(#[trigger] m[k][i], r, reg)
}

/// The requests for `k` after adding `r`.
pub open spec fn added(m: Map<Seq<char>, Seq<RequestModel>>, k: Seq<char>, r: RequestModel) -> Seq<RequestModel> {
    if m.contains_key(k) {
        m[k].push(r)
    } else {
        seq![r]
    }
}

/// `m` after adding `r` to the requests for `k`.
pub open spec fn with_request(m: Map<Seq<char>, Seq<RequestModel>>, k: Seq<char>, r: RequestModel) -> Map<Seq<char>, Seq<RequestModel>> {
    m.insert(k, added(m, k, r))
}

/// `k` is a recorded generic method of the same struct as `name`: it starts with the
/// owner's name and `$`, and is not `name` itself.
pub open spec fn is_sibling(k: Seq<char>, owner: Option<AstTypeModel>, name: Seq<char>, recorded: Set<Seq<char>>) -> bool {
    match owner {
        Some(AstTypeModel::StructType { name: struct_name, .. }) => {
            &&& recorded.contains(k)
            &&& (struct_name + seq!['$']).is_prefix_of(k)
            &&& k != name
        },
        _ => false,
    }
}

/// The requests after asking to resolve `name` with `r`: nothing changes if `r` was
/// already requested for it; otherwise `r` is added for it, and, where the owner is
/// a struct, for each of its recorded sibling methods that did not have it yet.
pub open spec fn resolution_outcome(
    m: Map<Seq<char>, Seq<RequestModel>>,
    recorded: Set<Seq<char>>,
    name: Seq<char>,
    r: RequestModel,
    reg: Map<u64, AstTypeModel>,
) -> Map<Seq<char>, Seq<RequestModel>> {
    if requested(m, name, r, reg) {
        m
    } else {
        let m1 = with_request(m, name, r);
        Map::new(
            |k: Seq<char>| m1.contains_key(k) || (is_sibling(k, r.1, name, recorded) && !requested(m1, k, r, reg)),
            |k: Seq<char>|
                if is_sibling(k, r.1, name, recorded) && !requested(m1, k, r, reg) {
                    added(m1, k, r)
                } else {
                    m1[k]
                },
        )
    }
}

/// Once a resolution has been asked for, it counts as requested, and asking for it
/// again changes nothing; this holds where the request matches itself, that is where
/// each generic argument's type equals itself and the owner is absent or a struct.
pub proof fn lemma_request_idempotent(
    m: Map<Seq<char>, Seq<RequestModel>>,
    recorded: Set<Seq<char>>,
    name: Seq<char>,
    r: RequestModel,
    reg: Map<u64, AstTypeModel>,
)
    requires
        request_matches(r, r, reg),
    ensures
        requested(resolution_outcome(m, recorded, name, r, reg), name, r, reg),
        resolution_outcome(resolution_outcome(m, recorded, name, r, reg), recorded, name, r, reg)
            == resolution_outcome(m, recorded, name, r, reg),
{
    let out = resolution_outcome(m, recorded, name, r, reg);
    if !requested(m, name, r, reg) {
        let m1 = with_request(m, name, r);
        assert(!is_sibling(name, r.1, name, recorded));
        assert(out.contains_key(name));
        assert(out[name] == m1[name]);
        let last = out[name].len() - 1;
        assert(out[name][last] == r);
    }
}

/// The generic functions recorded for later resolution, and the resolutions asked for.
pub struct GenericHelper {
    generic_functions: StringHashMap<GenericFunction>,
    generic_names: Vec<String>,
    implemented_functions: StringHashMap<Vec<Spanned<Statement<TypeEntry>>>>,
    requests: StringHashMap<Vec<Request>>,
}

impl GenericHelper {
    /// The recorded generic functions, by key.
    pub closed spec fn generics(&self) -> Map<Seq<char>, GenericFunction> {
        self.generic_functions@
    }

    /// The resolutions asked for, by function key, in the order they were asked.
    pub closed spec fn requests(&self) -> Map<Seq<char>, Seq<RequestModel>> {
        self.requests@.map_values(|v: Vec<Request>| request_models(v@))
    }

    /// The implementations recorded for each key, in the order they were recorded.
    pub closed spec fn implementations(&self) -> Map<Seq<char>, Seq<SpannedStmtModel<TypeEntry>>> {
        self.implemented_functions@.map_values(|v: Vec<Spanned<Statement<TypeEntry>>>| spanned_stmt_views(v@))
    }

    /// The keys of the recorded generic functions are listed once each.
    pub closed spec fn wf(&self) -> bool {
        let names = self.generic_names@.map_values(|s: String| s@);
        &&& names.no_duplicates()
        &&& forall|k: Seq<char>| self.generic_functions@.contains_key(k) <==> names.contains(k)
    }

    /// A helper with nothing recorded and nothing asked.
    pub fn new() -> (h: Self)
        ensures
            h.wf(),
            h.generics() == Map::<Seq<char>, GenericFunction>::empty(),
            h.requests() == Map::<Seq<char>, Seq<RequestModel>>::empty(),
            h.implementations() == Map::<Seq<char>, Seq<SpannedStmtModel<TypeEntry>>>::empty(),
    {
        let h = GenericHelper {
            generic_functions: StringHashMap::new(),
            generic_names: Vec::new(),
            implemented_functions: StringHashMap::new(),
            requests: StringHashMap::new(),
        };
        assert(h.requests() =~= Map::<Seq<char>, Seq<RequestModel>>::empty());
        assert(h.implementations() =~= Map::<Seq<char>, Seq<SpannedStmtModel<TypeEntry>>>::empty());
        assert(h.generic_names@.map_values(|s: String| s@) =~= Seq::<Seq<char>>::empty());
        h
    }

    /// Records the generic function `key`, replacing one recorded under the same key.
    pub fn record_generic(
        &mut self,
        key: String,
        name: String,
        modifier: Modifier,
        params: Vec<Parameter>,
        return_type: TypeEntry,
        body: Vec<Spanned<Statement<()>>>,
        span: Span,
    )
        requires
            old(self).wf(),
        ensures
            final(self).wf(),
            final(self).generics() == old(self).generics().insert(key@, (name, modifier, params, return_type, body, span)),
            final(self).requests() == old(self).requests(),
            final(self).implementations() == old(self).implementations(),
    {
        let ghost names = self.generic_names@.map_values(|s: String| s@);
        if !self.generic_functions.contains_key(key.as_str()) {
            self.generic_names.push(key.clone());
            proof {
                let names2 = self.generic_names@.map_values(|s: String| s@);
                assert(names2 =~= names.push(key@));
                assert forall|i: int, j: int| 0 <= i < j < names2.len() implies names2[i] != names2[j] by {
                    if j == names2.len() - 1 {
                        assert(names.contains(names2[i]));
                    }
                }
                assert forall|k: Seq<char>| (k == key@ || names.contains(k)) implies names2.contains(k) by {
                    if k == key@ {
                        assert(names2[names2.len() - 1] == k);
                    } else {
                        let i = choose|i: int| 0 <= i < names.len() && names[i] == k;
                        assert(names2[i] == names[i]);
                    }
                }
                assert forall|k: Seq<char>| names2.contains(k) ==> (k == key@ || names.contains(k)) by {
                    if names2.contains(k) {
                        let i = choose|i: int| 0 <= i < names2.len() && names2[i] == k;
                        if i < names.len() {
                            assert(names[i] == k);
                        }
                    }
                }
            }
        }
        self.generic_functions.insert(key, (name, modifier, params, return_type, body, span));
    }

    /// Records `func` as one more implementation of `key`.
    pub fn record_implementation(&mut self, key: String, func: Spanned<Statement<TypeEntry>>)
        requires
            old(self).wf(),
        ensures
            final(self).wf(),
            final(self).implementations() == old(self).implementations().insert(
                key@,
                if old(self).implementations().contains_key(key@) {
                    old(self).implementations()[key@].push(func@)
                } else {
                    seq![func@]
                },
            ),
            final(self).generics() == old(self).generics(),
            final(self).requests() == old(self).requests(),
    {
        let ghost m0 = self.implementations();
        let ghost f = func@;
        let mut list = match self.implemented_functions.get(key.as_str()) {
            Some(v) => {
                proof {
                    assert(m0.contains_key(key@));
                    assert(m0[key@] == spanned_stmt_views(v@));
                }
                duplicate_block(v)
            },
            None => {
                assert(!m0.contains_key(key@));
                Vec::new()
            },
        };
        let ghost before = list@;
        list.push(func);
        proof {
            assert(list@.drop_last() == before);
            assert(spanned_stmt_views(list@) == spanned_stmt_views(before).push(f));
            assert(!m0.contains_key(key@) ==> spanned_stmt_views(list@) == seq![f]);
        }
        let ghost k = key@;
        let ghost lv = spanned_stmt_views(list@);
        self.implemented_functions.insert(key, list);
        proof {
            assert(self.implementations() =~= m0.insert(k, lv));
        }
    }

    /// Copies of the implementations recorded for `key`, in order; none if there are none.
    pub fn get_implementation(&mut self, key: &String) -> (r: Vec<Spanned<Statement<TypeEntry>>>)
        ensures
            *final(self) == *old(self),
            spanned_stmt_views(r@) == if old(self).implementations().contains_key(key@) {
                old(self).implementations()[key@]
            } else {
                Seq::<SpannedStmtModel<TypeEntry>>::empty()
            },
    {
        let ghost m0 = self.implementations();
        match self.implemented_functions.get(key.as_str()) {
            Some(v) => {
                proof {
                    assert(m0.contains_key(key@));
                    assert(m0[key@] == spanned_stmt_views(v@));
                }
                duplicate_block(v)
            },
            None => {
                assert(!m0.contains_key(key@));
                Vec::new()
            },
        }
    }

    /// The resolutions asked for, by function key.
    pub fn get_requests(&self) -> (r: &StringHashMap<Vec<Request>>)
        ensures
            r@.map_values(|v: Vec<Request>| request_models(v@)) == self.requests(),
    {
        &self.requests
    }

    /// Whether `(generics, owner)` was already requested for the function `key`.
    pub fn has_requested(
        &self,
        registry: &TypeRegistry,
        key: &String,
        generics: &OrderMap<String, TypeEntry>,
        owner: &Option<AstType>,
    ) -> (b: bool)
        requires
            registry.acyclic(),
        ensures
            b == requested(self.requests(), key@, (generic_entries(*generics), owner_model(*owner)), registry.types()),
    {
        let ghost asked = (generic_entries(*generics), owner_model(*owner));
        let ghost reg = registry.types();
        match self.requests.get(key.as_str()) {
            Some(vec) => {
                let ghost m = self.requests();
                proof {
                    assert(self.requests@.contains_key(key@));
                    assert(m.contains_key(key@));
                    assert(m[key@] == request_models(vec@));
                }
                let wanted = generics_pairs(generics);
                let mut i: usize = 0;
                while i < vec.len()
                    invariant
                        i <= vec@.len(),
                        registry.acyclic(),
                        reg == registry.types(),
                        pairs_model(wanted@) == asked.0,
                        asked == (generic_entries(*generics), owner_model(*owner)),
                        m == self.requests(),
                        m.contains_key(key@),
                        m[key@] == request_models(vec@),
                        forall|j: int| 0 <= j < i ==> !request_matches(#[trigger] request_model(vec@[j]), asked, reg),
                    decreases vec@.len() - i,
                {
                    let stored = generics_pairs(&vec[i].0);
                    if pairs_equal(registry, &wanted, &stored) && owners_equal(registry, &vec[i].1, owner) {
                        proof {
                            assert(m[key@][i as int] == request_model(vec@[i as int]));
                        }
                        return true;
                    }
                    i += 1;
                }
                proof {
                    assert forall|j: int| 0 <= j < m[key@].len() implies !request_matches(#[trigger] m[key@][j], asked, reg) by {
                        assert(m[key@][j] == request_model(vec@[j]));
                    }
                }
                false
            },
            None => false,
        }
    }

    /// Adds `(generic_types, owner)` to the requests for `name`.
    fn add_request(&mut self, name: String, generic_types: OrderMap<String, TypeEntry>, owner: Option<AstType>)
        ensures
            final(self).requests() == with_request(old(self).requests(), name@, request_model((generic_types, owner))),
            final(self).generics() == old(self).generics(),
            final(self).generic_names == old(self).generic_names,
            final(self).implementations() == old(self).implementations(),
    {
        let ghost r = request_model((generic_types, owner));
        let ghost m0 = old(self).requests();
        let mut list: Vec<Request> = match self.requests.get(name.as_str()) {
            Some(v) => {
                proof {
                    assert(m0.contains_key(name@));
                    assert(m0[name@] == request_models(v@));
                }
                copy_requests(v)
            },
            None => {
                assert(!m0.contains_key(name@));
                Vec::new()
            },
        };
        let ghost before = request_models(list@);
        assert(m0.contains_key(name@) ==> before == m0[name@]);
        assert(!m0.contains_key(name@) ==> before == Seq::<RequestModel>::empty());
        list.push((generic_types, owner));
        proof {
            assert(request_models(list@) =~= before.push(r));
        }
        let ghost k = name@;
        let ghost list_model = request_models(list@);
        self.requests.insert(name, list);
        proof {
            assert(list_model == added(m0, k, r));
            assert(self.requests() =~= with_request(m0, k, r));
        }
    }

    /// Asks to resolve the generic function `name` with `generic_types`, owned by
    /// `owner`; where the owner is a struct, its other recorded generic methods are
    /// asked for with the same types (see `resolution_outcome`).
    pub fn request_resolution(
        &mut self,
        type_registry: &TypeRegistry,
        name: String,
        generic_types: OrderMap<String, TypeEntry>,
        owner: Option<AstType>,
    )
        requires
            old(self).wf(),
            type_registry.acyclic(),
        ensures
            final(self).wf(),
            final(self).generics() == old(self).generics(),
            final(self).implementations() == old(self).implementations(),
            final(self).requests() == resolution_outcome(
                old(self).requests(),
                old(self).generics().dom(),
                name@,
                request_model((generic_types, owner)),
                type_registry.types(),
            ),
    {
        let ghost r = request_model((generic_types, owner));
        let ghost reg = type_registry.types();
        let ghost recorded = self.generics().dom();
        let ghost nm = name@;
        if self.has_requested(type_registry, &name, &generic_types, &owner) {
            return;
        }
        let ghost m1 = with_request(self.requests(), nm, r);
        let sibling_types = generics_clone(&generic_types);
        let sibling_owner = copy_owner(&owner);
        let asked_name = name.clone();
        self.add_request(name, generic_types, owner);
        assert(self.requests() == m1);
        if let Some(AstType::StructType { name: struct_name, .. }) = &sibling_owner {
            let mut prefix = chars_of(struct_name.as_str());
            prefix.push('$');
            let ghost names = self.generic_names@.map_values(|s: String| s@);
            let mut i: usize = 0;
            while i < self.generic_names.len()
                invariant
                    self.wf(),
                    type_registry.acyclic(),
                    reg == type_registry.types(),
                    self.generics() == old(self).generics(),
                    self.implementations() == old(self).implementations(),
                    self.generics().dom() == recorded,
                    names == self.generic_names@.map_values(|s: String| s@),
                    i <= names.len(),
                    prefix@ == struct_name@ + seq!['$'],
                    r == (generic_entries(sibling_types), owner_model(sibling_owner)),
                    owner_model(sibling_owner) matches Some(AstTypeModel::StructType { name: n, .. }) && n == struct_name@,
                    self.requests() == Map::new(
                        |k: Seq<char>|
                            m1.contains_key(k) || (is_sibling(k, r.1, asked_name@, recorded) && names.take(i as int).contains(k)
                                && !requested(m1, k, r, reg)),
                        |k: Seq<char>|
                            if is_sibling(k, r.1, asked_name@, recorded) && names.take(i as int).contains(k) && !requested(
                                m1,
                                k,
                                r,
                                reg,
                            ) {
                                added(m1, k, r)
                            } else {
                                m1[k]
                            },
                    ),
                decreases names.len() - i,
            {
                let key = self.generic_names[i].clone();
                let ghost k = names[i as int];
                let ghost cur = self.requests();
                proof {
                    assert(k == key@);
                    assert(names.take(i + 1) == names.take(i as int).push(k));
                    assert(!names.take(i as int).contains(k)) by {
                        if names.take(i as int).contains(k) {
                            let j = choose|j: int| 0 <= j < i && #[trigger] names.take(i as int)[j] == k;
                            assert(names[j] == names[i as int]);
                        }
                    }
                    assert(recorded.contains(k)) by {
                        assert(names.contains(k));
                    }
                    assert(cur.contains_key(k) == m1.contains_key(k));
                    assert(cur.contains_key(k) ==> cur[k] == m1[k]);
                    assert(requested(cur, k, r, reg) == requested(m1, k, r, reg));
                }
                let key_chars = chars_of(key.as_str());
                let sibling = has_prefix(&key_chars, &prefix) && key != asked_name;
                assert(sibling == is_sibling(k, r.1, asked_name@, recorded));
                if sibling && !self.has_requested(type_registry, &key, &sibling_types, &sibling_owner) {
                    self.add_request(key, generics_clone(&sibling_types), copy_owner(&sibling_owner));
                }
                proof {
                    let next = Map::new(
                        |q: Seq<char>|
                            m1.contains_key(q) || (is_sibling(q, r.1, asked_name@, recorded) && names.take(i + 1).contains(q)
                                && !requested(m1, q, r, reg)),
                        |q: Seq<char>|
                            if is_sibling(q, r.1, asked_name@, recorded) && names.take(i + 1).contains(q) && !requested(
                                m1,
                                q,
                                r,
                                reg,
                            ) {
                                added(m1, q, r)
                            } else {
                                m1[q]
                            },
                    );
                    assert forall|q: Seq<char>| names.take(i + 1).contains(q) <==> (names.take(i as int).contains(q) || q == k) by {
                        if names.take(i + 1).contains(q) {
                            let j = choose|j: int| 0 <= j < i + 1 && #[trigger] names.take(i + 1)[j] == q;
                            if j < i {
                                assert(names.take(i as int)[j] == q);
                            }
                        }
                        if names.take(i as int).contains(q) {
                            let j = choose|j: int| 0 <= j < i && #[trigger] names.take(i as int)[j] == q;
                            assert(names.take(i + 1)[j] == q);
                        }
                        if q == k {
                            assert(names.take(i + 1)[i as int] == q);
                        }
                    }
                    assert(self.requests() =~= next);
                }
                i += 1;
            }
            proof {
                assert(names.take(names.len() as int) == names);
                assert forall|k: Seq<char>| is_sibling(k, r.1, asked_name@, recorded) implies names.contains(k) by {}
            }
        }
        proof {
            assert(asked_name@ == nm);
            assert(self.requests() =~= resolution_outcome(old(self).requests(), recorded, nm, r, reg));
        }
    }
}

/// Copies of a list of requests, each with the same model.
fn copy_requests(v: &Vec<Request>) -> (r: Vec<Request>)
    ensures
        request_models(r@) == request_models(v@),
{
    let mut out: Vec<Request> = Vec::new();
    let mut i: usize = 0;
    while i < v.len()
        invariant
            i <= v@.len(),
            request_models(out@) == request_models(v@.take(i as int)),
        decreases v@.len() - i,
    {
        let q = (generics_clone(&v[i].0), copy_owner(&v[i].1));
        let ghost old_out = out@;
        out.push(q);
        proof {
            assert(out@ == old_out.push(q));
            assert(request_model(q) == request_model(v@[i as int]));
            let a = request_models(out@);
            let b = request_models(v@.take(i + 1));
            let a0 = request_models(old_out);
            let b0 = request_models(v@.take(i as int));
            assert(old_out.len() == a0.len());
            assert(a0.len() == b0.len());
            assert(b0.len() == i);
            assert(a.len() == i + 1);
            assert(b.len() == i + 1);
            assert forall|j: int| 0 <= j < i + 1 implies #[trigger] a[j] == b[j] by {
                if j < i {
                    assert(a0[j] == b0[j]);
                }
            }
            assert(request_models(out@) =~= request_models(v@.take(i + 1)));
        }
        i += 1;
    }
    assert(v@.take(v@.len() as int) == v@);
    out
}

/// A copy of a possible owner.
fn copy_owner(o: &Option<AstType>) -> (r: Option<AstType>)
    ensures
        owner_model(r) == owner_model(*o),
{
    match o {
        Some(t) => Some(t.duplicate()),
        None => None,
    }
}

/// Whether `p` is a prefix of `s`.
fn has_prefix(s: &Vec<char>, p: &Vec<char>) -> (b: bool)
    ensures
        b == p@.is_prefix_of(s@),
{
    if p.len() > s.len() {
        return false;
    }
    let mut i: usize = 0;
    while i < p.len()
        invariant
            i <= p@.len() <= s@.len(),
            forall|j: int| 0 <= j < i ==> p@[j] == s@[j],
        decreases p@.len() - i,
    {
        if p[i] != s[i] {
            assert(p@[i as int] != s@.subrange(0, p@.len() as int)[i as int]);
            return false;
        }
        i += 1;
    }
    assert(p@ =~= s@.subrange(0, p@.len() as int));
    true
}

/// Whether two lists of generic arguments match (see `pairs_match`).
fn pairs_equal(registry: &TypeRegistry, p1: &Vec<(String, TypeEntry)>, p2: &Vec<(String, TypeEntry)>) -> (b: bool)
    requires
        registry.acyclic(),
    ensures
        b == pairs_match(pairs_model(p1@), pairs_model(p2@), registry.types()),
{
    let ghost a = pairs_model(p1@);
    let ghost c = pairs_model(p2@);
    let ghost reg = registry.types();
    if p1.len() != p2.len() {
        return false;
    }
    let mut i: usize = 0;
    while i < p1.len()
        invariant
            registry.acyclic(),
            i <= p1@.len(),
            p1@.len() == p2@.len(),
            a == pairs_model(p1@),
            c == pairs_model(p2@),
            reg == registry.types(),
            forall|j: int|
                0 <= j < i ==> (#[trigger] a[j]).0 == c[j].0 && types_equal(entry_type(reg, a[j].1), entry_type(reg, c[j].1), reg, false),
        decreases p1@.len() - i,
    {
        if p1[i].0 != p2[i].0 {
            assert(a[i as int].0 != c[i as int].0);
            return false;
        }
        if !p1[i].1.get(registry).equals(&p2[i].1.get(registry), registry) {
            assert(!types_equal(entry_type(reg, a[i as int].1), entry_type(reg, c[i as int].1), reg, false));
            return false;
        }
        i += 1;
    }
    true
}

/// Whether a recorded owner matches an asked one (see `owners_match`).
fn owners_equal(registry: &TypeRegistry, stored: &Option<AstType>, asked: &Option<AstType>) -> (b: bool)
    requires
        registry.acyclic(),
    ensures
        b == owners_match(owner_model(*stored), owner_model(*asked), registry.types()),
{
    match (stored, asked) {
        (None, None) => true,
        (Some(AstType::StructType { generics: g1, .. }), Some(AstType::StructType { generics: g2, .. })) => {
            let p1 = generics_pairs(g1);
            let p2 = generics_pairs(g2);
            pairs_equal(registry, &p1, &p2)
        },
        _ => false,
    }
}

} // verus!

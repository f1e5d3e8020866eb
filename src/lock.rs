use vstd::prelude::*;

use crate::order::{
    lemma_insert_sorted,
    lemma_seq_less_total,
    lemma_seq_less_trans,
    lemma_sorted_of,
    seq_less,
    sorted_of,
    str_less,
    strict_total,
    strictly_sorted,
    transitive,
};

verus! {

/// A dependency as a (name, version) pair of texts.
pub type Dep = (Seq<char>, Seq<char>);

/// One `[[package]]` entry of a lock document: its `name` and `version`
/// where each is present as a string.
pub struct LockPackage {
    pub name: Option<String>,
    pub version: Option<String>,
}

/// Why a lock document could not be read.
#[derive(Clone, Copy, Debug, PartialEq, Eq, Structural)]
pub enum LockError {
    /// The text is not a valid document.
    InvalidDocument,
    /// The document has no array of `package` tables.
    MissingPackageList,
    /// A package entry lacks a string `name` or `version`.
    MissingField,
}

/// Order of dependencies: by name, then by version.
pub open spec fn dep_less(a: Dep, b: Dep) -> bool {
    seq_less(a.0, b.0) || (a.0 == b.0 && seq_less(a.1, b.1))
}

/// `dep_less` as a value.
pub open spec fn dep_order() -> spec_fn(Dep, Dep) -> bool {
    |a: Dep, b: Dep| dep_less(a, b)
}

/// What a list of (name, version) strings holds.
pub open spec fn dep_list_view(s: Seq<(String, String)>) -> Seq<Dep> {
    s.map_values(|p: (String, String)| (p.0@, p.1@))
}

/// A package entry as the texts of its `name` and `version`, each where it
/// is present as a string.
pub type Entry = (Option<Seq<char>>, Option<Seq<char>>);

/// What an optional string holds.
pub open spec fn opt_view(o: Option<String>) -> Option<Seq<char>> {
    match o {
        Some(s) => Some(s@),
        None => None,
    }
}

/// What a package entry holds.
pub open spec fn entry_view(p: LockPackage) -> Entry {
    (opt_view(p.name), opt_view(p.version))
}

/// What a list of package entries holds.
pub open spec fn entries_view(ps: Seq<LockPackage>) -> Seq<Entry> {
    ps.map_values(|p: LockPackage| entry_view(p))
}

/// Whether a package entry has both of its fields.
pub open spec fn complete(e: Entry) -> bool {
    e.0 is Some && e.1 is Some
}

/// Whether every entry of `es` has both of its fields.
pub open spec fn all_complete(es: Seq<Entry>) -> bool {
    forall|i: int| 0 <= i < es.len() ==> complete(#[trigger] es[i])
}

/// The (name, version) pair of a complete entry.
pub open spec fn entry_dep(e: Entry) -> Dep {
    (e.0->0, e.1->0)
}

/// The pairs that the complete entries of `es` declare.
pub open spec fn declared_deps(es: Seq<Entry>) -> Set<Dep> {
    Set::new(|d: Dep| exists|i: int| 0 <= i < es.len() && complete(es[i]) && #[trigger] entry_dep(es[i]) == d)
}

/// The dependency list of a lock document with the entries `es`: the
/// declared pairs, sorted by name then version, each once.
pub open spec fn dependency_list(es: Seq<Entry>) -> Seq<Dep> {
    sorted_of(declared_deps(es), dep_order())
}

/// The dependency order is a strict total order.
pub proof fn lemma_dep_order_total()
    ensures
        strict_total(dep_order()),
{
    assert forall|x: Dep| !#[trigger] dep_order()(x, x) by {
        lemma_seq_less_total(x.0, x.0);
        lemma_seq_less_total(x.1, x.1);
    };
    assert forall|x: Dep, y: Dep| #[trigger] dep_order()(x, y) implies !dep_order()(y, x) by {
        lemma_seq_less_total(x.0, y.0);
        lemma_seq_less_total(x.1, y.1);
    };
    assert forall|x: Dep, y: Dep| x != y implies #[trigger] dep_order()(x, y) || dep_order()(y, x) by {
        lemma_seq_less_total(x.0, y.0);
        lemma_seq_less_total(x.1, y.1);
    };
}

/// The dependency order is transitive.
pub proof fn lemma_dep_order_trans()
    ensures
        transitive(dep_order()),
{
    assert forall|x: Dep, y: Dep, z: Dep|
        #[trigger] dep_order()(x, y) && #[trigger] dep_order()(y, z) implies dep_order()(x, z) by {
        lemma_dep_less_trans(x, y, z);
    };
}

proof fn lemma_dep_less_trans(a: Dep, b: Dep, c: Dep)
    requires
        dep_less(a, b),
        dep_less(b, c),
    ensures
        dep_less(a, c),
{
    if seq_less(a.0, b.0) && seq_less(b.0, c.0) {
        lemma_seq_less_trans(a.0, b.0, c.0);
    }
    if a.0 == b.0 && b.0 == c.0 {
        lemma_seq_less_total(a.0, a.0);
        lemma_seq_less_trans(a.1, b.1, c.1);
    }
}

/// Whether `a` comes before (`name`, `version`).
fn dep_before(a: &(String, String), name: &String, version: &String) -> (r: bool)
    ensures
        r == dep_less((a.0@, a.1@), (name@, version@)),
{
    if str_less(a.0.as_str(), name.as_str()) {
        true
    } else if a.0 == *name {
        str_less(a.1.as_str(), version.as_str())
    } else {
        false
    }
}

/// Adds (`name`, `version`) to a strictly sorted list, unless it is there.
fn insert_dep(deps: &mut Vec<(String, String)>, name: String, version: String)
    requires
        strictly_sorted(dep_list_view(old(deps)@), dep_order()),
    ensures
        strictly_sorted(dep_list_view(final(deps)@), dep_order()),
        dep_list_view(final(deps)@).to_set() == dep_list_view(old(deps)@).to_set().insert(
            (name@, version@),
        ),
{
    let ghost x: Dep = (name@, version@);
    let ghost v = dep_list_view(deps@);
    proof {
        lemma_dep_order_total();
        lemma_dep_order_trans();
    }
    let mut i: usize = 0;
    while i < deps.len()
        invariant
            i <= deps.len(),
            v == dep_list_view(deps@),
            x == (name@, version@),
            forall|j: int| 0 <= j < i ==> #[trigger] dep_order()(v[j], x),
        ensures
            i <= deps.len(),
            forall|j: int| 0 <= j < i ==> #[trigger] dep_order()(v[j], x),
            i < deps.len() ==> !dep_order()(v[i as int], x),
        decreases deps.len() - i,
    {
        assert(v[i as int] == (deps@[i as int].0@, deps@[i as int].1@));
        if !dep_before(&deps[i], &name, &version) {
            break;
        }
        i = i + 1;
    }
    if i < deps.len() && deps[i].0 == name && deps[i].1 == version {
        assert(v.to_set() =~= v.to_set().insert(x)) by {
            assert(v[i as int] == x);
        };
        return;
    }
    proof {
        if i < v.len() {
            assert(v[i as int] != x);
            assert(dep_order()(x, v[i as int]));
        }
        lemma_insert_sorted(v, i as int, x, dep_order());
    }
    deps.insert(i, (name, version));
    assert(dep_list_view(deps@) =~= v.insert(i as int, x));
}

/// The dependency list of the package entries `packages`: every declared
/// (name, version) pair, sorted by name then version, each once. Fails where
/// an entry lacks a string `name` or `version`.
pub fn collect_dependencies(packages: &Vec<LockPackage>) -> (r: Result<
    Vec<(String, String)>,
    LockError,
>)
    ensures
        match r {
            Ok(deps) => all_complete(entries_view(packages@)) && dep_list_view(deps@)
                == dependency_list(entries_view(packages@)) && strictly_sorted(
                dep_list_view(deps@),
                dep_order(),
            ) && dep_list_view(deps@).to_set() == declared_deps(entries_view(packages@)),
            Err(e) => e == LockError::MissingField && !all_complete(entries_view(packages@)),
        },
{
    let mut deps: Vec<(String, String)> = Vec::new();
    let ghost es = entries_view(packages@);
    assert(dep_list_view(deps@).to_set() =~= declared_deps(es.take(0)));
    let mut i: usize = 0;
    while i < packages.len()
        invariant
            i <= packages.len(),
            es == entries_view(packages@),
            strictly_sorted(dep_list_view(deps@), dep_order()),
            dep_list_view(deps@).to_set() == declared_deps(es.take(i as int)),
            forall|j: int| 0 <= j < i ==> complete(#[trigger] es[j]),
        decreases packages.len() - i,
    {
        let p = &packages[i];
        assert(es[i as int] == entry_view(packages@[i as int]));
        match (&p.name, &p.version) {
            (Some(name), Some(version)) => {
                insert_dep(&mut deps, name.clone(), version.clone());
                proof {
                    let d = entry_dep(es[i as int]);
                    let before = declared_deps(es.take(i as int));
                    let after = declared_deps(es.take(i + 1));
                    assert forall|e: Dep| after.contains(e) <==> before.insert(d).contains(e) by {
                        if after.contains(e) {
                            let k = choose|k: int|
                                0 <= k < i + 1 && complete(es.take(i + 1)[k])
                                    && #[trigger] entry_dep(es.take(i + 1)[k]) == e;
                            if k < i {
                                assert(es.take(i as int)[k] == es[k]);
                            }
                        }
                        if before.contains(e) {
                            let k = choose|k: int|
                                0 <= k < i && complete(es.take(i as int)[k])
                                    && #[trigger] entry_dep(es.take(i as int)[k]) == e;
                            assert(es.take(i + 1)[k] == es[k]);
                        }
                        if e == d {
                            assert(es.take(i + 1)[i as int] == es[i as int]);
                        }
                    };
                    assert(after =~= before.insert(d));
                }
            },
            _ => {
                assert(!complete(es[i as int]));
                return Err(LockError::MissingField);
            },
        }
        i = i + 1;
    }
    proof {
        assert(es.take(i as int) =~= es);
        lemma_dep_order_total();
        lemma_sorted_of(dep_list_view(deps@), dep_order());
    }
    Ok(deps)
}

/// Whether `a` and `b` hold the same entries, up to order and repetition.
pub open spec fn same_entries(a: Seq<Entry>, b: Seq<Entry>) -> bool {
    &&& forall|i: int| 0 <= i < a.len() ==> exists|j: int| 0 <= j < b.len() && b[j] == #[trigger] a[i]
    &&& forall|j: int| 0 <= j < b.len() ==> exists|i: int| 0 <= i < a.len() && a[i] == #[trigger] b[j]
}

/// The dependency list depends only on which entries are declared, not on
/// their order or repetition: two lock documents whose package entries are
/// the same up to order give the same list, and one of them has an
/// incomplete entry exactly when the other has.
pub proof fn lemma_dependency_list_order_independent(a: Seq<Entry>, b: Seq<Entry>)
    requires
        same_entries(a, b),
    ensures
        dependency_list(a) == dependency_list(b),
        all_complete(a) == all_complete(b),
{
    assert forall|d: Dep| declared_deps(a).contains(d) implies declared_deps(b).contains(d) by {
        let i = choose|i: int| 0 <= i < a.len() && complete(a[i]) && #[trigger] entry_dep(a[i]) == d;
        let j = choose|j: int| 0 <= j < b.len() && b[j] == a[i];
        assert(entry_dep(b[j]) == d);
    };
    assert forall|d: Dep| declared_deps(b).contains(d) implies declared_deps(a).contains(d) by {
        let j = choose|j: int| 0 <= j < b.len() && complete(b[j]) && #[trigger] entry_dep(b[j]) == d;
        let i = choose|i: int| 0 <= i < a.len() && a[i] == b[j];
        assert(entry_dep(a[i]) == d);
    };
    assert(declared_deps(a) =~= declared_deps(b));
    if all_complete(a) {
        assert forall|j: int| 0 <= j < b.len() implies complete(#[trigger] b[j]) by {
            let i = choose|i: int| 0 <= i < a.len() && a[i] == b[j];
            assert(complete(a[i]));
        };
    }
    if all_complete(b) {
        assert forall|i: int| 0 <= i < a.len() implies complete(#[trigger] a[i]) by {
            let j = choose|j: int| 0 <= j < b.len() && b[j] == a[i];
            assert(complete(b[j]));
        };
    }
}

#[verifier::external_type_specification]
#[verifier::external_body]
pub struct ExTomlError(toml::de::Error);

/// Whether the toml crate accepts a text as a document.
pub uninterp spec fn toml_accepts(text: Seq<char>) -> bool;

/// The entries of the `package` array of the document `text`: for each of
/// its items, the `name` and `version` strings that it holds; `None` where the
/// document has no `package` array.
pub uninterp spec fn lock_entries_of(text: Seq<char>) -> Option<Seq<Entry>>;

/// Relies on toml's `FromStr` for `toml::Table`, `toml::Table::get`, and
/// `toml::Value::get`, `as_array` and `as_str`: the document is parsed as a
/// whole, and the `name` and `version` strings of the items of its `package`
/// array are read out. Both depend on the text alone.
#[verifier::external_body]
fn read_lock_entries(text: &str) -> (r: Result<Option<Vec<LockPackage>>, toml::de::Error>)
    ensures
        r is Ok <==> toml_accepts(text@),
        r matches Ok(o) ==> match o {
            Some(ps) => lock_entries_of(text@) == Some(entries_view(ps@)),
            None => lock_entries_of(text@) is None,
        },
{
    let doc = text.parse::<toml::Table>()?;
    let field = |p: &toml::Value, k: &str| p.get(k).and_then(|v| v.as_str()).map(String::from);
    Ok(doc.get("package").and_then(|p| p.as_array()).map(|items| {
        items.iter().map(|p| LockPackage { name: field(p, "name"), version: field(p, "version") })
            .collect()
    }))
}

/// What reading the lock document `text` gives: its dependency list, or why
/// there is none.
pub open spec fn lock_result(text: Seq<char>) -> Result<Seq<Dep>, LockError> {
    if !toml_accepts(text) {
        Err(LockError::InvalidDocument)
    } else {
        match lock_entries_of(text) {
            None => Err(LockError::MissingPackageList),
            Some(es) => if all_complete(es) {
                Ok(dependency_list(es))
            } else {
                Err(LockError::MissingField)
            },
        }
    }
}

/// Reads the lock document `text` and returns its dependency list: every
/// (name, version) pair of its `package` array, sorted by name then version,
/// each once.
pub fn parse_dependencies(text: &str) -> (r: Result<Vec<(String, String)>, LockError>)
    ensures
        match r {
            Ok(deps) => lock_result(text@) == Ok::<Seq<Dep>, LockError>(dep_list_view(deps@))
                && strictly_sorted(dep_list_view(deps@), dep_order()),
            Err(e) => lock_result(text@) == Err::<Seq<Dep>, LockError>(e),
        },
{
    match read_lock_entries(text) {
        Err(_) => Err(LockError::InvalidDocument),
        Ok(None) => Err(LockError::MissingPackageList),
        Ok(Some(packages)) => collect_dependencies(&packages),
    }
}

/// Two lock documents whose package entries are the same up to order give
/// the same result.
pub proof fn lemma_lock_result_order_independent(t1: Seq<char>, t2: Seq<char>)
    requires
        toml_accepts(t1),
        toml_accepts(t2),
        lock_entries_of(t1) is Some,
        lock_entries_of(t2) is Some,
        same_entries(lock_entries_of(t1)->0, lock_entries_of(t2)->0),
    ensures
        lock_result(t1) == lock_result(t2),
{
    lemma_dependency_list_order_independent(lock_entries_of(t1)->0, lock_entries_of(t2)->0);
}

} // verus!

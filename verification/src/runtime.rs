//! Runtimes (the named entry runtimes that a chunk belongs to) and sets of
//! module identities.
use vstd::prelude::*;
use rustc_hash::FxHashSet;

use crate::text::views;

verus! {

/// The runtimes that a chunk or module belongs to, each named once.
pub struct RuntimeSpec {
    pub names: Vec<String>,
}

/// The names of a runtime.
pub open spec fn runtime_names(r: RuntimeSpec) -> Seq<Seq<char>> {
    views(r.names@)
}

/// Whether some runtime among the first `n` of `rs` is named `x`.
pub open spec fn in_some_runtime(rs: Seq<RuntimeSpec>, x: Seq<char>, n: int) -> bool
    decreases n,
{
    if n <= 0 {
        false
    } else {
        in_some_runtime(rs, x, n - 1) || runtime_names(rs[n - 1]).contains(x)
    }
}

impl RuntimeSpec {
    pub fn new() -> (r: Self)
        ensures
            runtime_names(r).len() == 0,
    {
        RuntimeSpec { names: Vec::new() }
    }
}

/// Whether `names` holds `x`.
fn holds_name(names: &Vec<String>, x: &String) -> (r: bool)
    ensures
        r == views(names@).contains(x@),
{
    let mut i: usize = 0;
    while i < names.len()
        invariant
            i <= names@.len(),
            forall|j: int| 0 <= j < i ==> names@[j]@ != x@,
        decreases names@.len() - i,
    {
        if names[i] == *x {
            assert(views(names@)[i as int] == x@);
            return true;
        }
        i = i + 1;
    }
    false
}

/// The union of two runtimes: the names of `a`, then those of `b` that `a`
/// lacks.
pub fn merge_runtime(a: &RuntimeSpec, b: &RuntimeSpec) -> (r: RuntimeSpec)
    ensures
        forall|x: Seq<char>| runtime_names(r).contains(x) <==> runtime_names(*a).contains(x) || runtime_names(*b).contains(x),
        runtime_names(*a).no_duplicates() ==> runtime_names(r).no_duplicates(),
{
    broadcast use vstd::seq_lib::group_seq_properties;

    let mut names: Vec<String> = Vec::new();
    let mut i: usize = 0;
    while i < a.names.len()
        invariant
            i <= a.names@.len(),
            names@.len() == i,
            forall|j: int| 0 <= j < i ==> (#[trigger] names@[j])@ == a.names@[j]@,
        decreases a.names@.len() - i,
    {
        names.push(a.names[i].clone());
        i = i + 1;
    }
    assert(views(names@) =~= runtime_names(*a));
    let mut k: usize = 0;
    while k < b.names.len()
        invariant
            k <= b.names@.len(),
            forall|x: Seq<char>| views(names@).contains(x) <==> runtime_names(*a).contains(x) || views(b.names@).take(k as int).contains(x),
            runtime_names(*a).no_duplicates() ==> views(names@).no_duplicates(),
        decreases b.names@.len() - k,
    {
        let ghost prev = views(names@);
        assert(forall|y: Seq<char>| prev.contains(y) <==> runtime_names(*a).contains(y) || views(b.names@).take(k as int).contains(y));
        let x = &b.names[k];
        if !holds_name(&names, x) {
            names.push(x.clone());
            assert(views(names@) =~= prev.push(x@));
            assert(views(names@)[prev.len() as int] == x@);
            assert forall|y: Seq<char>| prev.contains(y) implies views(names@).contains(y) by {
                let j = choose|j: int| 0 <= j < prev.len() && #[trigger] prev[j] == y;
                assert(views(names@)[j] == y);
            }
            assert forall|y: Seq<char>| views(names@).contains(y) implies prev.contains(y) || y == x@ by {
                let j = choose|j: int| 0 <= j < views(names@).len() && #[trigger] views(names@)[j] == y;
                if j < prev.len() {
                    assert(prev[j] == y);
                }
            }
        } else {
            assert(views(names@) == prev);
        }
        assert(views(names@).contains(x@));
        assert(forall|y: Seq<char>| prev.contains(y) ==> views(names@).contains(y));
        assert(forall|y: Seq<char>| views(names@).contains(y) ==> prev.contains(y) || y == x@);
        let ghost t0 = views(b.names@).take(k as int);
        let ghost t1 = views(b.names@).take(k + 1);
        assert(t1 =~= t0.push(x@));
        assert forall|y: Seq<char>| t1.contains(y) <==> t0.contains(y) || y == x@ by {
            if t1.contains(y) {
                let j = choose|j: int| 0 <= j < t1.len() && #[trigger] t1[j] == y;
                if j < t0.len() {
                    assert(t0[j] == y);
                }
            }
            if t0.contains(y) {
                let j = choose|j: int| 0 <= j < t0.len() && #[trigger] t0[j] == y;
                assert(t1[j] == y);
            }
            if y == x@ {
                assert(t1[k as int] == y);
            }
        }
        assert forall|y: Seq<char>| views(names@).contains(y) implies runtime_names(*a).contains(y) || t1.contains(y) by {
            if prev.contains(y) {
                assert(runtime_names(*a).contains(y) || t0.contains(y));
            }
        }
        assert forall|y: Seq<char>| runtime_names(*a).contains(y) || t1.contains(y) implies views(names@).contains(y) by {
            if runtime_names(*a).contains(y) || t0.contains(y) {
                assert(prev.contains(y));
            }
        }
        k = k + 1;
    }
    assert(views(b.names@).take(b.names@.len() as int) =~= views(b.names@));
    RuntimeSpec { names }
}

/// The module identities that an `FxHashSet` holds.
pub uninterp spec fn module_id_set(s: FxHashSet<u64>) -> Set<u64>;

/// `rustc_hash::FxHasher`, the hasher of the sets of module identities,
/// opaque here.
#[verifier::external_type_specification]
#[verifier::external_body]
pub struct ExFxHasher(rustc_hash::FxHasher);

/// `std::hash::BuildHasherDefault`, which builds that hasher, opaque here.
#[verifier::external_type_specification]
#[verifier::external_body]
#[verifier::reject_recursive_types(H)]
pub struct ExBuildHasherDefault<H>(std::hash::BuildHasherDefault<H>);

/// An empty set (`FxHashSet::default`). Trusted: it holds nothing.
#[verifier::external_body]
pub(crate) fn module_id_set_new() -> (r: FxHashSet<u64>)
    ensures
        module_id_set(r) == Set::<u64>::empty(),
{
    FxHashSet::default()
}

/// Adds `id` to the set (`HashSet::insert`). Trusted: afterwards the set
/// holds `id` besides what it held; the answer is true where `id` was not
/// there.
#[verifier::external_body]
pub(crate) fn module_id_set_insert(s: &mut FxHashSet<u64>, id: u64) -> (r: bool)
    ensures
        module_id_set(*final(s)) == module_id_set(*old(s)).insert(id),
        r == !module_id_set(*old(s)).contains(id),
{
    s.insert(id)
}

/// Whether the set holds `id` (`HashSet::contains`). Trusted: the answer is
/// membership in what the set holds.
#[verifier::external_body]
pub(crate) fn module_id_set_contains(s: &FxHashSet<u64>, id: u64) -> (r: bool)
    ensures
        r == module_id_set(*s).contains(id),
{
    s.contains(&id)
}

} // verus!

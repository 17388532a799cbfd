use vstd::prelude::*;
use crate::types::{Dependency, DepView, TsType, dep_view, deps_view, info_dep};

verus! {

/// Whether a dependency with identity `id` is in `s`.
pub open spec fn has_id(s: Seq<DepView>, id: u64) -> bool {
    exists|i: int| 0 <= i < s.len() && (#[trigger] s[i]).0 == id
}

/// `acc` with `d` added at the end, unless its identity is there already.
pub open spec fn insert_dep(acc: Seq<DepView>, d: DepView) -> Seq<DepView> {
    if has_id(acc, d.0) { acc } else { acc.push(d) }
}

/// The dependencies of `s` added one by one, in order, to `acc`.
pub open spec fn dedup_onto(acc: Seq<DepView>, s: Seq<DepView>) -> Seq<DepView>
    decreases s.len(),
{
    if s.len() == 0 {
        acc
    } else {
        dedup_onto(insert_dep(acc, s[0]), s.drop_first())
    }
}

/// `s` with each identity kept at its first place only.
pub open spec fn dedup(s: Seq<DepView>) -> Seq<DepView> {
    dedup_onto(Seq::empty(), s)
}

/// No two entries of `s` share an identity.
pub open spec fn unique_ids(s: Seq<DepView>) -> bool {
    forall|i: int, j: int| 0 <= i < j < s.len() ==> (#[trigger] s[i]).0 != (#[trigger] s[j]).0
}

/// Dependencies that a type reference contributes, before duplicates are removed.
/// A named type stands for itself where it is exported and referred to by name;
/// otherwise, and for every wrapper or collection, the types inside are taken.
pub open spec fn type_deps(t: TsType, inline: bool) -> Seq<DepView>
    decreases t, 0nat,
{
    match t {
        TsType::Primitive(_) => Seq::empty(),
        TsType::Param(_) => Seq::empty(),
        TsType::Named(info) => if !inline && info.export_to is Some {
            seq![info_dep(*info)]
        } else {
            deps_view(info.deps@)
        },
        TsType::Nullable(b) => type_deps(*b, inline),
        TsType::List(b) => type_deps(*b, inline),
        TsType::Array(b, _) => type_deps(*b, inline),
        TsType::Tuple(v) => items_deps(v@, inline, v@.len()),
        TsType::Applied(info, v) => (if info.export_to is Some {
            seq![info_dep(*info)]
        } else {
            deps_view(info.deps@)
        }) + items_deps(v@, inline, v@.len()),
        TsType::Record(k, v) => type_deps(*k, inline) + type_deps(*v, inline),
        TsType::Fallible(o, e) => type_deps(*o, inline) + type_deps(*e, inline),
        TsType::Range(b) => type_deps(*b, inline),
    }
}

/// Dependencies of the first `n` types of `ts`, in order.
pub open spec fn items_deps(ts: Seq<TsType>, inline: bool, n: nat) -> Seq<DepView>
    decreases ts, n,
{
    if n == 0 || n > ts.len() {
        Seq::empty()
    } else {
        items_deps(ts, inline, (n - 1) as nat) + type_deps(ts[n - 1], inline)
    }
}

pub proof fn lemma_dedup_onto_append(acc: Seq<DepView>, a: Seq<DepView>, b: Seq<DepView>)
    ensures
        dedup_onto(acc, a + b) == dedup_onto(dedup_onto(acc, a), b),
    decreases a.len(),
{
    if a.len() == 0 {
        assert(a + b =~= b);
    } else {
        assert((a + b).drop_first() =~= a.drop_first() + b);
        assert((a + b)[0] == a[0]);
        lemma_dedup_onto_append(insert_dep(acc, a[0]), a.drop_first(), b);
    }
}

pub proof fn lemma_dedup_onto_push(acc: Seq<DepView>, a: Seq<DepView>, d: DepView)
    ensures
        dedup_onto(acc, a.push(d)) == insert_dep(dedup_onto(acc, a), d),
{
    lemma_dedup_onto_append(acc, a, seq![d]);
    assert(a.push(d) =~= a + seq![d]);
    lemma_dedup_onto_single(dedup_onto(acc, a), d);
}

pub proof fn lemma_dedup_onto_single(acc: Seq<DepView>, d: DepView)
    ensures
        dedup_onto(acc, seq![d]) == insert_dep(acc, d),
{
    assert(seq![d].drop_first() =~= Seq::<DepView>::empty());
    assert(dedup_onto(insert_dep(acc, d), Seq::empty()) == insert_dep(acc, d));
}

/// Adding dependencies keeps identities unique and loses none.
pub proof fn lemma_dedup_onto_ids(acc: Seq<DepView>, s: Seq<DepView>)
    requires
        unique_ids(acc),
    ensures
        unique_ids(dedup_onto(acc, s)),
        forall|id: u64| has_id(dedup_onto(acc, s), id) <==> (has_id(acc, id) || has_id(s, id)),
        dedup_onto(acc, s).subrange(0, acc.len() as int) == acc,
        dedup_onto(acc, s).len() >= acc.len(),
    decreases s.len(),
{
    if s.len() > 0 {
        let next = insert_dep(acc, s[0]);
        assert forall|id: u64| has_id(next, id) <==> (has_id(acc, id) || id == s[0].0) by {
            if has_id(acc, id) {
                let i = choose|i: int| 0 <= i < acc.len() && (#[trigger] acc[i]).0 == id;
                assert(next[i] == acc[i]);
            }
            if !has_id(acc, s[0].0) && id == s[0].0 {
                assert(next[acc.len() as int] == s[0]);
            }
        }
        lemma_dedup_onto_ids(next, s.drop_first());
        assert forall|id: u64| has_id(s, id) <==> (id == s[0].0 || has_id(s.drop_first(), id)) by {
            if has_id(s, id) && id != s[0].0 {
                let i = choose|i: int| 0 <= i < s.len() && (#[trigger] s[i]).0 == id;
                assert(s.drop_first()[i - 1] == s[i]);
            }
            if has_id(s.drop_first(), id) {
                let i = choose|i: int| 0 <= i < s.len() - 1 && (#[trigger] s.drop_first()[i]).0 == id;
                assert(s[i + 1] == s.drop_first()[i]);
            }
            if id == s[0].0 {
                assert(s[0].0 == id);
            }
        }
        let r = dedup_onto(next, s.drop_first());
        assert(r.subrange(0, next.len() as int) == next);
        assert(next.subrange(0, acc.len() as int) =~= acc);
        assert(r.subrange(0, acc.len() as int) =~= r.subrange(0, next.len() as int).subrange(0, acc.len() as int));
    }
}

/// Adds `d` to `acc` unless a dependency of the same identity is there.
pub fn insert_dependency(acc: &mut Vec<Dependency>, d: Dependency)
    ensures
        deps_view(final(acc)@) == insert_dep(deps_view(old(acc)@), dep_view(d)),
{
    let n = acc.len();
    let mut i: usize = 0;
    while i < n
        invariant
            i <= n,
            n == acc@.len(),
            forall|j: int| 0 <= j < i ==> (#[trigger] acc@[j]).type_id != d.type_id,
        decreases n - i,
    {
        if acc[i].type_id == d.type_id {
            assert(deps_view(acc@)[i as int].0 == d.type_id);
            return;
        }
        i = i + 1;
    }
    assert(!has_id(deps_view(acc@), d.type_id)) by {
        if has_id(deps_view(acc@), d.type_id) {
            let j = choose|j: int| 0 <= j < deps_view(acc@).len() && (#[trigger] deps_view(acc@)[j]).0 == d.type_id;
            assert(acc@[j].type_id == d.type_id);
        }
    }
    acc.push(d);
    assert(deps_view(acc@) =~= deps_view(old(acc)@).push(dep_view(d)));
}

/// Adds each dependency of `ds`, in order, to `acc`.
pub fn insert_all(acc: &mut Vec<Dependency>, ds: &Vec<Dependency>)
    ensures
        deps_view(final(acc)@) == dedup_onto(deps_view(old(acc)@), deps_view(ds@)),
{
    let ghost start = deps_view(acc@);
    let mut i: usize = 0;
    assert(deps_view(ds@).subrange(0, 0) =~= Seq::<DepView>::empty());
    while i < ds.len()
        invariant
            i <= ds@.len(),
            deps_view(acc@) == dedup_onto(start, deps_view(ds@).subrange(0, i as int)),
        decreases ds@.len() - i,
    {
        proof {
            lemma_dedup_onto_push(start, deps_view(ds@).subrange(0, i as int), dep_view(ds@[i as int]));
            assert(deps_view(ds@).subrange(0, i as int).push(dep_view(ds@[i as int]))
                =~= deps_view(ds@).subrange(0, i + 1));
        }
        insert_dependency(acc, ds[i].clone_dep());
        i = i + 1;
    }
    assert(deps_view(ds@).subrange(0, ds@.len() as int) =~= deps_view(ds@));
}

impl Dependency {
    /// A copy of this dependency.
    pub fn clone_dep(&self) -> (r: Dependency)
        ensures
            dep_view(r) == dep_view(*self),
    {
        Dependency { type_id: self.type_id, ts_name: self.ts_name.clone(), exported_to: self.exported_to.clone() }
    }
}

/// Adds the dependencies of a type reference, in order, to `acc`.
pub fn collect_deps(t: &TsType, inline: bool, acc: &mut Vec<Dependency>)
    ensures
        deps_view(final(acc)@) == dedup_onto(deps_view(old(acc)@), type_deps(*t, inline)),
    decreases t,
{
    let ghost start = deps_view(acc@);
    assert(dedup_onto(start, Seq::empty()) == start);
    match t {
        TsType::Primitive(_) => {},
        TsType::Param(_) => {},
        TsType::Named(info) => {
            if !inline && info.export_to.is_some() {
                let d = Dependency::from_ty(info);
                match d {
                    Some(d) => {
                        proof { lemma_dedup_onto_single(start, dep_view(d)); }
                        insert_dependency(acc, d);
                    },
                    None => {},
                }
            } else {
                insert_all(acc, &info.deps);
            }
        },
        TsType::Nullable(b) => collect_deps(b, inline, acc),
        TsType::List(b) => collect_deps(b, inline, acc),
        TsType::Array(b, _) => collect_deps(b, inline, acc),
        TsType::Tuple(v) => {
            let mut i: usize = 0;
            assert(decreases_to!(*t => *v));
            while i < v.len()
                invariant
                    decreases_to!(*t => *v),
                    i <= v@.len(),
                    deps_view(acc@) == dedup_onto(start, items_deps(v@, inline, i as nat)),
                decreases v@.len() - i,
            {
                proof {
                    assert(decreases_to!(*v => v[i as int]));
                    lemma_dedup_onto_append(start, items_deps(v@, inline, i as nat), type_deps(v@[i as int], inline));
                }
                collect_deps(&v[i], inline, acc);
                i = i + 1;
            }
        },
        TsType::Applied(info, v) => {
            let d = Dependency::from_ty(info);
            match d {
                Some(d) => {
                    proof { lemma_dedup_onto_single(start, dep_view(d)); }
                    insert_dependency(acc, d);
                },
                None => insert_all(acc, &info.deps),
            }
            let ghost head = if info.export_to is Some {
                seq![info_dep(**info)]
            } else {
                deps_view(info.deps@)
            };
            let ghost mid = deps_view(acc@);
            let mut i: usize = 0;
            assert(decreases_to!(*t => *v));
            assert(dedup_onto(mid, Seq::empty()) == mid);
            while i < v.len()
                invariant
                    decreases_to!(*t => *v),
                    i <= v@.len(),
                    deps_view(acc@) == dedup_onto(mid, items_deps(v@, inline, i as nat)),
                decreases v@.len() - i,
            {
                proof {
                    assert(decreases_to!(*v => v[i as int]));
                    lemma_dedup_onto_append(mid, items_deps(v@, inline, i as nat), type_deps(v@[i as int], inline));
                }
                collect_deps(&v[i], inline, acc);
                i = i + 1;
            }
            proof { lemma_dedup_onto_append(start, head, items_deps(v@, inline, v@.len())); }
        },
        TsType::Record(k, v) => {
            collect_deps(k, inline, acc);
            collect_deps(v, inline, acc);
            proof { lemma_dedup_onto_append(start, type_deps(**k, inline), type_deps(**v, inline)); }
        },
        TsType::Fallible(o, e) => {
            collect_deps(o, inline, acc);
            collect_deps(e, inline, acc);
            proof { lemma_dedup_onto_append(start, type_deps(**o, inline), type_deps(**e, inline)); }
        },
        TsType::Range(b) => collect_deps(b, inline, acc),
    }
}

/// The dependencies of a type reference in the order first met, each identity once.
pub fn dependencies(t: &TsType) -> (r: Vec<Dependency>)
    ensures
        deps_view(r@) == dedup(type_deps(*t, false)),
        unique_ids(deps_view(r@)),
{
    let mut acc: Vec<Dependency> = Vec::new();
    assert(deps_view(acc@) =~= Seq::<DepView>::empty());
    collect_deps(t, false, &mut acc);
    proof { lemma_dedup_onto_ids(Seq::empty(), type_deps(*t, false)); }
    acc
}

} // verus!

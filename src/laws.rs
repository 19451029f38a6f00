use vstd::prelude::*;
use crate::tokens::{Tok, toks_view, contains_sym, fresh_of};
use crate::render::impl_toks;
use crate::graph::{closure_of, is_walk, reach};
use crate::model::{RecordDesc, direct_dep, direct_deps};
use crate::shape::{optional_inner, wrapped_inner};
use crate::synth::{
    ArgV, Method, MethodV, methods_view, mentions, generic_field, renames, renamed_names,
    renamed_upto, others_of, retyped_of, arg_of, method_of, methods_upto, methods_of,
};

verus! {

/// The setters of the first `t` fields are exactly the setters of those of them that are not
/// skipped, in field order.
proof fn lemma_methods_upto(rec: RecordDesc, t: int)
    requires
        0 <= t <= rec.fields@.len(),
    ensures
        forall|k: int| 0 <= k < methods_upto(rec, t).len() ==> {
            let m = #[trigger] methods_upto(rec, t)[k];
            &&& 0 <= m.field < t
            &&& !rec.fields@[m.field].skip
            &&& m == method_of(rec, m.field)
        },
        forall|j: int| 0 <= j < t && !rec.fields@[j].skip ==> #[trigger] methods_upto(rec, t).contains(
            method_of(rec, j),
        ),
    decreases t,
{
    if t > 0 {
        lemma_methods_upto(rec, t - 1);
        let prev = methods_upto(rec, t - 1);
        let cur = methods_upto(rec, t);
        assert forall|j: int| 0 <= j < t && !rec.fields@[j].skip implies #[trigger] cur.contains(
            method_of(rec, j),
        ) by {
            if j < t - 1 {
                assert(prev.contains(method_of(rec, j)));
                let k = choose|k: int| 0 <= k < prev.len() && prev[k] == method_of(rec, j);
                assert(cur[k] == prev[k]);
            } else {
                assert(cur[prev.len() as int] == method_of(rec, j));
            }
        }
        assert forall|k: int| 0 <= k < cur.len() implies {
            let m = #[trigger] cur[k];
            &&& 0 <= m.field < t
            &&& !rec.fields@[m.field].skip
            &&& m == method_of(rec, m.field)
        } by {
            if k < prev.len() {
                assert(cur[k] == prev[k]);
            }
        }
    }
}

/// The names renamed among the first `t` parameters are those of the parameters renamed.
proof fn lemma_renamed_upto(rec: RecordDesc, i: int, t: int, name: Seq<char>)
    requires
        0 <= t <= rec.type_params@.len(),
    ensures
        renamed_upto(rec, i, t).contains(name) <==> exists|x: int|
            0 <= x < t && #[trigger] renames(rec, i, x) && rec.type_params@[x].name@ == name,
    decreases t,
{
    if t > 0 {
        lemma_renamed_upto(rec, i, t - 1, name);
        let prev = renamed_upto(rec, i, t - 1);
        let cur = renamed_upto(rec, i, t);
        if renamed_upto(rec, i, t).contains(name) {
            let k = choose|k: int| 0 <= k < cur.len() && cur[k] == name;
            if k < prev.len() {
                assert(prev[k] == cur[k]);
                assert(prev.contains(name));
            } else {
                assert(renames(rec, i, t - 1));
            }
        }
        if exists|x: int| 0 <= x < t && #[trigger] renames(rec, i, x) && rec.type_params@[x].name@ == name {
            let x = choose|x: int| 0 <= x < t && #[trigger] renames(rec, i, x) && rec.type_params@[x].name@ == name;
            if x < t - 1 {
                assert(prev.contains(name));
                let k = choose|k: int| 0 <= k < prev.len() && prev[k] == name;
                assert(cur[k] == prev[k]);
            } else {
                assert(cur[prev.len() as int] == name);
            }
        }
    }
}

/// A setter is made for every field that is not skipped.
proof fn lemma_setter_made(rec: RecordDesc, i: int)
    requires
        0 <= i < rec.fields@.len(),
        !rec.fields@[i].skip,
    ensures
        methods_of(rec).contains(method_of(rec, i)),
{
    lemma_methods_upto(rec, rec.fields@.len() as int);
}

/// A record without type parameters gives every field that is not skipped, not converting
/// and not unwrapped from an owner-wrapper a setter that takes the field's declared type and
/// assigns it, copying every other field from `self`.
pub proof fn plain_setter_sets_one_field(rec: RecordDesc, i: int)
    requires
        rec.type_params@.len() == 0,
        0 <= i < rec.fields@.len(),
        !rec.fields@[i].skip,
        !rec.fields@[i].into,
        rec.fields@[i].keep_outer || wrapped_inner(rec.fields@[i].ty) is None,
    ensures
        methods_of(rec).contains(method_of(rec, i)),
        method_of(rec, i).name == rec.fields@[i].name@,
        method_of(rec, i).arg == ArgV::Plain(toks_view(rec.fields@[i].ty.tokens@)),
        method_of(rec, i).copy_rest == (rec.fields@.len() > 1),
{
    lemma_setter_made(rec, i);
}

/// A converting setter of an optional field that does not change the record's
/// instantiation takes anything convertible into an optional value whose present value
/// converts into the inner type.
pub proof fn optional_setter_converts_inner(rec: RecordDesc, i: int)
    requires
        0 <= i < rec.fields@.len(),
        !rec.fields@[i].skip,
        rec.fields@[i].into,
        !generic_field(rec, i),
        optional_inner(rec.fields@[i].ty) is Some,
    ensures
        methods_of(rec).contains(method_of(rec, i)),
        method_of(rec, i).arg == ArgV::OptionInto(
            toks_view(optional_inner(rec.fields@[i].ty)->0.tokens@),
        ),
{
    lemma_setter_made(rec, i);
}

/// An owner-wrapped field that does not change the record's instantiation is set with its
/// inner type (or some value implementing the inner trait object's bounds) and wrapped on
/// assignment; kept as it is, it is set with the wrapped type and nothing is wrapped.
pub proof fn wrapped_setter_takes_inner(rec: RecordDesc, i: int)
    requires
        0 <= i < rec.fields@.len(),
        !rec.fields@[i].skip,
        !rec.fields@[i].into,
        !generic_field(rec, i),
        wrapped_inner(rec.fields@[i].ty) is Some,
    ensures
        methods_of(rec).contains(method_of(rec, i)),
        ({
            let (w, a) = wrapped_inner(rec.fields@[i].ty)->0;
            if rec.fields@[i].keep_outer {
                method_of(rec, i).arg == ArgV::Plain(toks_view(rec.fields@[i].ty.tokens@))
            } else {
                match a.dyn_bounds {
                    Some(b) => method_of(rec, i).arg == ArgV::WrapImpl(w, toks_view(b@)),
                    None => method_of(rec, i).arg == ArgV::Wrap(w, toks_view(a.tokens@)),
                }
            }
        }),
{
    lemma_setter_made(rec, i);
}

/// Setting a field whose type mentions type parameter `s` re-instantiates the record: `s`
/// and every parameter that `s` depends on, directly or through others, get fresh names in the
/// setter's parameters, its argument type, the result's generic arguments and the
/// where-clause alike; a parameter that no mentioned parameter leads to keeps its name; every
/// other field is carried over.
pub proof fn retyping_renames_dependents(rec: RecordDesc, i: int, s: int, t: int)
    requires
        0 <= i < rec.fields@.len(),
        !rec.fields@[i].skip,
        !rec.fields@[i].into,
        !rec.fields@[i].keep_type,
        0 <= s < rec.type_params@.len(),
        0 <= t < rec.type_params@.len(),
        mentions(rec, i, s),
        forall|x: int, y: int|
            0 <= x < y < rec.type_params@.len() ==> rec.type_params@[x].name@ != rec.type_params@[y].name@,
    ensures
        methods_of(rec).contains(method_of(rec, i)),
        method_of(rec, i).arg == ArgV::Retype(retyped_of(rec, i)),
        renamed_names(rec, i).contains(rec.type_params@[s].name@),
        reach(direct_deps(rec), s, t) ==> renamed_names(rec, i).contains(rec.type_params@[t].name@),
        !renames(rec, i, t) ==> !renamed_names(rec, i).contains(rec.type_params@[t].name@),
        retyped_of(rec, i).fresh.contains(fresh_of(rec.type_params@[s].name@)),
        retyped_of(rec, i).others == others_of(rec, i),
{
    lemma_setter_made(rec, i);
    assert(generic_field(rec, i));
    let n = rec.type_params@.len() as int;
    assert(renames(rec, i, s));
    lemma_renamed_upto(rec, i, n, rec.type_params@[s].name@);
    lemma_renamed_upto(rec, i, n, rec.type_params@[t].name@);
    if reach(direct_deps(rec), s, t) {
        assert(renames(rec, i, t));
    }
    let names = renamed_names(rec, i);
    let k = choose|k: int| 0 <= k < names.len() && names[k] == rec.type_params@[s].name@;
    assert(retyped_of(rec, i).fresh[k] == fresh_of(rec.type_params@[s].name@));
}

/// No setter is made for a skipped field, whatever its other options; when field names are
/// distinct, no setter carries its name.
pub proof fn skipped_field_has_no_setter(rec: RecordDesc, i: int)
    requires
        0 <= i < rec.fields@.len(),
        rec.fields@[i].skip,
        forall|x: int, y: int|
            0 <= x < y < rec.fields@.len() ==> rec.fields@[x].name@ != rec.fields@[y].name@,
    ensures
        forall|k: int| 0 <= k < methods_of(rec).len() ==> (#[trigger] methods_of(rec)[k]).field != i
            && methods_of(rec)[k].name != rec.fields@[i].name@,
{
    lemma_methods_upto(rec, rec.fields@.len() as int);
    assert forall|k: int| 0 <= k < methods_of(rec).len() implies (#[trigger] methods_of(rec)[k]).field != i
        && methods_of(rec)[k].name != rec.fields@[i].name@ by {
        let m = methods_of(rec)[k];
        assert(m == method_of(rec, m.field));
        if m.field < i {
            assert(rec.fields@[m.field].name@ != rec.fields@[i].name@);
        } else if m.field > i {
            assert(rec.fields@[i].name@ != rec.fields@[m.field].name@);
        }
    }
}

/// When the bound of `a` mentions `b` and the bound of `b` mentions `c`, setting a field whose
/// type mentions `a` renames `a`, `b` and `c` together.
pub proof fn dependency_chain_renamed(rec: RecordDesc, i: int, a: int, b: int, c: int)
    requires
        0 <= i < rec.fields@.len(),
        0 <= a < rec.type_params@.len(),
        0 <= b < rec.type_params@.len(),
        0 <= c < rec.type_params@.len(),
        contains_sym(rec.type_params@[a].bounds@, rec.type_params@[b].name@),
        contains_sym(rec.type_params@[b].bounds@, rec.type_params@[c].name@),
        mentions(rec, i, a),
    ensures
        renamed_names(rec, i).contains(rec.type_params@[a].name@),
        renamed_names(rec, i).contains(rec.type_params@[b].name@),
        renamed_names(rec, i).contains(rec.type_params@[c].name@),
{
    let m = direct_deps(rec);
    let n = rec.type_params@.len() as int;
    assert(direct_dep(rec, a, b) && direct_dep(rec, b, c));
    assert(m[a][b] && m[b][c]);
    let ab = seq![a, b];
    assert(is_walk(m, ab));
    let abc = seq![a, b, c];
    assert(is_walk(m, abc));
    assert(renames(rec, i, a));
    assert(renames(rec, i, b));
    assert(renames(rec, i, c));
    lemma_renamed_upto(rec, i, n, rec.type_params@[a].name@);
    lemma_renamed_upto(rec, i, n, rec.type_params@[b].name@);
    lemma_renamed_upto(rec, i, n, rec.type_params@[c].name@);
}

/// Synthesis is a function of the record alone: two runs on the same record give the same
/// setters and the same tokens, and the dependency closure they rest on is unique.
pub proof fn synthesis_is_deterministic(
    rec: RecordDesc,
    r1: Seq<Method>,
    r2: Seq<Method>,
    t1: Seq<Tok>,
    t2: Seq<Tok>,
    c1: Seq<Seq<bool>>,
    c2: Seq<Seq<bool>>,
)
    requires
        methods_view(r1) == methods_of(rec),
        methods_view(r2) == methods_of(rec),
        toks_view(t1) == impl_toks(rec, methods_view(r1)),
        toks_view(t2) == impl_toks(rec, methods_view(r2)),
        closure_of(direct_deps(rec), c1),
        closure_of(direct_deps(rec), c2),
    ensures
        methods_view(r1) == methods_view(r2),
        toks_view(t1) == toks_view(t2),
        c1 == c2,
{
    let n = rec.type_params@.len() as int;
    assert forall|x: int| 0 <= x < n implies c1[x] == c2[x] by {
        assert(c1[x] =~= c2[x]);
    }
    assert(c1 =~= c2);
}

} // verus!

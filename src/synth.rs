use vstd::prelude::*;
use crate::tokens::{
    Tok, TokV, toks_view, names_view, contains_sym, fresh_of, fresh_name, has_sym, rename_tok,
    rename_all, copy_toks,
};
use crate::graph::{mview, closure_of, reach};
use crate::model::{RecordDesc, direct_deps, dependencies};
use crate::shape::{
    Wrapper, optional_inner, wrapped_inner, is_marker, optional_arg, wrapped_arg, marker_type,
};

verus! {

/// A field that a re-instantiating setter carries over from `self`.
#[derive(Debug, PartialEq, Eq)]
pub struct OtherField {
    pub name: String,
    /// The field is a zero-sized marker and is made afresh instead of copied.
    pub marker: bool,
}

/// A setter that re-instantiates the record at fresh type parameters.
#[derive(Debug, PartialEq, Eq)]
pub struct Retyped {
    /// The setter's own type parameters, one fresh name per renamed record parameter.
    pub fresh: Vec<String>,
    /// The type of the setter's argument: the field's type, renamed.
    pub value_ty: Vec<Tok>,
    /// The record's generic argument list, renamed: the instantiation of the result.
    pub args: Vec<Tok>,
    /// The record's where-clause, renamed.
    pub where_clause: Option<Vec<Tok>>,
    /// The record's other fields, in declaration order.
    pub others: Vec<OtherField>,
}

/// What a setter takes and how it assigns the field.
#[derive(Debug, PartialEq, Eq)]
pub enum SetterArg {
    /// Takes the field's type and assigns it as it is.
    Plain(Vec<Tok>),
    /// Takes anything convertible into the field's type, converted on assignment.
    Into(Vec<Tok>),
    /// Takes anything convertible into an optional `V`, where `V` converts into this inner
    /// type; a present value is converted.
    OptionInto(Vec<Tok>),
    /// Takes the inner type and wraps it in the owner-wrapper.
    Wrap(Wrapper, Vec<Tok>),
    /// Takes some value implementing these bounds, with no borrowed data, and wraps it.
    WrapImpl(Wrapper, Vec<Tok>),
    /// Re-instantiates the record.
    Retype(Retyped),
    /// The field asks for conversion although its type mentions a type parameter: no setter,
    /// an error located at the field instead.
    Conflict,
}

/// One generated setter, named after its field.
#[derive(Debug, PartialEq, Eq)]
pub struct Method {
    /// The index of the field that the setter sets.
    pub field: usize,
    pub name: String,
    /// The field's attributes, carried over.
    pub attrs: Vec<Tok>,
    pub arg: SetterArg,
    /// The other fields are copied from `self` with a rest expression (the record has more
    /// than one field).
    pub copy_rest: bool,
}

/// The mathematical value of a re-instantiating setter.
pub ghost struct RetypedV {
    pub fresh: Seq<Seq<char>>,
    pub value_ty: Seq<TokV>,
    pub args: Seq<TokV>,
    pub where_clause: Option<Seq<TokV>>,
    pub others: Seq<(Seq<char>, bool)>,
}

/// The mathematical value of what a setter takes.
pub ghost enum ArgV {
    Plain(Seq<TokV>),
    Into(Seq<TokV>),
    OptionInto(Seq<TokV>),
    Wrap(Wrapper, Seq<TokV>),
    WrapImpl(Wrapper, Seq<TokV>),
    Retype(RetypedV),
    Conflict,
}

/// The mathematical value of a setter.
pub ghost struct MethodV {
    pub field: int,
    pub name: Seq<char>,
    pub attrs: Seq<TokV>,
    pub arg: ArgV,
    pub copy_rest: bool,
}

/// The value of an optional token sequence.
pub open spec fn opt_toks_view(o: Option<Vec<Tok>>) -> Option<Seq<TokV>> {
    match o {
        Some(v) => Some(toks_view(v@)),
        None => None,
    }
}

impl View for OtherField {
    type V = (Seq<char>, bool);

    open spec fn view(&self) -> (Seq<char>, bool) {
        (self.name@, self.marker)
    }
}

impl View for Retyped {
    type V = RetypedV;

    open spec fn view(&self) -> RetypedV {
        RetypedV {
            fresh: names_view(self.fresh@),
            value_ty: toks_view(self.value_ty@),
            args: toks_view(self.args@),
            where_clause: opt_toks_view(self.where_clause),
            others: self.others@.map_values(|o: OtherField| o@),
        }
    }
}

impl View for SetterArg {
    type V = ArgV;

    open spec fn view(&self) -> ArgV {
        match self {
            SetterArg::Plain(t) => ArgV::Plain(toks_view(t@)),
            SetterArg::Into(t) => ArgV::Into(toks_view(t@)),
            SetterArg::OptionInto(t) => ArgV::OptionInto(toks_view(t@)),
            SetterArg::Wrap(w, t) => ArgV::Wrap(*w, toks_view(t@)),
            SetterArg::WrapImpl(w, t) => ArgV::WrapImpl(*w, toks_view(t@)),
            SetterArg::Retype(r) => ArgV::Retype(r@),
            SetterArg::Conflict => ArgV::Conflict,
        }
    }
}

impl View for Method {
    type V = MethodV;

    open spec fn view(&self) -> MethodV {
        MethodV {
            field: self.field as int,
            name: self.name@,
            attrs: toks_view(self.attrs@),
            arg: self.arg@,
            copy_rest: self.copy_rest,
        }
    }
}

/// The values of a sequence of setters.
pub open spec fn methods_view(s: Seq<Method>) -> Seq<MethodV> {
    s.map_values(|m: Method| m@)
}

/// The type of field `i` mentions type parameter `s`.
pub open spec fn mentions(rec: RecordDesc, i: int, s: int) -> bool {
    contains_sym(rec.fields@[i].ty.tokens@, rec.type_params@[s].name@)
}

/// Field `i` changes the record's instantiation: its type mentions a type parameter and it is
/// not marked to keep its type.
pub open spec fn generic_field(rec: RecordDesc, i: int) -> bool {
    &&& !rec.fields@[i].keep_type
    &&& exists|s: int| 0 <= s < rec.type_params@.len() && #[trigger] mentions(rec, i, s)
}

/// Setting field `i` renames type parameter `t`: the field's type mentions `t`, or mentions a
/// parameter that depends on `t`, directly or through other parameters.
pub open spec fn renames(rec: RecordDesc, i: int, t: int) -> bool {
    exists|s: int|
        0 <= s < rec.type_params@.len() && #[trigger] mentions(rec, i, s) && (s == t || reach(
            direct_deps(rec),
            s,
            t,
        ))
}

/// The names of the first `t` type parameters that setting field `i` renames, in order.
pub open spec fn renamed_upto(rec: RecordDesc, i: int, t: int) -> Seq<Seq<char>>
    decreases t,
{
    if t <= 0 {
        Seq::empty()
    } else {
        renamed_upto(rec, i, t - 1) + if renames(rec, i, t - 1) {
            seq![rec.type_params@[t - 1].name@]
        } else {
            Seq::empty()
        }
    }
}

/// The names of the type parameters that setting field `i` renames, in order.
pub open spec fn renamed_names(rec: RecordDesc, i: int) -> Seq<Seq<char>> {
    renamed_upto(rec, i, rec.type_params@.len() as int)
}

/// `s` with every identifier in `names` replaced by its fresh name.
pub open spec fn rename_seq(s: Seq<Tok>, names: Seq<Seq<char>>) -> Seq<TokV> {
    Seq::new(s.len(), |k: int| rename_tok(s[k]@, names))
}

/// The index of the `k`-th field other than field `i`.
pub open spec fn other_index(i: int, k: int) -> int {
    if k < i {
        k
    } else {
        k + 1
    }
}

/// The fields other than field `i`, in order, each with whether it is a marker.
pub open spec fn others_of(rec: RecordDesc, i: int) -> Seq<(Seq<char>, bool)> {
    Seq::new(
        (rec.fields@.len() - 1) as nat,
        |k: int|
            (
                rec.fields@[other_index(i, k)].name@,
                is_marker(rec.fields@[other_index(i, k)].ty),
            ),
    )
}

/// The re-instantiating setter of field `i`.
pub open spec fn retyped_of(rec: RecordDesc, i: int) -> RetypedV {
    let names = renamed_names(rec, i);
    RetypedV {
        fresh: names.map_values(|n: Seq<char>| fresh_of(n)),
        value_ty: rename_seq(rec.fields@[i].ty.tokens@, names),
        args: rename_seq(rec.args@, names),
        where_clause: match rec.where_clause {
            Some(w) => Some(rename_seq(w@, names)),
            None => None,
        },
        others: others_of(rec, i),
    }
}

/// What the setter of field `i` takes. A field whose type mentions a type parameter comes
/// first; then conversion, into an optional inner type where the type is optional; then an
/// owner-wrapper, unless it is to be kept; else the declared type.
pub open spec fn arg_of(rec: RecordDesc, i: int) -> ArgV {
    let f = rec.fields@[i];
    if generic_field(rec, i) {
        if f.into {
            ArgV::Conflict
        } else {
            ArgV::Retype(retyped_of(rec, i))
        }
    } else if f.into {
        match optional_inner(f.ty) {
            Some(a) => ArgV::OptionInto(toks_view(a.tokens@)),
            None => ArgV::Into(toks_view(f.ty.tokens@)),
        }
    } else if !f.keep_outer && wrapped_inner(f.ty) is Some {
        let (w, a) = wrapped_inner(f.ty)->0;
        match a.dyn_bounds {
            Some(b) => ArgV::WrapImpl(w, toks_view(b@)),
            None => ArgV::Wrap(w, toks_view(a.tokens@)),
        }
    } else {
        ArgV::Plain(toks_view(f.ty.tokens@))
    }
}

/// The setter of field `i`.
pub open spec fn method_of(rec: RecordDesc, i: int) -> MethodV {
    MethodV {
        field: i,
        name: rec.fields@[i].name@,
        attrs: toks_view(rec.fields@[i].attrs@),
        arg: arg_of(rec, i),
        copy_rest: rec.fields@.len() != 1,
    }
}

/// The setters of the first `i` fields, skipped fields left out.
pub open spec fn methods_upto(rec: RecordDesc, i: int) -> Seq<MethodV>
    decreases i,
{
    if i <= 0 {
        Seq::empty()
    } else {
        methods_upto(rec, i - 1) + if rec.fields@[i - 1].skip {
            Seq::empty()
        } else {
            seq![method_of(rec, i - 1)]
        }
    }
}

/// The setters of a record, in field order.
pub open spec fn methods_of(rec: RecordDesc) -> Seq<MethodV> {
    methods_upto(rec, rec.fields@.len() as int)
}

/// Whether the type of field `i` mentions a type parameter.
fn mentions_param(rec: &RecordDesc, i: usize) -> (r: bool)
    requires
        i < rec.fields@.len(),
    ensures
        r == exists|s: int| 0 <= s < rec.type_params@.len() && #[trigger] mentions(*rec, i as int, s),
{
    let ty = &rec.fields[i].ty.tokens;
    let mut s: usize = 0;
    while s < rec.type_params.len()
        invariant
            i < rec.fields@.len(),
            *ty == rec.fields@[i as int].ty.tokens,
            s <= rec.type_params@.len(),
            forall|x: int| 0 <= x < s ==> !#[trigger] mentions(*rec, i as int, x),
        decreases rec.type_params@.len() - s,
    {
        if has_sym(ty, &rec.type_params[s].name) {
            assert(mentions(*rec, i as int, s as int));
            return true;
        }
        s = s + 1;
    }
    false
}

/// The names of the type parameters that setting field `i` renames, in parameter order.
fn renamed_list(rec: &RecordDesc, deps: &Vec<Vec<bool>>, i: usize) -> (r: Vec<String>)
    requires
        i < rec.fields@.len(),
        closure_of(direct_deps(*rec), mview(deps@)),
    ensures
        names_view(r@) == renamed_names(*rec, i as int),
{
    let n = rec.type_params.len();
    let ty = &rec.fields[i].ty.tokens;
    let ghost m = direct_deps(*rec);
    let mut r: Vec<String> = Vec::new();
    let mut t: usize = 0;
    while t < n
        invariant
            n == rec.type_params@.len(),
            m == direct_deps(*rec),
            m.len() == n,
            i < rec.fields@.len(),
            *ty == rec.fields@[i as int].ty.tokens,
            closure_of(m, mview(deps@)),
            t <= n,
            names_view(r@) == renamed_upto(*rec, i as int, t as int),
        decreases n - t,
    {
        let mut found = false;
        let mut s: usize = 0;
        while s < n && !found
            invariant
                n == rec.type_params@.len(),
                m == direct_deps(*rec),
                m.len() == n,
                i < rec.fields@.len(),
                *ty == rec.fields@[i as int].ty.tokens,
                closure_of(m, mview(deps@)),
                t < n,
                s <= n,
                found ==> renames(*rec, i as int, t as int),
                !found ==> forall|x: int|
                    0 <= x < s ==> !(#[trigger] mentions(*rec, i as int, x) && (x == t || reach(m, x, t as int))),
            decreases n - s,
        {
            assert(mview(deps@)[s as int] == deps@[s as int]@);
            if has_sym(ty, &rec.type_params[s].name) && (s == t || deps[s][t]) {
                assert(mentions(*rec, i as int, s as int));
                found = true;
            }
            s = s + 1;
        }
        let ghost before = r@;
        if found {
            r.push(rec.type_params[t].name.clone());
        }
        proof {
            if found {
                assert(names_view(r@) =~= names_view(before) + seq![rec.type_params@[t as int].name@]);
            } else {
                assert(!renames(*rec, i as int, t as int));
                assert(names_view(r@) =~= names_view(before) + Seq::<Seq<char>>::empty());
            }
        }
        t = t + 1;
    }
    r
}

/// The fresh names of `names`, in the same order.
fn fresh_list(names: &Vec<String>) -> (r: Vec<String>)
    ensures
        names_view(r@) == names_view(names@).map_values(|n: Seq<char>| fresh_of(n)),
{
    let mut r: Vec<String> = Vec::new();
    let mut k: usize = 0;
    while k < names.len()
        invariant
            k <= names@.len(),
            r@.len() == k,
            forall|x: int| 0 <= x < k ==> (#[trigger] r@[x])@ == fresh_of(names@[x]@),
        decreases names@.len() - k,
    {
        r.push(fresh_name(&names[k]));
        k = k + 1;
    }
    assert(names_view(r@) =~= names_view(names@).map_values(|n: Seq<char>| fresh_of(n)));
    r
}

/// `s` with every identifier in `names` replaced by its fresh name.
fn renamed_toks(s: &Vec<Tok>, names: &Vec<String>) -> (r: Vec<Tok>)
    ensures
        toks_view(r@) == rename_seq(s@, names_view(names@)),
{
    let r = rename_all(s, names);
    assert(toks_view(r@) =~= rename_seq(s@, names_view(names@)));
    r
}

/// The fields other than field `i`, in order.
fn other_fields(rec: &RecordDesc, i: usize) -> (r: Vec<OtherField>)
    requires
        i < rec.fields@.len(),
    ensures
        r@.map_values(|o: OtherField| o@) == others_of(*rec, i as int),
{
    let mut r: Vec<OtherField> = Vec::new();
    let mut k: usize = 0;
    while k < rec.fields.len()
        invariant
            i < rec.fields@.len(),
            k <= rec.fields@.len(),
            r@.len() == if k <= i { k as int } else { k - 1 },
            forall|x: int| 0 <= x < r@.len() ==> (#[trigger] r@[x])@ == others_of(*rec, i as int)[x],
        decreases rec.fields@.len() - k,
    {
        if k != i {
            let f = &rec.fields[k];
            r.push(OtherField { name: f.name.clone(), marker: marker_type(&f.ty) });
        }
        k = k + 1;
    }
    assert(r@.map_values(|o: OtherField| o@) =~= others_of(*rec, i as int));
    r
}

/// The re-instantiating setter of field `i`.
fn retyped(rec: &RecordDesc, deps: &Vec<Vec<bool>>, i: usize) -> (r: Retyped)
    requires
        i < rec.fields@.len(),
        closure_of(direct_deps(*rec), mview(deps@)),
    ensures
        r@ == retyped_of(*rec, i as int),
{
    let names = renamed_list(rec, deps, i);
    let where_clause = match &rec.where_clause {
        Some(w) => Some(renamed_toks(w, &names)),
        None => None,
    };
    let r = Retyped {
        fresh: fresh_list(&names),
        value_ty: renamed_toks(&rec.fields[i].ty.tokens, &names),
        args: renamed_toks(&rec.args, &names),
        where_clause,
        others: other_fields(rec, i),
    };
    assert(r@ =~= retyped_of(*rec, i as int));
    r
}

/// What the setter of field `i` takes.
fn setter_arg(rec: &RecordDesc, deps: &Vec<Vec<bool>>, i: usize) -> (r: SetterArg)
    requires
        i < rec.fields@.len(),
        closure_of(direct_deps(*rec), mview(deps@)),
    ensures
        r@ == arg_of(*rec, i as int),
{
    let f = &rec.fields[i];
    if !f.keep_type && mentions_param(rec, i) {
        if f.into {
            SetterArg::Conflict
        } else {
            SetterArg::Retype(retyped(rec, deps, i))
        }
    } else if f.into {
        match optional_arg(&f.ty) {
            Some(a) => SetterArg::OptionInto(copy_toks(&a.tokens)),
            None => SetterArg::Into(copy_toks(&f.ty.tokens)),
        }
    } else {
        let w = if f.keep_outer {
            None
        } else {
            wrapped_arg(&f.ty)
        };
        match w {
            Some((w, a)) => match &a.dyn_bounds {
                Some(b) => SetterArg::WrapImpl(w, copy_toks(b)),
                None => SetterArg::Wrap(w, copy_toks(&a.tokens)),
            },
            None => SetterArg::Plain(copy_toks(&f.ty.tokens)),
        }
    }
}

/// The setter of field `i`.
fn method(rec: &RecordDesc, deps: &Vec<Vec<bool>>, i: usize) -> (r: Method)
    requires
        i < rec.fields@.len(),
        closure_of(direct_deps(*rec), mview(deps@)),
    ensures
        r@ == method_of(*rec, i as int),
{
    let f = &rec.fields[i];
    Method {
        field: i,
        name: f.name.clone(),
        attrs: copy_toks(&f.attrs),
        arg: setter_arg(rec, deps, i),
        copy_rest: rec.fields.len() != 1,
    }
}

/// The setters of a record, one per field not marked to be skipped, in field order. The
/// record's type parameters are resolved once, then each field is classified and its setter
/// made on its own; a field that asks for conversion of a type that mentions a type parameter
/// yields a conflict in its place, and the other setters are still made.
pub fn synthesize(rec: &RecordDesc) -> (r: Vec<Method>)
    ensures
        methods_view(r@) == methods_of(*rec),
{
    let deps = dependencies(rec);
    let mut r: Vec<Method> = Vec::new();
    let mut i: usize = 0;
    while i < rec.fields.len()
        invariant
            i <= rec.fields@.len(),
            closure_of(direct_deps(*rec), mview(deps@)),
            methods_view(r@) == methods_upto(*rec, i as int),
        decreases rec.fields@.len() - i,
    {
        let ghost before = r@;
        if !rec.fields[i].skip {
            r.push(method(rec, &deps, i));
            assert(methods_view(r@) =~= methods_view(before) + seq![method_of(*rec, i as int)]);
        } else {
            assert(methods_view(r@) =~= methods_view(before) + Seq::<MethodV>::empty());
        }
        i = i + 1;
    }
    r
}

/// The fields of the first `k` setters that are conflicts, in order.
pub open spec fn conflicts_upto(ms: Seq<MethodV>, k: int) -> Seq<int>
    decreases k,
{
    if k <= 0 {
        Seq::empty()
    } else {
        conflicts_upto(ms, k - 1) + if ms[k - 1].arg is Conflict {
            seq![ms[k - 1].field]
        } else {
            Seq::empty()
        }
    }
}

/// The fields whose setters are conflicts, in order: each is to be reported at its field.
pub fn conflicting_fields(methods: &Vec<Method>) -> (r: Vec<usize>)
    ensures
        r@.map_values(|x: usize| x as int) == conflicts_upto(methods_view(methods@), methods@.len() as int),
{
    let ghost mv = methods_view(methods@);
    let mut r: Vec<usize> = Vec::new();
    let mut k: usize = 0;
    while k < methods.len()
        invariant
            k <= methods@.len(),
            mv == methods_view(methods@),
            r@.map_values(|x: usize| x as int) == conflicts_upto(mv, k as int),
        decreases methods@.len() - k,
    {
        let ghost before = r@;
        if let SetterArg::Conflict = &methods[k].arg {
            r.push(methods[k].field);
            assert(r@.map_values(|x: usize| x as int) =~= before.map_values(|x: usize| x as int) + seq![mv[k as int].field]);
        } else {
            assert(r@.map_values(|x: usize| x as int) =~= before.map_values(|x: usize| x as int) + Seq::<int>::empty());
        }
        k = k + 1;
    }
    r
}

} // verus!

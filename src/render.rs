use vstd::prelude::*;
use crate::tokens::{Delim, Tok, TokV, toks_view, names_view};
use crate::model::RecordDesc;
use crate::shape::Wrapper;
use crate::synth::{OtherField, Retyped, SetterArg, Method, RetypedV, ArgV, MethodV, methods_view};

verus! {

/// An identifier.
pub open spec fn idt(s: Seq<char>) -> TokV {
    TokV::Ident(s)
}

/// A punctuation character standing alone.
pub open spec fn pc(c: char) -> TokV {
    TokV::Punct(c, false)
}

/// A punctuation character joined to the next one.
pub open spec fn pj(c: char) -> TokV {
    TokV::Punct(c, true)
}

/// `inner` between the delimiters `d`.
pub open spec fn grouped(d: Delim, inner: Seq<TokV>) -> Seq<TokV> {
    seq![TokV::Open(d)] + inner + seq![TokV::Close(d)]
}

/// `..self`, when the other fields are to be copied.
pub open spec fn rest_toks(copy_rest: bool) -> Seq<TokV> {
    if copy_rest {
        seq![pj('.'), pc('.'), idt("self"@)]
    } else {
        Seq::empty()
    }
}

/// `pub fn name`
pub open spec fn head_toks(name: Seq<char>) -> Seq<TokV> {
    seq![idt("pub"@), idt("fn"@), idt(name)]
}

/// `(self, value: ty)`
pub open spec fn params_toks(ty: Seq<TokV>) -> Seq<TokV> {
    grouped(Delim::Paren, seq![idt("self"@), pc(','), idt("value"@), pc(':')] + ty)
}

/// `-> Self`
pub open spec fn returns_self() -> Seq<TokV> {
    seq![pj('-'), pc('>'), idt("Self"@)]
}

/// `{ Self { name: value, ..self } }`
pub open spec fn assign_toks(name: Seq<char>, value: Seq<TokV>, copy_rest: bool) -> Seq<TokV> {
    grouped(
        Delim::Brace,
        seq![idt("Self"@)] + grouped(
            Delim::Brace,
            seq![idt(name), pc(':')] + value + seq![pc(',')] + rest_toks(copy_rest),
        ),
    )
}

/// `.into()`
pub open spec fn into_call() -> Seq<TokV> {
    seq![pc('.'), idt("into"@), TokV::Open(Delim::Paren), TokV::Close(Delim::Paren)]
}

/// `impl Into<ty>`
pub open spec fn impl_into(ty: Seq<TokV>) -> Seq<TokV> {
    seq![idt("impl"@), idt("Into"@), pc('<')] + ty + seq![pc('>')]
}

/// `value.into().map(|v| v.into())`
pub open spec fn option_value() -> Seq<TokV> {
    seq![idt("value"@)] + into_call() + seq![pc('.'), idt("map"@)] + grouped(
        Delim::Paren,
        seq![pc('|'), idt("v"@), pc('|'), idt("v"@)] + into_call(),
    )
}

/// `<OptionInnerType>`
pub open spec fn option_generic() -> Seq<TokV> {
    seq![pc('<'), idt("OptionInnerType"@), pc('>')]
}

/// `impl Into<Option<OptionInnerType>>`
pub open spec fn option_param() -> Seq<TokV> {
    impl_into(seq![idt("Option"@), pc('<'), idt("OptionInnerType"@), pc('>')])
}

/// `where OptionInnerType: Into<inner>`
pub open spec fn option_where(inner: Seq<TokV>) -> Seq<TokV> {
    seq![idt("where"@), idt("OptionInnerType"@), pc(':'), idt("Into"@), pc('<')] + inner + seq![pc('>')]
}

/// The name of an owner-wrapper's type.
pub open spec fn wrapper_text(w: Wrapper) -> Seq<char> {
    match w {
        Wrapper::Boxed => "Box"@,
        Wrapper::RefCounted => "Rc"@,
        Wrapper::AtomicRefCounted => "Arc"@,
    }
}

/// `W::new(value)`
pub open spec fn wrap_value(w: Wrapper) -> Seq<TokV> {
    seq![idt(wrapper_text(w)), pj(':'), pc(':'), idt("new"@)] + grouped(Delim::Paren, seq![idt("value"@)])
}

/// `impl bounds + 'static`
pub open spec fn impl_bounds(b: Seq<TokV>) -> Seq<TokV> {
    seq![idt("impl"@)] + b + seq![pc('+'), pj('\''), idt("static"@)]
}

/// `#[allow(non_camel_case_types)]`
pub open spec fn allow_names() -> Seq<TokV> {
    seq![pc('#')] + grouped(
        Delim::Bracket,
        seq![idt("allow"@)] + grouped(Delim::Paren, seq![idt("non_camel_case_types"@)]),
    )
}

/// The names, each followed by a comma.
pub open spec fn name_list(names: Seq<Seq<char>>) -> Seq<TokV>
    decreases names.len(),
{
    if names.len() == 0 {
        Seq::empty()
    } else {
        name_list(names.drop_last()) + seq![idt(names.last()), pc(',')]
    }
}

/// `name: self.name,` or, for a marker, `name: std::marker::PhantomData,`.
pub open spec fn other_toks(o: (Seq<char>, bool)) -> Seq<TokV> {
    seq![idt(o.0), pc(':')] + if o.1 {
        seq![idt("std"@), pj(':'), pc(':'), idt("marker"@), pj(':'), pc(':'), idt("PhantomData"@)]
    } else {
        seq![idt("self"@), pc('.'), idt(o.0)]
    } + seq![pc(',')]
}

/// The carried-over fields, in order.
pub open spec fn others_toks(os: Seq<(Seq<char>, bool)>) -> Seq<TokV>
    decreases os.len(),
{
    if os.len() == 0 {
        Seq::empty()
    } else {
        others_toks(os.drop_last()) + other_toks(os.last())
    }
}

/// The tokens, if any.
pub open spec fn opt_toks(o: Option<Seq<TokV>>) -> Seq<TokV> {
    match o {
        Some(t) => t,
        None => Seq::empty(),
    }
}

/// `rec<args>`
pub open spec fn instance(rec: Seq<char>, args: Seq<TokV>) -> Seq<TokV> {
    seq![idt(rec), pc('<')] + args + seq![pc('>')]
}

/// The signature of a re-instantiating setter, attributes first:
/// `#[allow(non_camel_case_types)] pub fn name<fresh,>(self, value: ty) -> rec<args> where-clause`.
pub open spec fn retype_sig(rec: Seq<char>, name: Seq<char>, r: RetypedV) -> Seq<TokV> {
    allow_names() + head_toks(name) + seq![pc('<')] + name_list(r.fresh) + seq![pc('>')]
        + params_toks(r.value_ty) + seq![pj('-'), pc('>')] + instance(rec, r.args) + opt_toks(
        r.where_clause,
    )
}

/// `name: value, others`
pub open spec fn retype_fields(name: Seq<char>, r: RetypedV) -> Seq<TokV> {
    seq![idt(name), pc(':'), idt("value"@), pc(',')] + others_toks(r.others)
}

/// `{ rec::<args> { fields } }`
pub open spec fn retype_body(rec: Seq<char>, name: Seq<char>, r: RetypedV) -> Seq<TokV> {
    grouped(
        Delim::Brace,
        seq![idt(rec), pj(':'), pc(':'), pc('<')] + r.args + seq![pc('>')] + grouped(
            Delim::Brace,
            retype_fields(name, r),
        ),
    )
}

/// The re-instantiating setter after its attributes.
pub open spec fn retype_toks(rec: Seq<char>, name: Seq<char>, r: RetypedV) -> Seq<TokV> {
    retype_sig(rec, name, r) + retype_body(rec, name, r)
}

/// A setter after its attributes.
pub open spec fn setter_toks(rec: Seq<char>, m: MethodV) -> Seq<TokV> {
    let n = m.name;
    let c = m.copy_rest;
    match m.arg {
        ArgV::Plain(t) => head_toks(n) + params_toks(t) + returns_self() + assign_toks(n, seq![idt("value"@)], c),
        ArgV::Into(t) => head_toks(n) + params_toks(impl_into(t)) + returns_self() + assign_toks(
            n,
            seq![idt("value"@)] + into_call(),
            c,
        ),
        ArgV::OptionInto(t) => head_toks(n) + option_generic() + params_toks(option_param())
            + returns_self() + option_where(t) + assign_toks(n, option_value(), c),
        ArgV::Wrap(w, t) => head_toks(n) + params_toks(t) + returns_self() + assign_toks(n, wrap_value(w), c),
        ArgV::WrapImpl(w, b) => head_toks(n) + params_toks(impl_bounds(b)) + returns_self() + assign_toks(
            n,
            wrap_value(w),
            c,
        ),
        ArgV::Retype(r) => retype_toks(rec, n, r),
        ArgV::Conflict => Seq::empty(),
    }
}

/// A setter with its attributes; nothing for a conflict, which is reported instead.
pub open spec fn method_toks(rec: Seq<char>, m: MethodV) -> Seq<TokV> {
    if m.arg is Conflict {
        Seq::empty()
    } else {
        m.attrs + setter_toks(rec, m)
    }
}

/// The setters, in order.
pub open spec fn methods_toks(rec: Seq<char>, ms: Seq<MethodV>) -> Seq<TokV>
    decreases ms.len(),
{
    if ms.len() == 0 {
        Seq::empty()
    } else {
        methods_toks(rec, ms.drop_last()) + method_toks(rec, ms.last())
    }
}

/// `impl<params> rec<args> where-clause { setters }`
pub open spec fn impl_toks(rec: RecordDesc, ms: Seq<MethodV>) -> Seq<TokV> {
    seq![idt("impl"@), pc('<')] + toks_view(rec.params@) + seq![pc('>')] + instance(
        rec.name@,
        toks_view(rec.args@),
    ) + opt_toks(
        match rec.where_clause {
            Some(w) => Some(toks_view(w@)),
            None => None,
        },
    ) + grouped(Delim::Brace, methods_toks(rec.name@, ms))
}

fn put(out: &mut Vec<Tok>, t: Tok)
    ensures
        toks_view(final(out)@) == toks_view(old(out)@) + seq![t@],
{
    let ghost before = out@;
    out.push(t);
    assert(toks_view(out@) =~= toks_view(before) + seq![t@]);
}

fn word(s: &str) -> (r: Tok)
    ensures
        r@ == TokV::Ident(s@),
{
    let mut n = String::new();
    n.append(s);
    assert(n@ =~= s@);
    Tok::Ident(n)
}

fn put_word(out: &mut Vec<Tok>, s: &str)
    ensures
        toks_view(final(out)@) == toks_view(old(out)@) + seq![idt(s@)],
{
    put(out, word(s));
}

fn put_name(out: &mut Vec<Tok>, s: &String)
    ensures
        toks_view(final(out)@) == toks_view(old(out)@) + seq![idt(s@)],
{
    put(out, Tok::Ident(s.clone()));
}

fn put_p(out: &mut Vec<Tok>, c: char)
    ensures
        toks_view(final(out)@) == toks_view(old(out)@) + seq![pc(c)],
{
    put(out, Tok::Punct(c, false));
}

fn put_j(out: &mut Vec<Tok>, c: char)
    ensures
        toks_view(final(out)@) == toks_view(old(out)@) + seq![pj(c)],
{
    put(out, Tok::Punct(c, true));
}

fn put_open(out: &mut Vec<Tok>, d: Delim)
    ensures
        toks_view(final(out)@) == toks_view(old(out)@) + seq![TokV::Open(d)],
{
    put(out, Tok::Open(d));
}

fn put_close(out: &mut Vec<Tok>, d: Delim)
    ensures
        toks_view(final(out)@) == toks_view(old(out)@) + seq![TokV::Close(d)],
{
    put(out, Tok::Close(d));
}

fn put_all(out: &mut Vec<Tok>, v: &Vec<Tok>)
    ensures
        toks_view(final(out)@) == toks_view(old(out)@) + toks_view(v@),
{
    let ghost before = toks_view(out@);
    let mut i: usize = 0;
    while i < v.len()
        invariant
            i <= v@.len(),
            toks_view(out@) == before + toks_view(v@.subrange(0, i as int)),
        decreases v@.len() - i,
    {
        put(out, v[i].duplicate());
        i = i + 1;
        assert(toks_view(v@.subrange(0, i as int)) =~= toks_view(v@.subrange(0, i - 1 as int)) + seq![v@[i - 1]@]);
        assert(toks_view(out@) =~= before + toks_view(v@.subrange(0, i as int)));
    }
    assert(v@.subrange(0, v@.len() as int) =~= v@);
}

fn put_opt(out: &mut Vec<Tok>, v: &Option<Vec<Tok>>)
    ensures
        toks_view(final(out)@) == toks_view(old(out)@) + opt_toks(
            match *v {
                Some(w) => Some(toks_view(w@)),
                None => None,
            },
        ),
{
    match v {
        Some(w) => put_all(out, w),
        None => {
            assert(toks_view(out@) =~= toks_view(out@) + Seq::<TokV>::empty());
        },
    }
}

fn put_rest(out: &mut Vec<Tok>, copy_rest: bool)
    ensures
        toks_view(final(out)@) == toks_view(old(out)@) + rest_toks(copy_rest),
{
    let ghost before = toks_view(out@);
    if copy_rest {
        put_j(out, '.');
        put_p(out, '.');
        put_word(out, "self");
    }
    assert(toks_view(out@) =~= before + rest_toks(copy_rest));
}

fn put_head(out: &mut Vec<Tok>, name: &String)
    ensures
        toks_view(final(out)@) == toks_view(old(out)@) + head_toks(name@),
{
    let ghost before = toks_view(out@);
    put_word(out, "pub");
    put_word(out, "fn");
    put_name(out, name);
    assert(toks_view(out@) =~= before + head_toks(name@));
}

/// `(self, value:`
fn put_params_start(out: &mut Vec<Tok>)
    ensures
        toks_view(final(out)@) == toks_view(old(out)@) + seq![TokV::Open(Delim::Paren), idt("self"@), pc(','), idt("value"@), pc(':')],
{
    let ghost before = toks_view(out@);
    put_open(out, Delim::Paren);
    put_word(out, "self");
    put_p(out, ',');
    put_word(out, "value");
    put_p(out, ':');
    assert(toks_view(out@) =~= before + seq![TokV::Open(Delim::Paren), idt("self"@), pc(','), idt("value"@), pc(':')]);
}

fn put_returns_self(out: &mut Vec<Tok>)
    ensures
        toks_view(final(out)@) == toks_view(old(out)@) + returns_self(),
{
    let ghost before = toks_view(out@);
    put_j(out, '-');
    put_p(out, '>');
    put_word(out, "Self");
    assert(toks_view(out@) =~= before + returns_self());
}

fn put_into_call(out: &mut Vec<Tok>)
    ensures
        toks_view(final(out)@) == toks_view(old(out)@) + into_call(),
{
    let ghost before = toks_view(out@);
    put_p(out, '.');
    put_word(out, "into");
    put_open(out, Delim::Paren);
    put_close(out, Delim::Paren);
    assert(toks_view(out@) =~= before + into_call());
}

/// The value assigned to the field.
enum AssignedValue {
    Value,
    Converted,
    OptionConverted,
    Wrapped(Wrapper),
}

spec fn assigned_toks(a: AssignedValue) -> Seq<TokV> {
    match a {
        AssignedValue::Value => seq![idt("value"@)],
        AssignedValue::Converted => seq![idt("value"@)] + into_call(),
        AssignedValue::OptionConverted => option_value(),
        AssignedValue::Wrapped(w) => wrap_value(w),
    }
}

fn put_assigned(out: &mut Vec<Tok>, a: &AssignedValue)
    ensures
        toks_view(final(out)@) == toks_view(old(out)@) + assigned_toks(*a),
{
    let ghost before = toks_view(out@);
    match a {
        AssignedValue::Value => {
            put_word(out, "value");
        },
        AssignedValue::Converted => {
            put_word(out, "value");
            put_into_call(out);
        },
        AssignedValue::OptionConverted => {
            put_word(out, "value");
            put_into_call(out);
            put_p(out, '.');
            put_word(out, "map");
            put_open(out, Delim::Paren);
            put_p(out, '|');
            put_word(out, "v");
            put_p(out, '|');
            put_word(out, "v");
            put_into_call(out);
            put_close(out, Delim::Paren);
        },
        AssignedValue::Wrapped(w) => {
            match w {
                Wrapper::Boxed => put_word(out, "Box"),
                Wrapper::RefCounted => put_word(out, "Rc"),
                Wrapper::AtomicRefCounted => put_word(out, "Arc"),
            }
            put_j(out, ':');
            put_p(out, ':');
            put_word(out, "new");
            put_open(out, Delim::Paren);
            put_word(out, "value");
            put_close(out, Delim::Paren);
        },
    }
    assert(toks_view(out@) =~= before + assigned_toks(*a));
}

fn put_assign(out: &mut Vec<Tok>, name: &String, a: &AssignedValue, copy_rest: bool)
    ensures
        toks_view(final(out)@) == toks_view(old(out)@) + assign_toks(name@, assigned_toks(*a), copy_rest),
{
    let ghost before = toks_view(out@);
    put_open(out, Delim::Brace);
    put_word(out, "Self");
    put_open(out, Delim::Brace);
    put_name(out, name);
    put_p(out, ':');
    put_assigned(out, a);
    put_p(out, ',');
    put_rest(out, copy_rest);
    put_close(out, Delim::Brace);
    put_close(out, Delim::Brace);
    assert(toks_view(out@) =~= before + assign_toks(name@, assigned_toks(*a), copy_rest));
}

/// `(self, value: ty)`
fn put_plain_params(out: &mut Vec<Tok>, t: &Vec<Tok>)
    ensures
        toks_view(final(out)@) == toks_view(old(out)@) + params_toks(toks_view(t@)),
{
    let ghost before = toks_view(out@);
    put_params_start(out);
    put_all(out, t);
    put_close(out, Delim::Paren);
    assert(toks_view(out@) =~= before + params_toks(toks_view(t@)));
}

fn put_into_params(out: &mut Vec<Tok>, t: &Vec<Tok>)
    ensures
        toks_view(final(out)@) == toks_view(old(out)@) + params_toks(impl_into(toks_view(t@))),
{
    let ghost before = toks_view(out@);
    put_params_start(out);
    put_word(out, "impl");
    put_word(out, "Into");
    put_p(out, '<');
    put_all(out, t);
    put_p(out, '>');
    put_close(out, Delim::Paren);
    assert(toks_view(out@) =~= before + params_toks(impl_into(toks_view(t@))));
}

fn put_option_signature(out: &mut Vec<Tok>, t: &Vec<Tok>)
    ensures
        toks_view(final(out)@) == toks_view(old(out)@) + option_generic() + params_toks(option_param())
            + returns_self() + option_where(toks_view(t@)),
{
    let ghost before = toks_view(out@);
    put_p(out, '<');
    put_word(out, "OptionInnerType");
    put_p(out, '>');
    put_params_start(out);
    put_word(out, "impl");
    put_word(out, "Into");
    put_p(out, '<');
    put_word(out, "Option");
    put_p(out, '<');
    put_word(out, "OptionInnerType");
    put_p(out, '>');
    put_p(out, '>');
    put_close(out, Delim::Paren);
    let ghost mid = toks_view(out@);
    assert(mid =~= before + option_generic() + params_toks(option_param()));
    put_returns_self(out);
    put_word(out, "where");
    put_word(out, "OptionInnerType");
    put_p(out, ':');
    put_word(out, "Into");
    put_p(out, '<');
    put_all(out, t);
    put_p(out, '>');
    assert(toks_view(out@) =~= mid + returns_self() + option_where(toks_view(t@)));
}

fn put_impl_params(out: &mut Vec<Tok>, b: &Vec<Tok>)
    ensures
        toks_view(final(out)@) == toks_view(old(out)@) + params_toks(impl_bounds(toks_view(b@))),
{
    let ghost before = toks_view(out@);
    put_params_start(out);
    put_word(out, "impl");
    put_all(out, b);
    put_p(out, '+');
    put_j(out, '\'');
    put_word(out, "static");
    put_close(out, Delim::Paren);
    assert(toks_view(out@) =~= before + params_toks(impl_bounds(toks_view(b@))));
}

fn put_allow(out: &mut Vec<Tok>)
    ensures
        toks_view(final(out)@) == toks_view(old(out)@) + allow_names(),
{
    let ghost before = toks_view(out@);
    put_p(out, '#');
    put_open(out, Delim::Bracket);
    put_word(out, "allow");
    put_open(out, Delim::Paren);
    put_word(out, "non_camel_case_types");
    put_close(out, Delim::Paren);
    put_close(out, Delim::Bracket);
    assert(toks_view(out@) =~= before + allow_names());
}

fn put_name_list(out: &mut Vec<Tok>, names: &Vec<String>)
    ensures
        toks_view(final(out)@) == toks_view(old(out)@) + name_list(names_view(names@)),
{
    let ghost before = toks_view(out@);
    let ghost nv = names_view(names@);
    let mut k: usize = 0;
    while k < names.len()
        invariant
            k <= names@.len(),
            nv == names_view(names@),
            toks_view(out@) == before + name_list(nv.subrange(0, k as int)),
        decreases names@.len() - k,
    {
        put_name(out, &names[k]);
        put_p(out, ',');
        k = k + 1;
        assert(nv.subrange(0, k as int).drop_last() =~= nv.subrange(0, k - 1 as int));
        assert(toks_view(out@) =~= before + name_list(nv.subrange(0, k as int)));
    }
    assert(nv.subrange(0, k as int) =~= nv);
}

fn put_other(out: &mut Vec<Tok>, o: &OtherField)
    ensures
        toks_view(final(out)@) == toks_view(old(out)@) + other_toks(o@),
{
    let ghost before = toks_view(out@);
    put_name(out, &o.name);
    put_p(out, ':');
    if o.marker {
        put_word(out, "std");
        put_j(out, ':');
        put_p(out, ':');
        put_word(out, "marker");
        put_j(out, ':');
        put_p(out, ':');
        put_word(out, "PhantomData");
    } else {
        put_word(out, "self");
        put_p(out, '.');
        put_name(out, &o.name);
    }
    put_p(out, ',');
    assert(toks_view(out@) =~= before + other_toks(o@));
}

fn put_others(out: &mut Vec<Tok>, os: &Vec<OtherField>)
    ensures
        toks_view(final(out)@) == toks_view(old(out)@) + others_toks(os@.map_values(|o: OtherField| o@)),
{
    let ghost before = toks_view(out@);
    let ghost ov = os@.map_values(|o: OtherField| o@);
    let mut k: usize = 0;
    while k < os.len()
        invariant
            k <= os@.len(),
            ov == os@.map_values(|o: OtherField| o@),
            toks_view(out@) == before + others_toks(ov.subrange(0, k as int)),
        decreases os@.len() - k,
    {
        put_other(out, &os[k]);
        k = k + 1;
        assert(ov.subrange(0, k as int).drop_last() =~= ov.subrange(0, k - 1 as int));
        assert(toks_view(out@) =~= before + others_toks(ov.subrange(0, k as int)));
    }
    assert(ov.subrange(0, k as int) =~= ov);
}

fn put_instance(out: &mut Vec<Tok>, rec: &String, args: &Vec<Tok>)
    ensures
        toks_view(final(out)@) == toks_view(old(out)@) + instance(rec@, toks_view(args@)),
{
    let ghost before = toks_view(out@);
    put_name(out, rec);
    put_p(out, '<');
    put_all(out, args);
    put_p(out, '>');
    assert(toks_view(out@) =~= before + instance(rec@, toks_view(args@)));
}

fn put_retype_sig(out: &mut Vec<Tok>, rec: &String, name: &String, r: &Retyped)
    ensures
        toks_view(final(out)@) == toks_view(old(out)@) + retype_sig(rec@, name@, r@),
{
    let ghost before = toks_view(out@);
    put_allow(out);
    put_head(out, name);
    put_p(out, '<');
    put_name_list(out, &r.fresh);
    put_p(out, '>');
    put_plain_params(out, &r.value_ty);
    put_j(out, '-');
    put_p(out, '>');
    put_instance(out, rec, &r.args);
    put_opt(out, &r.where_clause);
    assert(toks_view(out@) =~= before + retype_sig(rec@, name@, r@));
}

fn put_retype_fields(out: &mut Vec<Tok>, name: &String, r: &Retyped)
    ensures
        toks_view(final(out)@) == toks_view(old(out)@) + retype_fields(name@, r@),
{
    let ghost before = toks_view(out@);
    put_name(out, name);
    put_p(out, ':');
    put_word(out, "value");
    put_p(out, ',');
    put_others(out, &r.others);
    assert(toks_view(out@) =~= before + retype_fields(name@, r@));
}

fn put_retype(out: &mut Vec<Tok>, rec: &String, name: &String, r: &Retyped)
    ensures
        toks_view(final(out)@) == toks_view(old(out)@) + retype_toks(rec@, name@, r@),
{
    let ghost before = toks_view(out@);
    put_retype_sig(out, rec, name, r);
    let ghost mid = toks_view(out@);
    put_open(out, Delim::Brace);
    put_name(out, rec);
    put_j(out, ':');
    put_p(out, ':');
    put_p(out, '<');
    put_all(out, &r.args);
    put_p(out, '>');
    put_open(out, Delim::Brace);
    put_retype_fields(out, name, r);
    put_close(out, Delim::Brace);
    put_close(out, Delim::Brace);
    assert(toks_view(out@) =~= mid + retype_body(rec@, name@, r@));
    assert(toks_view(out@) =~= before + retype_toks(rec@, name@, r@));
}

/// How a setter's parameter type is written around the type it names.
enum ParamShape {
    /// `value: ty`
    AsIs,
    /// `value: impl Into<ty>`
    Convertible,
    /// `value: impl bounds + 'static`
    Implementing,
}

spec fn shaped_params(shape: ParamShape, t: Seq<TokV>) -> Seq<TokV> {
    match shape {
        ParamShape::AsIs => params_toks(t),
        ParamShape::Convertible => params_toks(impl_into(t)),
        ParamShape::Implementing => params_toks(impl_bounds(t)),
    }
}

/// A setter that assigns the value it takes, converted or wrapped as `a` says.
fn put_assigning(out: &mut Vec<Tok>, n: &String, shape: ParamShape, t: &Vec<Tok>, a: &AssignedValue, c: bool)
    ensures
        toks_view(final(out)@) == toks_view(old(out)@) + head_toks(n@) + shaped_params(shape, toks_view(t@))
            + returns_self() + assign_toks(n@, assigned_toks(*a), c),
{
    put_head(out, n);
    match shape {
        ParamShape::AsIs => put_plain_params(out, t),
        ParamShape::Convertible => put_into_params(out, t),
        ParamShape::Implementing => put_impl_params(out, t),
    }
    put_returns_self(out);
    put_assign(out, n, a, c);
}

#[verifier::rlimit(50)]
fn put_setter(out: &mut Vec<Tok>, rec: &String, m: &Method)
    ensures
        toks_view(final(out)@) == toks_view(old(out)@) + setter_toks(rec@, m@),
{
    let n = &m.name;
    let c = m.copy_rest;
    match &m.arg {
        SetterArg::Plain(t) => {
            let ghost before = toks_view(out@);
            put_assigning(out, n, ParamShape::AsIs, t, &AssignedValue::Value, c);
            assert(toks_view(out@) =~= before + setter_toks(rec@, m@));
        },
        SetterArg::Into(t) => {
            let ghost before = toks_view(out@);
            put_assigning(out, n, ParamShape::Convertible, t, &AssignedValue::Converted, c);
            assert(toks_view(out@) =~= before + setter_toks(rec@, m@));
        },
        SetterArg::OptionInto(t) => {
            let ghost before = toks_view(out@);
            put_head(out, n);
            put_option_signature(out, t);
            put_assign(out, n, &AssignedValue::OptionConverted, c);
            assert(toks_view(out@) =~= before + setter_toks(rec@, m@));
        },
        SetterArg::Wrap(w, t) => {
            let ghost before = toks_view(out@);
            put_assigning(out, n, ParamShape::AsIs, t, &AssignedValue::Wrapped(*w), c);
            assert(toks_view(out@) =~= before + setter_toks(rec@, m@));
        },
        SetterArg::WrapImpl(w, b) => {
            let ghost before = toks_view(out@);
            put_assigning(out, n, ParamShape::Implementing, b, &AssignedValue::Wrapped(*w), c);
            assert(toks_view(out@) =~= before + setter_toks(rec@, m@));
        },
        SetterArg::Retype(r) => {
            let ghost before = toks_view(out@);
            put_retype(out, rec, n, r);
            assert(toks_view(out@) =~= before + setter_toks(rec@, m@));
        },
        SetterArg::Conflict => {
            assert(toks_view(out@) =~= toks_view(out@) + setter_toks(rec@, m@));
        },
    }
}

/// The tokens of the implementation block that holds the setters of `rec`: the block has the
/// record's own generics and where-clause, and holds each setter, attributes first, in order; a
/// conflict contributes no tokens (it is reported at its field instead).
pub fn render(rec: &RecordDesc, methods: &Vec<Method>) -> (r: Vec<Tok>)
    ensures
        toks_view(r@) == impl_toks(*rec, methods_view(methods@)),
{
    let mut out: Vec<Tok> = Vec::new();
    put_word(&mut out, "impl");
    put_p(&mut out, '<');
    put_all(&mut out, &rec.params);
    put_p(&mut out, '>');
    put_instance(&mut out, &rec.name, &rec.args);
    put_opt(&mut out, &rec.where_clause);
    put_open(&mut out, Delim::Brace);
    let ghost start = toks_view(out@);
    let ghost mv = methods_view(methods@);
    let mut k: usize = 0;
    while k < methods.len()
        invariant
            k <= methods@.len(),
            mv == methods_view(methods@),
            toks_view(out@) == start + methods_toks(rec.name@, mv.subrange(0, k as int)),
        decreases methods@.len() - k,
    {
        let m = &methods[k];
        let ghost here = toks_view(out@);
        if let SetterArg::Conflict = &m.arg {
        } else {
            put_all(&mut out, &m.attrs);
            put_setter(&mut out, &rec.name, m);
        }
        assert(toks_view(out@) =~= here + method_toks(rec.name@, m@));
        k = k + 1;
        assert(mv.subrange(0, k as int).drop_last() =~= mv.subrange(0, k - 1 as int));
        assert(mv[k - 1] == m@);
        assert(toks_view(out@) =~= start + methods_toks(rec.name@, mv.subrange(0, k as int)));
    }
    assert(mv.subrange(0, k as int) =~= mv);
    put_close(&mut out, Delim::Brace);
    assert(toks_view(out@) =~= impl_toks(*rec, mv));
    out
}

} // verus!

use default_struct_builder::{
    conflicting_fields, dependencies, fresh_name, has_sym, marker_type, rename_all, render,
    synthesize, transitive_closure, wrapper_of_name, Delim, FieldDesc, Method, OtherField,
    PathHead, RecordDesc, Retyped, SetterArg, Tok, TypeArg, TypeExpr, TypeParam, WherePred,
    Wrapper,
};

fn id(s: &str) -> Tok {
    Tok::Ident(s.to_string())
}

fn p(c: char) -> Tok {
    Tok::Punct(c, false)
}

fn j(c: char) -> Tok {
    Tok::Punct(c, true)
}

fn ids(names: &[&str]) -> Vec<Tok> {
    names.iter().map(|n| id(n)).collect()
}

/// A bare named type such as `f64` or `T`.
fn named(name: &str) -> TypeExpr {
    TypeExpr {
        tokens: vec![id(name)],
        head: Some(PathHead { name: name.to_string(), first_arg: None }),
    }
}

/// `outer<inner>` for a bare inner type.
fn wrapped(outer: &str, inner: &str) -> TypeExpr {
    TypeExpr {
        tokens: vec![id(outer), p('<'), id(inner), p('>')],
        head: Some(PathHead {
            name: outer.to_string(),
            first_arg: Some(TypeArg { tokens: vec![id(inner)], dyn_bounds: None }),
        }),
    }
}

/// `outer<dyn bound>`
fn wrapped_dyn(outer: &str, bound: &str) -> TypeExpr {
    TypeExpr {
        tokens: vec![id(outer), p('<'), id("dyn"), id(bound), p('>')],
        head: Some(PathHead {
            name: outer.to_string(),
            first_arg: Some(TypeArg { tokens: vec![id("dyn"), id(bound)], dyn_bounds: Some(vec![id(bound)]) }),
        }),
    }
}

fn field(name: &str, ty: TypeExpr) -> FieldDesc {
    FieldDesc {
        name: name.to_string(),
        ty,
        attrs: vec![],
        into: false,
        skip: false,
        keep_outer: false,
        keep_type: false,
    }
}

fn record(name: &str, fields: Vec<FieldDesc>) -> RecordDesc {
    RecordDesc {
        name: name.to_string(),
        params: vec![],
        args: vec![],
        type_params: vec![],
        where_clause: None,
        where_preds: vec![],
        fields,
    }
}

fn param(name: &str, bounds: Vec<Tok>) -> TypeParam {
    TypeParam { name: name.to_string(), bounds }
}

fn method_for<'a>(ms: &'a [Method], name: &str) -> &'a Method {
    ms.iter().find(|m| m.name == name).expect("setter present")
}

fn contains_run(hay: &[Tok], needle: &[Tok]) -> bool {
    hay.windows(needle.len()).any(|w| w == needle)
}

#[test]
fn plain_fields_replace_one_field() {
    let rec = record("SomeOptions", vec![field("throttle", named("f64")), field("count", named("i32"))]);
    let ms = synthesize(&rec);
    assert_eq!(ms.len(), 2);
    assert_eq!(ms[0].field, 0);
    assert_eq!(ms[0].name, "throttle");
    assert_eq!(ms[0].arg, SetterArg::Plain(ids(&["f64"])));
    assert!(ms[0].copy_rest);
    assert_eq!(ms[1].arg, SetterArg::Plain(ids(&["i32"])));
    let out = render(&rec, &ms);
    let expected = vec![
        id("pub"), id("fn"), id("throttle"), Tok::Open(Delim::Paren), id("self"), p(','), id("value"),
        p(':'), id("f64"), Tok::Close(Delim::Paren), j('-'), p('>'), id("Self"), Tok::Open(Delim::Brace),
        id("Self"), Tok::Open(Delim::Brace), id("throttle"), p(':'), id("value"), p(','), j('.'), p('.'),
        id("self"), Tok::Close(Delim::Brace), Tok::Close(Delim::Brace),
    ];
    assert!(contains_run(&out, &expected));
    assert_eq!(out[0], id("impl"));
    assert_eq!(out.last(), Some(&Tok::Close(Delim::Brace)));
}

#[test]
fn single_field_copies_nothing_else() {
    let rec = record("One", vec![field("only", named("u8"))]);
    let ms = synthesize(&rec);
    assert_eq!(ms.len(), 1);
    assert!(!ms[0].copy_rest);
    let out = render(&rec, &ms);
    assert!(!contains_run(&out, &[j('.'), p('.'), id("self")]));
}

#[test]
fn optional_into_converts_inner() {
    let mut offset = field("offset", wrapped("Option", "f64"));
    offset.into = true;
    let rec = record("SomeOptions", vec![field("throttle", named("f64")), offset]);
    let ms = synthesize(&rec);
    assert_eq!(method_for(&ms, "offset").arg, SetterArg::OptionInto(ids(&["f64"])));
    let out = render(&rec, &ms);
    let value = vec![
        id("value"), p('.'), id("into"), Tok::Open(Delim::Paren), Tok::Close(Delim::Paren), p('.'), id("map"),
        Tok::Open(Delim::Paren), p('|'), id("v"), p('|'), id("v"), p('.'), id("into"), Tok::Open(Delim::Paren),
        Tok::Close(Delim::Paren), Tok::Close(Delim::Paren),
    ];
    assert!(contains_run(&out, &value));
    assert!(contains_run(&out, &[id("where"), id("OptionInnerType"), p(':'), id("Into"), p('<'), id("f64"), p('>')]));
}

#[test]
fn into_on_plain_field_converts() {
    let mut name = field("name", named("String"));
    name.into = true;
    let rec = record("R", vec![name, field("n", named("u8"))]);
    let ms = synthesize(&rec);
    assert_eq!(ms[0].arg, SetterArg::Into(ids(&["String"])));
    let out = render(&rec, &ms);
    assert!(contains_run(&out, &[id("impl"), id("Into"), p('<'), id("String"), p('>')]));
}

#[test]
fn option_without_into_is_plain() {
    let rec = record("R", vec![field("o", wrapped("Option", "u8")), field("n", named("u8"))]);
    let ms = synthesize(&rec);
    assert_eq!(ms[0].arg, SetterArg::Plain(vec![id("Option"), p('<'), id("u8"), p('>')]));
}

#[test]
fn skipped_field_has_no_setter() {
    let mut skipped = field("not_included", named("u32"));
    skipped.skip = true;
    skipped.into = true;
    skipped.keep_outer = true;
    let rec = record("SomeOptions", vec![field("throttle", named("f64")), skipped]);
    let ms = synthesize(&rec);
    assert_eq!(ms.len(), 1);
    assert!(ms.iter().all(|m| m.name != "not_included" && m.field != 1));
    let out = render(&rec, &ms);
    assert!(!out.contains(&id("not_included")));
}

#[test]
fn owner_wrappers_take_inner_type() {
    let mut keep = field("keep", wrapped("Box", "String"));
    keep.keep_outer = true;
    let rec = record(
        "SomeOptions",
        vec![field("the_field", wrapped_dyn("Box", "Test")), field("other_field", wrapped("Rc", "String")), keep],
    );
    let ms = synthesize(&rec);
    assert_eq!(ms[0].arg, SetterArg::WrapImpl(Wrapper::Boxed, ids(&["Test"])));
    assert_eq!(ms[1].arg, SetterArg::Wrap(Wrapper::RefCounted, ids(&["String"])));
    assert_eq!(ms[2].arg, SetterArg::Plain(vec![id("Box"), p('<'), id("String"), p('>')]));
    let out = render(&rec, &ms);
    assert!(contains_run(&out, &[id("value"), p(':'), id("impl"), id("Test"), p('+'), j('\''), id("static")]));
    assert!(contains_run(&out, &[id("Rc"), j(':'), p(':'), id("new"), Tok::Open(Delim::Paren), id("value")]));
    assert!(contains_run(&out, &[id("Box"), j(':'), p(':'), id("new")]));
}

#[test]
fn arc_wrapper_and_prefix_match() {
    assert_eq!(wrapper_of_name(&"Arc".to_string()), Some(Wrapper::AtomicRefCounted));
    assert_eq!(wrapper_of_name(&"RcBox".to_string()), Some(Wrapper::RefCounted));
    assert_eq!(wrapper_of_name(&"Boxed".to_string()), Some(Wrapper::Boxed));
    assert_eq!(wrapper_of_name(&"Vec".to_string()), None);
    assert_eq!(wrapper_of_name(&"MyArc".to_string()), None);
}

fn generic_record() -> RecordDesc {
    RecordDesc {
        name: "SomeOptions".to_string(),
        params: ids(&["T"]),
        args: ids(&["T"]),
        type_params: vec![param("T", vec![])],
        where_clause: Some(vec![id("where"), id("T"), p(':'), id("Default"), p(',')]),
        where_preds: vec![WherePred { bounded: ids(&["T"]), bounds: ids(&["Default"]) }],
        fields: vec![field("some_field", named("T")), field("other_field", named("i16"))],
    }
}

#[test]
fn generic_field_retypes_record() {
    let rec = generic_record();
    let ms = synthesize(&rec);
    let expected = Retyped {
        fresh: vec!["New__T".to_string()],
        value_ty: ids(&["New__T"]),
        args: ids(&["New__T"]),
        where_clause: Some(vec![id("where"), id("New__T"), p(':'), id("Default"), p(',')]),
        others: vec![OtherField { name: "other_field".to_string(), marker: false }],
    };
    assert_eq!(ms[0].arg, SetterArg::Retype(expected));
    assert_eq!(ms[1].arg, SetterArg::Plain(ids(&["i16"])));
    let out = render(&rec, &ms);
    assert!(contains_run(&out, &[j('-'), p('>'), id("SomeOptions"), p('<'), id("New__T"), p('>')]));
    assert!(contains_run(&out, &[id("other_field"), p(':'), id("self"), p('.'), id("other_field"), p(',')]));
    assert!(contains_run(&out, &[id("impl"), p('<'), id("T"), p('>'), id("SomeOptions"), p('<'), id("T"), p('>')]));
}

#[test]
fn keep_type_field_is_plain() {
    let mut rec = generic_record();
    rec.fields[0].keep_type = true;
    let ms = synthesize(&rec);
    assert_eq!(ms[0].arg, SetterArg::Plain(ids(&["T"])));
}

#[test]
fn into_on_generic_field_is_a_conflict() {
    let mut rec = generic_record();
    rec.fields[0].into = true;
    let ms = synthesize(&rec);
    assert_eq!(ms.len(), 2);
    assert_eq!(ms[0].arg, SetterArg::Conflict);
    assert_eq!(ms[1].arg, SetterArg::Plain(ids(&["i16"])));
    assert_eq!(conflicting_fields(&ms), vec![0]);
    let out = render(&rec, &ms);
    assert!(!out.contains(&id("some_field")));
    assert!(out.contains(&id("other_field")));
}

fn chain_record() -> RecordDesc {
    // A: Tr<B>, B: Tr<C>, C, D; field `a: A`, `d: D`, `m: PhantomData<D>`.
    RecordDesc {
        name: "Chain".to_string(),
        params: vec![
            id("A"), p(':'), id("Tr"), p('<'), id("B"), p('>'), p(','), id("B"), p(':'), id("Tr"), p('<'), id("C"),
            p('>'), p(','), id("C"), p(','), id("D"),
        ],
        args: vec![id("A"), p(','), id("B"), p(','), id("C"), p(','), id("D")],
        type_params: vec![
            param("A", vec![id("Tr"), p('<'), id("B"), p('>')]),
            param("B", vec![id("Tr"), p('<'), id("C"), p('>')]),
            param("C", vec![]),
            param("D", vec![]),
        ],
        where_clause: None,
        where_preds: vec![],
        fields: vec![field("a", named("A")), field("d", named("D")), field("m", wrapped("PhantomData", "D"))],
    }
}

#[test]
fn dependency_chain_is_renamed_together() {
    let rec = chain_record();
    let ms = synthesize(&rec);
    match &ms[0].arg {
        SetterArg::Retype(r) => {
            assert_eq!(r.fresh, vec!["New__A".to_string(), "New__B".to_string(), "New__C".to_string()]);
            assert_eq!(r.args, vec![
                id("New__A"), p(','), id("New__B"), p(','), id("New__C"), p(','), id("D"),
            ]);
            assert_eq!(r.others, vec![
                OtherField { name: "d".to_string(), marker: false },
                OtherField { name: "m".to_string(), marker: true },
            ]);
        },
        other => panic!("unexpected setter {:?}", other),
    }
    match &ms[1].arg {
        SetterArg::Retype(r) => {
            assert_eq!(r.fresh, vec!["New__D".to_string()]);
            assert_eq!(r.args, vec![id("A"), p(','), id("B"), p(','), id("C"), p(','), id("New__D")]);
        },
        other => panic!("unexpected setter {:?}", other),
    }
    let out = render(&rec, &ms);
    assert!(contains_run(&out, &[
        id("m"), p(':'), id("std"), j(':'), p(':'), id("marker"), j(':'), p(':'), id("PhantomData"), p(','),
    ]));
}

#[test]
fn where_clause_dependencies_are_found() {
    let rec = RecordDesc {
        name: "W".to_string(),
        params: vec![id("X"), p(','), id("Y")],
        args: vec![id("X"), p(','), id("Y")],
        type_params: vec![param("X", vec![]), param("Y", vec![])],
        where_clause: Some(vec![id("where"), id("X"), p(':'), id("From"), p('<'), id("Y"), p('>')]),
        where_preds: vec![WherePred { bounded: ids(&["X"]), bounds: vec![id("From"), p('<'), id("Y"), p('>')] }],
        fields: vec![field("x", named("X")), field("y", named("Y"))],
    };
    let deps = dependencies(&rec);
    assert_eq!(deps, vec![vec![false, true], vec![false, false]]);
    let ms = synthesize(&rec);
    match &ms[0].arg {
        SetterArg::Retype(r) => {
            assert_eq!(r.fresh, vec!["New__X".to_string(), "New__Y".to_string()]);
            assert_eq!(
                r.where_clause,
                Some(vec![id("where"), id("New__X"), p(':'), id("From"), p('<'), id("New__Y"), p('>')])
            );
        },
        other => panic!("unexpected setter {:?}", other),
    }
    match &ms[1].arg {
        SetterArg::Retype(r) => assert_eq!(r.fresh, vec!["New__Y".to_string()]),
        other => panic!("unexpected setter {:?}", other),
    }
}

#[test]
fn closure_of_a_chain_and_a_cycle() {
    let chain = vec![vec![false, true, false], vec![false, false, true], vec![false, false, false]];
    assert_eq!(transitive_closure(&chain), vec![
        vec![false, true, true],
        vec![false, false, true],
        vec![false, false, false],
    ]);
    let cycle = vec![vec![false, true], vec![true, false]];
    assert_eq!(transitive_closure(&cycle), vec![vec![true, true], vec![true, true]]);
    let empty: Vec<Vec<bool>> = vec![];
    assert_eq!(transitive_closure(&empty), empty);
}

#[test]
fn renaming_keeps_grouping() {
    let s = vec![
        id("Vec"), p('<'), Tok::Open(Delim::Paren), id("T"), p(','), id("U"), Tok::Close(Delim::Paren), p('>'),
        Tok::Lit("\"T\"".to_string()),
    ];
    let r = rename_all(&s, &vec!["T".to_string()]);
    assert_eq!(r, vec![
        id("Vec"), p('<'), Tok::Open(Delim::Paren), id("New__T"), p(','), id("U"), Tok::Close(Delim::Paren), p('>'),
        Tok::Lit("\"T\"".to_string()),
    ]);
    assert!(has_sym(&s, &"U".to_string()));
    assert!(!has_sym(&s, &"W".to_string()));
    assert!(!has_sym(&vec![Tok::Lit("T".to_string())], &"T".to_string()));
    assert_eq!(fresh_name(&"Item".to_string()), "New__Item");
}

#[test]
fn marker_type_is_recognised() {
    assert!(marker_type(&wrapped("PhantomData", "T")));
    assert!(!marker_type(&named("Phantom")));
    assert!(!marker_type(&TypeExpr { tokens: vec![p('&'), id("str")], head: None }));
}

#[test]
fn attributes_are_carried_over() {
    let mut f = field("throttle", named("f64"));
    f.attrs = vec![p('#'), Tok::Open(Delim::Bracket), id("doc"), p('='), Tok::Lit("\" Speed.\"".to_string()), Tok::Close(Delim::Bracket)];
    let rec = record("R", vec![f]);
    let ms = synthesize(&rec);
    assert_eq!(ms[0].attrs.len(), 6);
    let out = render(&rec, &ms);
    let run = vec![
        p('#'), Tok::Open(Delim::Bracket), id("doc"), p('='), Tok::Lit("\" Speed.\"".to_string()), Tok::Close(Delim::Bracket),
        id("pub"),
    ];
    assert!(contains_run(&out, &run));
}

#[test]
fn synthesis_is_repeatable() {
    let rec = chain_record();
    let first = render(&rec, &synthesize(&rec));
    let second = render(&rec, &synthesize(&rec));
    assert_eq!(first, second);
}

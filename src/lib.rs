//! Fluent setter synthesis for named-field records.
//!
//! Given a record description (its name, generic parameters, where-clause and fields, each
//! field's type as a token sequence together with its outer shape), the library decides, for
//! every field, which setter method to generate: a plain setter, a converting setter, an
//! optional-converting setter, an owner-unwrapping setter, or a setter that re-instantiates the
//! record at fresh generic parameters. Every setter consumes `self` and returns a new record
//! with exactly that one field changed.
//!
//! The record must be a struct with named fields; reading it from source is left to the caller.
//! A field that asks for conversion while its type mentions a type parameter yields a conflict,
//! to be reported at that field, and the other fields still get their setters. The type
//! parameters renamed for a field are listed once each, in declaration order, so the same record
//! always gives the same tokens.
//!
//! Token sequences are flat: a delimited group is an `Open` token, its contents and a matching
//! `Close` token, so substitutions that leave those tokens alone keep the grouping intact.

mod tokens;
mod graph;
mod model;
mod shape;
mod synth;
mod laws;
mod render;

pub use tokens::{
    Delim, Tok, TokV, toks_view, names_view, sym_in, contains_sym, fresh_of, fresh_name, has_sym,
    is_listed, rename_tok, rename_all, copy_toks,
};
pub use graph::{mview, square, is_walk, reach, transitive, closure_of, transitive_closure};
pub use model::{
    TypeParam, WherePred, TypeArg, PathHead, TypeExpr, FieldDesc, RecordDesc, direct_dep,
    direct_deps, dependencies,
};
pub use shape::{
    Wrapper, starts, wrapper_named, optional_inner, wrapped_inner, is_marker, wrapper_of_name,
    optional_arg, wrapped_arg, marker_type,
};
pub use synth::{
    OtherField, Retyped, SetterArg, Method, RetypedV, ArgV, MethodV, methods_view, mentions,
    generic_field, renames, renamed_names, rename_seq, others_of, retyped_of, arg_of, method_of,
    methods_upto, renamed_upto, other_index, methods_of, synthesize, conflicts_upto,
    conflicting_fields,
};
pub use laws::{
    plain_setter_sets_one_field, optional_setter_converts_inner, wrapped_setter_takes_inner,
    retyping_renames_dependents, skipped_field_has_no_setter, dependency_chain_renamed,
    synthesis_is_deterministic,
};
pub use render::{
    idt, pc, pj, grouped, rest_toks, head_toks, params_toks, returns_self, assign_toks, into_call,
    impl_into, option_value, option_generic, option_param, option_where, wrapper_text, wrap_value,
    impl_bounds, allow_names, name_list, other_toks, others_toks, opt_toks, instance, retype_sig,
    retype_fields, retype_body, retype_toks, setter_toks, method_toks, methods_toks, impl_toks, render,
};

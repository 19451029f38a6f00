use vstd::prelude::*;
use crate::tokens::{Tok, contains_sym, has_sym};
use crate::graph::{mview, square, closure_of, transitive_closure};

verus! {

/// A type parameter of the record with its inline bounds.
#[derive(Debug, PartialEq, Eq)]
pub struct TypeParam {
    pub name: String,
    pub bounds: Vec<Tok>,
}

/// A predicate `bounded: bounds` of the record's where-clause.
#[derive(Debug, PartialEq, Eq)]
pub struct WherePred {
    pub bounded: Vec<Tok>,
    pub bounds: Vec<Tok>,
}

/// The first angle-bracketed type argument of a path type's last segment.
#[derive(Debug, PartialEq, Eq)]
pub struct TypeArg {
    pub tokens: Vec<Tok>,
    /// The bounds of the argument when it is a trait object (`dyn A + B`).
    pub dyn_bounds: Option<Vec<Tok>>,
}

/// The last segment of a path type.
#[derive(Debug, PartialEq, Eq)]
pub struct PathHead {
    pub name: String,
    pub first_arg: Option<TypeArg>,
}

/// A field's type: its tokens and, when it is a path type, its last segment.
#[derive(Debug, PartialEq, Eq)]
pub struct TypeExpr {
    pub tokens: Vec<Tok>,
    pub head: Option<PathHead>,
}

/// One named field of the record and its options.
#[derive(Debug, PartialEq, Eq)]
pub struct FieldDesc {
    pub name: String,
    pub ty: TypeExpr,
    /// Attributes carried over to the generated setter (documentation and the like).
    pub attrs: Vec<Tok>,
    /// The setter accepts anything convertible into the field's type.
    pub into: bool,
    /// No setter is generated.
    pub skip: bool,
    /// An owner-wrapped field is set with its wrapped type.
    pub keep_outer: bool,
    /// A field that mentions a type parameter keeps the record's instantiation.
    pub keep_type: bool,
}

/// A named-field record: its name, generics and fields in declaration order.
#[derive(Debug, PartialEq, Eq)]
pub struct RecordDesc {
    pub name: String,
    /// The generic parameter list, bounds included, without its angle brackets.
    pub params: Vec<Tok>,
    /// The generic argument list that names the record's own instantiation (the parameters
    /// without their bounds), without its angle brackets.
    pub args: Vec<Tok>,
    pub type_params: Vec<TypeParam>,
    /// The where-clause, `where` keyword included.
    pub where_clause: Option<Vec<Tok>>,
    /// The type predicates of the where-clause.
    pub where_preds: Vec<WherePred>,
    pub fields: Vec<FieldDesc>,
}

/// Parameter `i` depends directly on parameter `j`: an inline bound of `i` mentions `j`, or a
/// where-predicate whose bounded type mentions `i` has a bound that mentions `j`.
pub open spec fn direct_dep(rec: RecordDesc, i: int, j: int) -> bool {
    let tps = rec.type_params@;
    ||| contains_sym(tps[i].bounds@, tps[j].name@)
    ||| exists|p: int|
        0 <= p < rec.where_preds@.len() && #[trigger] contains_sym(rec.where_preds@[p].bounded@, tps[i].name@)
            && contains_sym(rec.where_preds@[p].bounds@, tps[j].name@)
}

/// The direct dependencies between the record's type parameters, as a square matrix.
pub open spec fn direct_deps(rec: RecordDesc) -> Seq<Seq<bool>> {
    let n = rec.type_params@.len();
    Seq::new(n, |i: int| Seq::new(n, |j: int| direct_dep(rec, i, j)))
}

fn direct_row(rec: &RecordDesc, i: usize) -> (r: Vec<bool>)
    requires
        i < rec.type_params@.len(),
    ensures
        r@ == direct_deps(*rec)[i as int],
{
    let n = rec.type_params.len();
    let tp = &rec.type_params[i];
    let mut r: Vec<bool> = Vec::new();
    let mut j: usize = 0;
    while j < n
        invariant
            n == rec.type_params@.len(),
            i < n,
            j <= n,
            *tp == rec.type_params@[i as int],
            r@.len() == j,
            forall|b: int| 0 <= b < j ==> #[trigger] r@[b] == direct_dep(*rec, i as int, b),
        decreases n - j,
    {
        let other = &rec.type_params[j].name;
        let mut e = has_sym(&tp.bounds, other);
        let mut p: usize = 0;
        while p < rec.where_preds.len() && !e
            invariant
                n == rec.type_params@.len(),
                i < n,
                j < n,
                *tp == rec.type_params@[i as int],
                *other == rec.type_params@[j as int].name,
                p <= rec.where_preds@.len(),
                e ==> direct_dep(*rec, i as int, j as int),
                !e ==> !contains_sym(tp.bounds@, other@),
                !e ==> forall|q: int| 0 <= q < p ==> !(#[trigger] contains_sym(rec.where_preds@[q].bounded@, tp.name@)
                    && contains_sym(rec.where_preds@[q].bounds@, other@)),
            decreases rec.where_preds@.len() - p,
        {
            let wp = &rec.where_preds[p];
            if has_sym(&wp.bounded, &tp.name) && has_sym(&wp.bounds, other) {
                e = true;
            }
            p = p + 1;
        }
        r.push(e);
        j = j + 1;
    }
    assert(r@ =~= direct_deps(*rec)[i as int]);
    r
}

/// For each type parameter, the type parameters it depends on, directly or through a chain of
/// dependencies: row `i` holds `j` exactly when `j` can be reached from `i` along direct
/// dependencies. Cycles are allowed.
pub fn dependencies(rec: &RecordDesc) -> (c: Vec<Vec<bool>>)
    ensures
        closure_of(direct_deps(*rec), mview(c@)),
{
    let n = rec.type_params.len();
    let mut m: Vec<Vec<bool>> = Vec::new();
    let mut i: usize = 0;
    while i < n
        invariant
            n == rec.type_params@.len(),
            i <= n,
            m@.len() == i,
            forall|a: int| 0 <= a < i ==> (#[trigger] m@[a])@ == direct_deps(*rec)[a],
        decreases n - i,
    {
        m.push(direct_row(rec, i));
        i = i + 1;
    }
    assert(mview(m@) =~= direct_deps(*rec));
    transitive_closure(&m)
}

} // verus!

use vstd::prelude::*;
use crate::model::{TypeArg, TypeExpr};

verus! {

/// An owner-wrapper around a field's value.
#[derive(Clone, Copy, Debug, PartialEq, Eq, Structural)]
pub enum Wrapper {
    /// Exclusive ownership (`Box`).
    Boxed,
    /// Shared ownership for one thread (`Rc`).
    RefCounted,
    /// Shared ownership across threads (`Arc`).
    AtomicRefCounted,
}

/// `p` is a prefix of `s`.
pub open spec fn starts(s: Seq<char>, p: Seq<char>) -> bool {
    p.len() <= s.len() && s.subrange(0, p.len() as int) == p
}

pub open spec fn box_text() -> Seq<char> {
    seq!['B', 'o', 'x']
}

pub open spec fn rc_text() -> Seq<char> {
    seq!['R', 'c']
}

pub open spec fn arc_text() -> Seq<char> {
    seq!['A', 'r', 'c']
}

pub open spec fn option_text() -> Seq<char> {
    seq!['O', 'p', 't', 'i', 'o', 'n']
}

pub open spec fn marker_text() -> Seq<char> {
    seq!['P', 'h', 'a', 'n', 't', 'o', 'm', 'D', 'a', 't', 'a']
}

/// The owner-wrapper that a path segment names, matched by prefix so that a longer name
/// (`RcBox`) counts too; `Box` is tried first, then `Rc`, then `Arc`.
pub open spec fn wrapper_named(name: Seq<char>) -> Option<Wrapper> {
    if starts(name, box_text()) {
        Some(Wrapper::Boxed)
    } else if starts(name, rc_text()) {
        Some(Wrapper::RefCounted)
    } else if starts(name, arc_text()) {
        Some(Wrapper::AtomicRefCounted)
    } else {
        None
    }
}

/// The inner type of an optional type: a path whose last segment is `Option` with a first
/// type argument.
pub open spec fn optional_inner(t: TypeExpr) -> Option<TypeArg> {
    match t.head {
        Some(h) => if h.name@ == option_text() {
            h.first_arg
        } else {
            None
        },
        None => None,
    }
}

/// The wrapper and the inner type of an owner-wrapped type.
pub open spec fn wrapped_inner(t: TypeExpr) -> Option<(Wrapper, TypeArg)> {
    match t.head {
        Some(h) => match (wrapper_named(h.name@), h.first_arg) {
            (Some(w), Some(a)) => Some((w, a)),
            _ => None,
        },
        None => None,
    }
}

/// The type is the zero-sized marker `PhantomData<..>`, whose value is made afresh rather
/// than copied.
pub open spec fn is_marker(t: TypeExpr) -> bool {
    match t.head {
        Some(h) => h.name@ == marker_text(),
        None => false,
    }
}

/// Whether `p` is a prefix of `s`.
fn text_starts(s: &str, p: &str) -> (r: bool)
    ensures
        r == starts(s@, p@),
{
    let n = s.unicode_len();
    let m = p.unicode_len();
    if m > n {
        return false;
    }
    let mut i: usize = 0;
    while i < m
        invariant
            m == p@.len(),
            n == s@.len(),
            m <= n,
            i <= m,
            forall|k: int| 0 <= k < i ==> s@[k] == p@[k],
        decreases m - i,
    {
        if s.get_char(i) != p.get_char(i) {
            assert(s@.subrange(0, m as int)[i as int] != p@[i as int]);
            return false;
        }
        i = i + 1;
    }
    assert(s@.subrange(0, m as int) =~= p@);
    true
}

/// Whether `s` is `p`.
fn text_is(s: &str, p: &str) -> (r: bool)
    ensures
        r == (s@ == p@),
{
    let r = s.unicode_len() == p.unicode_len() && text_starts(s, p);
    proof {
        if s@.len() == p@.len() {
            assert(s@.subrange(0, p@.len() as int) =~= s@);
        }
    }
    r
}

/// The owner-wrapper that a path segment names.
pub fn wrapper_of_name(name: &String) -> (r: Option<Wrapper>)
    ensures
        r == wrapper_named(name@),
{
    proof {
        reveal_strlit("Box");
        reveal_strlit("Rc");
        reveal_strlit("Arc");
        assert("Box"@ =~= box_text());
        assert("Rc"@ =~= rc_text());
        assert("Arc"@ =~= arc_text());
    }
    if text_starts(name.as_str(), "Box") {
        Some(Wrapper::Boxed)
    } else if text_starts(name.as_str(), "Rc") {
        Some(Wrapper::RefCounted)
    } else if text_starts(name.as_str(), "Arc") {
        Some(Wrapper::AtomicRefCounted)
    } else {
        None
    }
}

/// The inner type of an optional type, if the type is one.
pub fn optional_arg(t: &TypeExpr) -> (r: Option<&TypeArg>)
    ensures
        r == match optional_inner(*t) {
            Some(a) => Some(&a),
            None => None::<&TypeArg>,
        },
{
    proof {
        reveal_strlit("Option");
        assert("Option"@ =~= option_text());
    }
    match &t.head {
        Some(h) => if text_is(h.name.as_str(), "Option") {
            match &h.first_arg {
                Some(a) => Some(a),
                None => None,
            }
        } else {
            None
        },
        None => None,
    }
}

/// The wrapper and inner type of an owner-wrapped type, if the type is one.
pub fn wrapped_arg(t: &TypeExpr) -> (r: Option<(Wrapper, &TypeArg)>)
    ensures
        r == match wrapped_inner(*t) {
            Some((w, a)) => Some((w, &a)),
            None => None::<(Wrapper, &TypeArg)>,
        },
{
    match &t.head {
        Some(h) => match (wrapper_of_name(&h.name), &h.first_arg) {
            (Some(w), Some(a)) => Some((w, a)),
            _ => None,
        },
        None => None,
    }
}

/// Whether the type is the zero-sized marker `PhantomData<..>`.
pub fn marker_type(t: &TypeExpr) -> (r: bool)
    ensures
        r == is_marker(*t),
{
    proof {
        reveal_strlit("PhantomData");
        assert("PhantomData"@ =~= marker_text());
    }
    match &t.head {
        Some(h) => text_is(h.name.as_str(), "PhantomData"),
        None => false,
    }
}

} // verus!

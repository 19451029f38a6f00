use vstd::prelude::*;

verus! {

/// How a group of tokens is delimited.
#[derive(Clone, Copy, Debug, PartialEq, Eq, Structural)]
pub enum Delim {
    Paren,
    Bracket,
    Brace,
    /// An invisible group, as produced by macro expansion.
    Invisible,
}

/// One token of a flat token sequence.
#[derive(Debug, PartialEq, Eq)]
pub enum Tok {
    Ident(String),
    /// A punctuation character; `true` when it is joined to the next punctuation character.
    Punct(char, bool),
    Lit(String),
    Open(Delim),
    Close(Delim),
}

/// The mathematical value of a token.
pub ghost enum TokV {
    Ident(Seq<char>),
    Punct(char, bool),
    Lit(Seq<char>),
    Open(Delim),
    Close(Delim),
}

impl View for Tok {
    type V = TokV;

    open spec fn view(&self) -> TokV {
        match self {
            Tok::Ident(s) => TokV::Ident(s@),
            Tok::Punct(c, j) => TokV::Punct(*c, *j),
            Tok::Lit(s) => TokV::Lit(s@),
            Tok::Open(d) => TokV::Open(*d),
            Tok::Close(d) => TokV::Close(*d),
        }
    }
}

/// The values of the tokens of a sequence.
pub open spec fn toks_view(s: Seq<Tok>) -> Seq<TokV> {
    s.map_values(|t: Tok| t@)
}

/// The values of a sequence of names.
pub open spec fn names_view(s: Seq<String>) -> Seq<Seq<char>> {
    s.map_values(|n: String| n@)
}

impl Tok {
    pub fn duplicate(&self) -> (r: Tok)
        ensures
            r == *self,
    {
        match self {
            Tok::Ident(s) => Tok::Ident(s.clone()),
            Tok::Punct(c, j) => Tok::Punct(*c, *j),
            Tok::Lit(s) => Tok::Lit(s.clone()),
            Tok::Open(d) => Tok::Open(*d),
            Tok::Close(d) => Tok::Close(*d),
        }
    }
}

/// Copies a token sequence.
pub fn copy_toks(v: &Vec<Tok>) -> (r: Vec<Tok>)
    ensures
        r@ == v@,
{
    let mut r: Vec<Tok> = Vec::new();
    let mut i: usize = 0;
    while i < v.len()
        invariant
            i <= v.len(),
            r@ == v@.subrange(0, i as int),
        decreases v.len() - i,
    {
        r.push(v[i].duplicate());
        i = i + 1;
        assert(r@ =~= v@.subrange(0, i as int));
    }
    assert(v@.subrange(0, v.len() as int) =~= v@);
    r
}

/// Whether a token is the identifier `name`.
pub open spec fn sym_in(t: TokV, name: Seq<char>) -> bool {
    t matches TokV::Ident(n) && n == name
}

/// Whether the identifier `name` occurs anywhere in `s`, at any depth of grouping.
pub open spec fn contains_sym(s: Seq<Tok>, name: Seq<char>) -> bool {
    exists|k: int| 0 <= k < s.len() && sym_in(#[trigger] s[k]@, name)
}

/// The reserved prefix of fresh parameter names.
pub open spec fn fresh_prefix() -> Seq<char> {
    seq!['N', 'e', 'w', '_', '_']
}

/// The fresh name that replaces the parameter `name`.
pub open spec fn fresh_of(name: Seq<char>) -> Seq<char> {
    fresh_prefix() + name
}

/// Makes the fresh name for the parameter `name`.
pub fn fresh_name(name: &String) -> (r: String)
    ensures
        r@ == fresh_of(name@),
{
    let mut r = String::new();
    r.append("New__");
    proof {
        reveal_strlit("New__");
    }
    r.append(name.as_str());
    assert(r@ =~= fresh_of(name@));
    r
}

/// Whether the identifier `name` occurs in `s`.
pub fn has_sym(s: &Vec<Tok>, name: &String) -> (r: bool)
    ensures
        r == contains_sym(s@, name@),
{
    let mut i: usize = 0;
    while i < s.len()
        invariant
            i <= s.len(),
            forall|k: int| 0 <= k < i ==> !sym_in(#[trigger] s@[k]@, name@),
        decreases s.len() - i,
    {
        if let Tok::Ident(n) = &s[i] {
            if *n == *name {
                assert(sym_in(s@[i as int]@, name@));
                return true;
            }
        }
        i = i + 1;
    }
    false
}

/// Whether `name` is one of `names`.
pub fn is_listed(names: &Vec<String>, name: &String) -> (r: bool)
    ensures
        r == names_view(names@).contains(name@),
{
    let mut i: usize = 0;
    while i < names.len()
        invariant
            i <= names.len(),
            forall|k: int| 0 <= k < i ==> names@[k]@ != name@,
        decreases names.len() - i,
    {
        if names[i] == *name {
            assert(names_view(names@)[i as int] == name@);
            return true;
        }
        i = i + 1;
    }
    proof {
        if names_view(names@).contains(name@) {
            let k = choose|k: int| 0 <= k < names@.len() && names_view(names@)[k] == name@;
            assert(names@[k]@ == name@);
        }
    }
    false
}

/// A token after every identifier listed in `names` has been replaced by its fresh name.
pub open spec fn rename_tok(t: TokV, names: Seq<Seq<char>>) -> TokV {
    match t {
        TokV::Ident(n) => if names.contains(n) {
            TokV::Ident(fresh_of(n))
        } else {
            t
        },
        _ => t,
    }
}

/// Replaces, at every depth, each identifier listed in `names` by its fresh name; every other
/// token, delimiters included, is kept as it is.
pub fn rename_all(s: &Vec<Tok>, names: &Vec<String>) -> (r: Vec<Tok>)
    ensures
        r@.len() == s@.len(),
        forall|k: int| 0 <= k < s@.len() ==> #[trigger] r@[k]@ == rename_tok(s@[k]@, names_view(names@)),
{
    let mut r: Vec<Tok> = Vec::new();
    let mut i: usize = 0;
    while i < s.len()
        invariant
            i <= s.len(),
            r@.len() == i,
            forall|k: int| 0 <= k < i ==> #[trigger] r@[k]@ == rename_tok(s@[k]@, names_view(names@)),
        decreases s.len() - i,
    {
        let t = match &s[i] {
            Tok::Ident(n) => if is_listed(names, n) {
                Tok::Ident(fresh_name(n))
            } else {
                Tok::Ident(n.clone())
            },
            other => other.duplicate(),
        };
        r.push(t);
        i = i + 1;
    }
    r
}

} // verus!

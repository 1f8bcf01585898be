//! Writes the comparison code for an annotated structure.
use crate::outside::{char_text, read_struct};
use crate::syntax::{parse_attribute, parse_spec, Binding, BindingView, KeySpec, KeySpecView, SyntaxError};
use vstd::prelude::*;

verus! {

/// What the generated code needs to know of the annotated structure, as text.
#[derive(Clone, Debug)]
pub struct TargetShape {
    /// The declaration itself, emitted unchanged.
    pub declaration: String,
    pub name: String,
    /// Generic parameters with their bounds, as written after `impl`.
    pub impl_generics: String,
    /// Generic arguments, as written after the structure's name.
    pub ty_generics: String,
    /// The where clause, or empty.
    pub where_clause: String,
}

impl View for TargetShape {
    type V = (Seq<char>, Seq<char>, Seq<char>, Seq<char>, Seq<char>);

    open spec fn view(&self) -> Self::V {
        (self.declaration@, self.name@, self.impl_generics@, self.ty_generics@, self.where_clause@)
    }
}

pub open spec fn digit(d: nat) -> char {
    if d == 0 {
        '0'
    } else if d == 1 {
        '1'
    } else if d == 2 {
        '2'
    } else if d == 3 {
        '3'
    } else if d == 4 {
        '4'
    } else if d == 5 {
        '5'
    } else if d == 6 {
        '6'
    } else if d == 7 {
        '7'
    } else if d == 8 {
        '8'
    } else {
        '9'
    }
}

/// The decimal numeral of `n`.
pub open spec fn decimal(n: nat) -> Seq<char>
    decreases n,
{
    if n < 10 {
        seq![digit(n)]
    } else {
        decimal(n / 10) + seq![digit(n % 10)]
    }
}

/// The name of the generated function that extracts key `i`.
pub open spec fn key_fn_name(i: nat) -> Seq<char> {
    "_ord_eq_by_key_selector_"@ + decimal(i)
}

/// The first `k` names of a destructuring binding, each followed by a comma.
pub open spec fn names_text(ns: Seq<Seq<char>>, k: nat) -> Seq<char>
    decreases k,
{
    if k == 0 || k > ns.len() {
        Seq::empty()
    } else {
        names_text(ns, (k - 1) as nat) + ns[k - 1] + ", "@
    }
}

/// The pattern that the binding becomes inside each key function.
pub open spec fn pattern_text(b: BindingView) -> Seq<char> {
    match b {
        BindingView::SingleName(n) => n,
        BindingView::Destructure(ns) => "Self ("@ + names_text(ns, ns.len()) + ")"@,
    }
}

/// Key function `i`: binds the pattern to its argument, then evaluates the key.
pub open spec fn key_fn_text(i: nat, pattern: Seq<char>, key: Seq<char>) -> Seq<char> {
    "fn "@ + key_fn_name(i)
        + "(_ord_eq_by_key_selector_do_not_use: &Self) -> impl ::core::cmp::Ord + '_ { #[allow(unused_variables)] let "@
        + pattern + " = _ord_eq_by_key_selector_do_not_use; "@ + key + " } "@
}

/// The first `k` key functions.
pub open spec fn key_fns_text(keys: Seq<Seq<char>>, pattern: Seq<char>, k: nat) -> Seq<char>
    decreases k,
{
    if k == 0 || k > keys.len() {
        Seq::empty()
    } else {
        key_fns_text(keys, pattern, (k - 1) as nat) + key_fn_text((k - 1) as nat, pattern, keys[k - 1])
    }
}

/// One step of the lexicographic walk: extract key `i` of both values, apply
/// the per-key primitive, and return at once unless the result is neutral.
pub open spec fn step_text(name: Seq<char>, i: nat, primitive: Seq<char>, neutral: Seq<char>) -> Seq<char> {
    "let key_self = "@ + name + "::"@ + key_fn_name(i) + "(self); let key_other = "@ + name + "::"@
        + key_fn_name(i) + "(other); let result = key_self."@ + primitive
        + "(&key_other); if result != "@ + neutral + " { return result; } "@
}

/// The first `k` steps of the walk.
pub open spec fn steps_text(name: Seq<char>, k: nat, primitive: Seq<char>, neutral: Seq<char>) -> Seq<char>
    decreases k,
{
    if k == 0 {
        Seq::empty()
    } else {
        steps_text(name, (k - 1) as nat, primitive, neutral) + step_text(name, (k - 1) as nat, primitive, neutral)
    }
}

/// The whole walk over `n` keys, ending in the neutral result.
pub open spec fn walk_text(name: Seq<char>, n: nat, primitive: Seq<char>, neutral: Seq<char>) -> Seq<char> {
    steps_text(name, n, primitive, neutral) + "return "@ + neutral + ";"@
}

pub type ShapeView = (Seq<char>, Seq<char>, Seq<char>, Seq<char>, Seq<char>);

/// `impl<...> Trait for Name<...> where ... ` (no trait for an inherent impl).
pub open spec fn header_text(shape: ShapeView, trait_for: Seq<char>) -> Seq<char> {
    "impl"@ + shape.2 + " "@ + trait_for + shape.1 + shape.3 + " "@ + shape.4 + " "@
}

pub open spec fn eq_impl_text(shape: ShapeView, n: nat) -> Seq<char> {
    header_text(shape, "::core::cmp::PartialEq for "@)
        + "{ fn eq(&self, other: &Self) -> bool { "@
        + walk_text(shape.1, n, "eq"@, "true"@) + " } } "@
}

pub open spec fn total_eq_impl_text(shape: ShapeView) -> Seq<char> {
    header_text(shape, "::core::cmp::Eq for "@) + "{ } "@
}

pub open spec fn ord_impl_text(shape: ShapeView, n: nat) -> Seq<char> {
    header_text(shape, "::core::cmp::Ord for "@)
        + "{ fn cmp(&self, other: &Self) -> ::core::cmp::Ordering { "@
        + walk_text(shape.1, n, "cmp"@, "::core::cmp::Ordering::Equal"@) + " } } "@
}

pub open spec fn partial_ord_impl_text(shape: ShapeView) -> Seq<char> {
    header_text(shape, "::core::cmp::PartialOrd for "@)
        + "{ fn partial_cmp(&self, other: &Self) -> ::core::option::Option<::core::cmp::Ordering> { ::core::option::Option::Some(self.cmp(other)) } } "@
}

/// The generated code: the declaration unchanged, the key functions, and the
/// four comparison operations.
pub open spec fn expansion(spec: KeySpecView, shape: ShapeView) -> Seq<char> {
    shape.0 + " "@ + header_text(shape, Seq::empty()) + "{ "@
        + key_fns_text(spec.keys, pattern_text(spec.binding), spec.keys.len()) + "} "@
        + eq_impl_text(shape, spec.keys.len()) + total_eq_impl_text(shape)
        + ord_impl_text(shape, spec.keys.len()) + partial_ord_impl_text(shape)
}

fn digit_char(d: usize) -> (r: char)
    requires
        d < 10,
    ensures
        r == digit(d as nat),
{
    if d == 0 {
        '0'
    } else if d == 1 {
        '1'
    } else if d == 2 {
        '2'
    } else if d == 3 {
        '3'
    } else if d == 4 {
        '4'
    } else if d == 5 {
        '5'
    } else if d == 6 {
        '6'
    } else if d == 7 {
        '7'
    } else if d == 8 {
        '8'
    } else {
        '9'
    }
}

/// The decimal numeral of `n`.
pub fn decimal_text(n: usize) -> (r: String)
    ensures
        r@ == decimal(n as nat),
    decreases n,
{
    if n < 10 {
        char_text(digit_char(n))
    } else {
        let mut out = decimal_text(n / 10);
        let last = char_text(digit_char(n % 10));
        out.append(last.as_str());
        out
    }
}

/// The name of the generated function that extracts key `i`.
pub fn key_fn_name_text(i: usize) -> (r: String)
    ensures
        r@ == key_fn_name(i as nat),
{
    let mut out = String::from_str("_ord_eq_by_key_selector_");
    let num = decimal_text(i);
    out.append(num.as_str());
    out
}

/// The pattern that a binding becomes inside each key function.
pub fn binding_pattern(b: &Binding) -> (r: String)
    ensures
        r@ == pattern_text(b@),
{
    match b {
        Binding::SingleName(n) => n.clone(),
        Binding::Destructure(names) => {
            let ghost ns = crate::syntax::texts_view(names@);
            let mut out = String::from_str("Self (");
            let mut k: usize = 0;
            while k < names.len()
                invariant
                    0 <= k <= names@.len(),
                    ns == crate::syntax::texts_view(names@),
                    out@ == "Self ("@ + names_text(ns, k as nat),
                decreases names@.len() - k,
            {
                out.append(names[k].as_str());
                out.append(", ");
                proof {
                    assert(out@ =~= "Self ("@ + names_text(ns, (k + 1) as nat));
                }
                k = k + 1;
            }
            out.append(")");
            out
        },
    }
}

/// Key function `i`: binds the pattern to its argument, then evaluates the key.
pub fn key_function(i: usize, pattern: &str, key: &str) -> (r: String)
    ensures
        r@ == key_fn_text(i as nat, pattern@, key@),
{
    let mut out = String::from_str("fn ");
    let name = key_fn_name_text(i);
    out.append(name.as_str());
    out.append(
        "(_ord_eq_by_key_selector_do_not_use: &Self) -> impl ::core::cmp::Ord + '_ { #[allow(unused_variables)] let ",
    );
    out.append(pattern);
    out.append(" = _ord_eq_by_key_selector_do_not_use; ");
    out.append(key);
    out.append(" } ");
    proof {
        assert(out@ =~= key_fn_text(i as nat, pattern@, key@));
    }
    out
}

/// The lexicographic walk shared by equality and the total order: one step
/// per key in declared order, each returning at once unless the per-key
/// result is `neutral`, then `neutral` when every key tied.
pub fn comparison_walk(name: &str, n: usize, primitive: &str, neutral: &str) -> (r: String)
    ensures
        r@ == walk_text(name@, n as nat, primitive@, neutral@),
{
    let mut out = String::new();
    let mut k: usize = 0;
    while k < n
        invariant
            0 <= k <= n,
            out@ == steps_text(name@, k as nat, primitive@, neutral@),
        decreases n - k,
    {
        let f = key_fn_name_text(k);
        out.append("let key_self = ");
        out.append(name);
        out.append("::");
        out.append(f.as_str());
        out.append("(self); let key_other = ");
        out.append(name);
        out.append("::");
        out.append(f.as_str());
        out.append("(other); let result = key_self.");
        out.append(primitive);
        out.append("(&key_other); if result != ");
        out.append(neutral);
        out.append(" { return result; } ");
        proof {
            assert(out@ =~= steps_text(name@, (k + 1) as nat, primitive@, neutral@));
        }
        k = k + 1;
    }
    out.append("return ");
    out.append(neutral);
    out.append(";");
    proof {
        assert(out@ =~= walk_text(name@, n as nat, primitive@, neutral@));
    }
    out
}

/// `impl<...> Trait for Name<...> where ... `; `trait_for` is empty for an
/// inherent impl.
pub fn impl_header(shape: &TargetShape, trait_for: &str) -> (r: String)
    ensures
        r@ == header_text(shape@, trait_for@),
{
    let mut out = String::from_str("impl");
    out.append(shape.impl_generics.as_str());
    out.append(" ");
    out.append(trait_for);
    out.append(shape.name.as_str());
    out.append(shape.ty_generics.as_str());
    out.append(" ");
    out.append(shape.where_clause.as_str());
    out.append(" ");
    proof {
        assert(out@ =~= header_text(shape@, trait_for@));
    }
    out
}

/// Writes the code for a parsed annotation and a structure: the declaration
/// unchanged, one key function per key expression in declared order, and the
/// equality, strict-equivalence, total-order and partial-order operations.
pub fn synthesize(spec: &KeySpec, shape: &TargetShape) -> (r: String)
    ensures
        r@ == expansion(spec@, shape@),
{
    let ghost keys = spec@.keys;
    let n = spec.keys.len();
    let pattern = binding_pattern(&spec.binding);
    let mut out = shape.declaration.clone();
    out.append(" ");
    let inherent = impl_header(shape, "");
    proof {
        reveal_strlit("");
        assert(""@ =~= Seq::<char>::empty());
    }
    out.append(inherent.as_str());
    out.append("{ ");
    let ghost before = out@;
    let mut k: usize = 0;
    while k < n
        invariant
            0 <= k <= n,
            n == spec.keys@.len(),
            keys == spec@.keys,
            keys.len() == n,
            pattern@ == pattern_text(spec@.binding),
            out@ == before + key_fns_text(keys, pattern@, k as nat),
        decreases n - k,
    {
        let f = key_function(k, pattern.as_str(), spec.keys[k].as_str());
        out.append(f.as_str());
        proof {
            assert(keys[k as int] == spec.keys@[k as int]@);
            assert(out@ =~= before + key_fns_text(keys, pattern@, (k + 1) as nat));
        }
        k = k + 1;
    }
    out.append("} ");
    let h = impl_header(shape, "::core::cmp::PartialEq for ");
    out.append(h.as_str());
    out.append("{ fn eq(&self, other: &Self) -> bool { ");
    let w = comparison_walk(shape.name.as_str(), n, "eq", "true");
    out.append(w.as_str());
    out.append(" } } ");
    let h = impl_header(shape, "::core::cmp::Eq for ");
    out.append(h.as_str());
    out.append("{ } ");
    let h = impl_header(shape, "::core::cmp::Ord for ");
    out.append(h.as_str());
    out.append("{ fn cmp(&self, other: &Self) -> ::core::cmp::Ordering { ");
    let w = comparison_walk(shape.name.as_str(), n, "cmp", "::core::cmp::Ordering::Equal");
    out.append(w.as_str());
    out.append(" } } ");
    let h = impl_header(shape, "::core::cmp::PartialOrd for ");
    out.append(h.as_str());
    out.append(
        "{ fn partial_cmp(&self, other: &Self) -> ::core::option::Option<::core::cmp::Ordering> { ::core::option::Option::Some(self.cmp(other)) } } ",
    );
    proof {
        assert(out@ =~= expansion(spec@, shape@));
    }
    out
}

/// Why no code was written.
#[derive(Clone, Copy, Debug, PartialEq, Eq, Structural)]
pub enum ExpandError {
    /// The annotation is malformed.
    Syntax(SyntaxError),
    /// The annotated item is not a structure declaration.
    NotAStruct,
}

pub open spec fn expand_spec(spec: Result<KeySpecView, SyntaxError>, shape: Option<ShapeView>) -> Result<
    Seq<char>,
    ExpandError,
> {
    match spec {
        Err(e) => Err(ExpandError::Syntax(e)),
        Ok(spec) => match shape {
            None => Err(ExpandError::NotAStruct),
            Some(shape) => Ok(expansion(spec, shape)),
        },
    }
}

pub open spec fn expand_result_view(r: Result<String, ExpandError>) -> Result<Seq<char>, ExpandError> {
    match r {
        Ok(s) => Ok(s@),
        Err(e) => Err(e),
    }
}

/// The outcome of an expansion, given the parsed annotation and the structure
/// as read.
pub fn expand_parsed(spec: Result<KeySpec, SyntaxError>, shape: Option<TargetShape>) -> (r: Result<
    String,
    ExpandError,
>)
    ensures
        expand_result_view(r) == expand_spec(
            crate::syntax::spec_result_view(spec),
            match shape {
                Some(s) => Some(s@),
                None => None,
            },
        ),
{
    match spec {
        Err(e) => Err(ExpandError::Syntax(e)),
        Ok(spec) => match shape {
            None => Err(ExpandError::NotAStruct),
            Some(shape) => Ok(synthesize(&spec, &shape)),
        },
    }
}

/// Derives equality and ordering for a structure: parses the annotation
/// `|binding| key, key, ...`, reads the structure declaration `item`, and
/// returns the declaration followed by the generated key functions and the
/// four comparison operations. A malformed annotation is reported before the
/// item is looked at.
pub fn ord_eq_by_key_selector(attr: &str, item: &str) -> (r: Result<String, ExpandError>)
    ensures
        r is Ok ==> exists|spec: KeySpecView, shape: ShapeView|
            spec.keys.len() > 0 && r->Ok_0@ == expansion(spec, shape),
        r == Err::<String, ExpandError>(ExpandError::Syntax(SyntaxError::InvalidTokens)) || (forall|
            e: SyntaxError,
        |
            r == Err::<String, ExpandError>(ExpandError::Syntax(e)) ==> exists|
                ts: Seq<crate::syntax::TreeView>,
                inner: Option<Seq<crate::syntax::TreeView>>,
                list: Result<Seq<Seq<char>>, Option<(int, int)>>,
            | parse_spec(ts, inner, list) == Err::<KeySpecView, SyntaxError>(e)),
{
    let spec = match parse_attribute(attr) {
        Ok(s) => s,
        Err(e) => {
            return Err(ExpandError::Syntax(e));
        },
    };
    let shape = read_struct(item);
    let ghost sv = spec@;
    let r = expand_parsed(Ok(spec), shape);
    proof {
        if r is Ok {
            assert(r->Ok_0@ == expansion(sv, shape->Some_0@));
        }
    }
    r
}

} // verus!

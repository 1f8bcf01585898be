//! The annotation grammar:
//!
//! ```text
//! attribute   := '|' binding '|' key_list
//! binding     := IDENT | '(' ident_list ')'
//! ident_list  := (IDENT (',' IDENT)* ','?)?
//! key_list    := expr (',' expr)* ','?
//! ```
//!
//! The annotation is read as a sequence of top-level token trees; the binding
//! is recognised here, and the key list is handed to the Rust expression parser.
//! Every syntax error names the top-level token tree at fault, counted from
//! zero; the number of trees stands for the end of the input.
use crate::outside::{accepts_ident, char_text, is_ident, lex, parse_key_list};
use vstd::prelude::*;

verus! {

/// The delimiter of a token group.
#[derive(Clone, Copy, Debug, PartialEq, Eq, Structural)]
pub enum Delim {
    Paren,
    Bracket,
    Brace,
    Invisible,
}

/// One top-level token tree.
#[derive(Clone, Debug)]
pub enum Tree {
    Ident(String),
    /// A punctuation character, and whether it is joined to the next one.
    Punct(char, bool),
    Literal(String),
    /// A delimited group with the text of its inner stream.
    Group(Delim, String),
}

pub enum TreeView {
    Ident(Seq<char>),
    Punct(char, bool),
    Literal(Seq<char>),
    Group(Delim, Seq<char>),
}

impl View for Tree {
    type V = TreeView;

    open spec fn view(&self) -> TreeView {
        match self {
            Tree::Ident(s) => TreeView::Ident(s@),
            Tree::Punct(c, j) => TreeView::Punct(*c, *j),
            Tree::Literal(s) => TreeView::Literal(s@),
            Tree::Group(d, s) => TreeView::Group(*d, s@),
        }
    }
}

/// The names through which key expressions reach the structure.
#[derive(Clone, Debug)]
pub enum Binding {
    /// One name bound to a reference to the whole value.
    SingleName(String),
    /// One name per positional field, in order.
    Destructure(Vec<String>),
}

pub enum BindingView {
    SingleName(Seq<char>),
    Destructure(Seq<Seq<char>>),
}

pub open spec fn texts_view(v: Seq<String>) -> Seq<Seq<char>> {
    v.map_values(|s: String| s@)
}

impl View for Binding {
    type V = BindingView;

    open spec fn view(&self) -> BindingView {
        match self {
            Binding::SingleName(s) => BindingView::SingleName(s@),
            Binding::Destructure(v) => BindingView::Destructure(texts_view(v@)),
        }
    }
}

/// A parsed annotation: the binding and the key expressions in declared order.
#[derive(Clone, Debug)]
pub struct KeySpec {
    pub binding: Binding,
    pub keys: Vec<String>,
}

pub struct KeySpecView {
    pub binding: BindingView,
    pub keys: Seq<Seq<char>>,
}

impl View for KeySpec {
    type V = KeySpecView;

    open spec fn view(&self) -> KeySpecView {
        KeySpecView { binding: self.binding@, keys: texts_view(self.keys@) }
    }
}

/// Why an annotation was rejected, and at which top-level token tree.
#[derive(Clone, Copy, Debug, PartialEq, Eq, Structural)]
pub enum SyntaxError {
    /// The text does not lex into token trees.
    InvalidTokens,
    /// The annotation does not start with `|`.
    MissingOpeningBar(usize),
    /// No identifier or parenthesised identifier list follows the first `|`;
    /// within a list, the position of the first misplaced tree, if any.
    InvalidBinding(usize, Option<usize>),
    /// The binding is not followed by `|`.
    MissingClosingBar(usize),
    /// What follows the binding is not a comma-separated expression list; the
    /// tree at which the expression parser stopped.
    InvalidKeyList(usize),
    /// The expression list is empty.
    EmptyKeyList(usize),
}

pub open spec fn trees_view(ts: Seq<Tree>) -> Seq<TreeView> {
    ts.map_values(|t: Tree| t@)
}

pub open spec fn is_bar(t: TreeView) -> bool {
    match t {
        TreeView::Punct(c, _) => c == '|',
        _ => false,
    }
}

pub open spec fn is_comma(t: TreeView) -> bool {
    match t {
        TreeView::Punct(c, _) => c == ',',
        _ => false,
    }
}

pub open spec fn is_name(t: TreeView) -> bool {
    match t {
        TreeView::Ident(s) => is_ident(s),
        _ => false,
    }
}

pub open spec fn name_text(t: TreeView) -> Seq<char> {
    match t {
        TreeView::Ident(s) => s,
        _ => Seq::empty(),
    }
}

/// A name at each even position, a comma at each odd one.
pub open spec fn well_placed(ts: Seq<TreeView>, i: int) -> bool {
    if i % 2 == 0 {
        is_name(ts[i])
    } else {
        is_comma(ts[i])
    }
}

/// Names separated by commas, possibly none, with an optional trailing comma.
pub open spec fn is_name_list(ts: Seq<TreeView>) -> bool {
    forall|i: int| 0 <= i < ts.len() ==> #[trigger] well_placed(ts, i)
}

/// Position of the first misplaced tree from `i` on, or the number of trees.
pub open spec fn first_misplaced(ts: Seq<TreeView>, i: int) -> int
    decreases ts.len() - i,
{
    if i >= ts.len() || i < 0 {
        ts.len() as int
    } else if !well_placed(ts, i) {
        i
    } else {
        first_misplaced(ts, i + 1)
    }
}

pub open spec fn name_list(ts: Seq<TreeView>) -> Result<Seq<Seq<char>>, int> {
    if is_name_list(ts) {
        Ok(Seq::new(((ts.len() + 1) / 2) as nat, |k: int| name_text(ts[2 * k])))
    } else {
        Err(first_misplaced(ts, 0))
    }
}

/// The binding written by one tree, given the trees inside it as the lexer read
/// them, or where inside a group it went wrong.
pub open spec fn binding_of(t: TreeView, inner: Option<Seq<TreeView>>) -> Result<BindingView, Option<int>> {
    match t {
        TreeView::Ident(s) => if is_ident(s) {
            Ok(BindingView::SingleName(s))
        } else {
            Err(None)
        },
        TreeView::Group(Delim::Paren, _) => match inner {
            Some(ts) => match name_list(ts) {
                Ok(ns) => Ok(BindingView::Destructure(ns)),
                Err(p) => Err(Some(p)),
            },
            None => Err(None),
        },
        _ => Err(None),
    }
}

pub open spec fn tree_text(t: TreeView) -> Seq<char> {
    match t {
        TreeView::Ident(s) => s,
        TreeView::Punct(c, _) => seq![c],
        TreeView::Literal(s) => s,
        TreeView::Group(d, s) => match d {
            Delim::Paren => "("@ + s + ")"@,
            Delim::Bracket => "["@ + s + "]"@,
            Delim::Brace => "{"@ + s + "}"@,
            Delim::Invisible => s,
        },
    }
}

/// What separates a tree from the next when trees are written back as text:
/// nothing after a joined punctuation character, a space otherwise.
pub open spec fn gap(t: TreeView) -> Seq<char> {
    match t {
        TreeView::Punct(_, true) => Seq::empty(),
        _ => " "@,
    }
}

/// Token trees written back as text.
pub open spec fn joined(ts: Seq<TreeView>) -> Seq<char>
    decreases ts.len(),
{
    if ts.len() == 0 {
        Seq::empty()
    } else if ts.len() == 1 {
        tree_text(ts[0])
    } else {
        joined(ts.drop_last()) + gap(ts[ts.len() - 2]) + tree_text(ts.last())
    }
}

/// The character offset of a 1-based line and a 0-based column in `text`,
/// scanning from offset `i`, which stands at `(line_now, col_now)`; the text's
/// length when the text ends first.
pub open spec fn offset_of(text: Seq<char>, line: int, col: int, i: int, line_now: int, col_now: int) -> int
    decreases text.len() - i,
{
    if i >= text.len() || i < 0 {
        text.len() as int
    } else if line_now == line && col_now == col {
        i
    } else if text[i] == '\n' {
        offset_of(text, line, col, i + 1, line_now + 1, 0)
    } else {
        offset_of(text, line, col, i + 1, line_now, col_now + 1)
    }
}

/// Where tree `i` starts in the text of the trees from `start` on.
pub open spec fn tree_start(ts: Seq<TreeView>, start: int, i: int) -> int {
    if i <= start {
        0
    } else {
        (joined(ts.subrange(start, i)).len() + gap(ts[i - 1]).len()) as int
    }
}

/// The tree, from `i` on, in which the character at `offset` of the text of
/// the trees from `start` on lies: the last one that starts at or before it.
pub open spec fn tree_at(ts: Seq<TreeView>, start: int, offset: int, i: int) -> int
    decreases ts.len() - i,
{
    if i + 1 >= ts.len() {
        i
    } else if tree_start(ts, start, i + 1) <= offset {
        tree_at(ts, start, offset, i + 1)
    } else {
        i
    }
}

/// What the expression-list parser returned, as plain values.
pub open spec fn list_view(list: Result<Vec<String>, Option<(usize, usize)>>) -> Result<
    Seq<Seq<char>>,
    Option<(int, int)>,
> {
    match list {
        Ok(ks) => Ok(texts_view(ks@)),
        Err(Some((l, c))) => Err(Some((l as int, c as int))),
        Err(None) => Err(None),
    }
}

pub open spec fn inner_view(inner: Option<Vec<Tree>>) -> Option<Seq<TreeView>> {
    match inner {
        Some(ts) => Some(trees_view(ts@)),
        None => None,
    }
}

/// The key list, given what the expression-list parser returned for the text
/// of trees 3 onwards: its expressions, or the line and column at which it
/// stopped, or nothing when the input ran out.
pub open spec fn keys_result(ts: Seq<TreeView>, list: Result<Seq<Seq<char>>, Option<(int, int)>>) -> Result<
    Seq<Seq<char>>,
    SyntaxError,
> {
    let text = joined(ts.subrange(3, ts.len() as int));
    match list {
        Err(None) => Err(SyntaxError::InvalidKeyList(ts.len() as usize)),
        Err(Some((line, col))) => Err(
            SyntaxError::InvalidKeyList(tree_at(ts, 3, offset_of(text, line, col, 0, 1, 0), 3) as usize),
        ),
        Ok(ks) => if ks.len() == 0 {
            Err(SyntaxError::EmptyKeyList(ts.len() as usize))
        } else {
            Ok(ks)
        },
    }
}

/// The meaning of an annotation given as token trees, given the trees inside
/// the binding's group and what the expression-list parser returned.
pub open spec fn parse_spec(
    ts: Seq<TreeView>,
    inner: Option<Seq<TreeView>>,
    list: Result<Seq<Seq<char>>, Option<(int, int)>>,
) -> Result<KeySpecView, SyntaxError> {
    if ts.len() < 1 || !is_bar(ts[0]) {
        Err(SyntaxError::MissingOpeningBar(0))
    } else if ts.len() < 2 {
        Err(SyntaxError::InvalidBinding(1, None))
    } else if binding_of(ts[1], inner) is Err {
        Err(
            SyntaxError::InvalidBinding(
                1,
                match binding_of(ts[1], inner) {
                    Err(Some(p)) => Some(p as usize),
                    _ => None,
                },
            ),
        )
    } else if ts.len() < 3 || !is_bar(ts[2]) {
        Err(SyntaxError::MissingClosingBar(2))
    } else {
        match keys_result(ts, list) {
            Err(e) => Err(e),
            Ok(ks) => Ok(KeySpecView { binding: binding_of(ts[1], inner)->Ok_0, keys: ks }),
        }
    }
}

pub open spec fn is_paren_group(t: TreeView) -> bool {
    t matches TreeView::Group(Delim::Paren, _)
}

pub open spec fn spec_result_view(r: Result<KeySpec, SyntaxError>) -> Result<
    KeySpecView,
    SyntaxError,
> {
    match r {
        Ok(s) => Ok(s@),
        Err(e) => Err(e),
    }
}

/// A token tree written back as text.
pub fn tree_to_text(t: &Tree) -> (r: String)
    ensures
        r@ == tree_text(t@),
{
    match t {
        Tree::Ident(s) => s.clone(),
        Tree::Punct(c, _) => char_text(*c),
        Tree::Literal(s) => s.clone(),
        Tree::Group(d, s) => {
            let (open, close) = match d {
                Delim::Paren => ("(", ")"),
                Delim::Bracket => ("[", "]"),
                Delim::Brace => ("{", "}"),
                Delim::Invisible => ("", ""),
            };
            let mut out = String::from_str(open);
            out.append(s.as_str());
            out.append(close);
            proof {
                if *d == Delim::Invisible {
                    reveal_strlit("");
                    assert(out@ =~= s@);
                }
            }
            out
        },
    }
}

/// The trees from position `start` up to `end`, written back as text.
pub fn trees_text_range(ts: &Vec<Tree>, start: usize, end: usize) -> (r: String)
    requires
        start <= end <= ts@.len(),
    ensures
        r@ == joined(trees_view(ts@).subrange(start as int, end as int)),
{
    let ghost tv = trees_view(ts@);
    let mut out = String::new();
    let mut i: usize = start;
    while i < end
        invariant
            start <= i <= end <= ts@.len(),
            tv == trees_view(ts@),
            out@ == joined(tv.subrange(start as int, i as int)),
        decreases end - i,
    {
        if i > start {
            if !joint_punct(&ts[i - 1]) {
                out.append(" ");
            }
            proof {
                reveal_strlit(" ");
            }
        }
        let text = tree_to_text(&ts[i]);
        out.append(text.as_str());
        proof {
            let next = tv.subrange(start as int, i + 1);
            assert(next.drop_last() =~= tv.subrange(start as int, i as int));
            if i > start {
                assert(next[next.len() - 2] == tv[i - 1]);
            } else {
                assert(out@ =~= tree_text(tv[i as int]));
            }
        }
        i = i + 1;
    }
    out
}

fn joint_punct(t: &Tree) -> (r: bool)
    ensures
        gap(t@) == (if r {
            Seq::<char>::empty()
        } else {
            " "@
        }),
{
    match t {
        Tree::Punct(_, j) => *j,
        _ => false,
    }
}

/// The trees from position `start` on, written back as text.
pub fn trees_to_text(ts: &Vec<Tree>, start: usize) -> (r: String)
    requires
        start <= ts@.len(),
    ensures
        r@ == joined(trees_view(ts@).subrange(start as int, ts@.len() as int)),
{
    trees_text_range(ts, start, ts.len())
}

proof fn lemma_past_line(text: Seq<char>, line: int, col: int, i: int, line_now: int, col_now: int)
    requires
        line_now > line,
    ensures
        offset_of(text, line, col, i, line_now, col_now) == text.len(),
    decreases text.len() - i,
{
    if 0 <= i < text.len() {
        if text[i] == '\n' {
            lemma_past_line(text, line, col, i + 1, line_now + 1, 0);
        } else {
            lemma_past_line(text, line, col, i + 1, line_now, col_now + 1);
        }
    }
}

/// The character offset of a line (from 1) and column (from 0) in a text.
pub fn offset_in_text(text: &str, line: usize, col: usize) -> (r: usize)
    ensures
        r == offset_of(text@, line as int, col as int, 0, 1, 0),
{
    let n = text.unicode_len();
    let mut i: usize = 0;
    let mut line_now: usize = 1;
    let mut col_now: usize = 0;
    while i < n
        invariant
            n == text@.len(),
            0 <= i <= n,
            line_now <= i + 1,
            col_now <= i,
            offset_of(text@, line as int, col as int, 0, 1, 0) == offset_of(
                text@,
                line as int,
                col as int,
                i as int,
                line_now as int,
                col_now as int,
            ),
        decreases n - i,
    {
        if line_now == line && col_now == col {
            return i;
        }
        if text.get_char(i) == '\n' {
            if line_now >= line {
                proof {
                    lemma_past_line(text@, line as int, col as int, i + 1, line_now + 1, 0);
                }
                return n;
            }
            line_now = line_now + 1;
            col_now = 0;
        } else {
            col_now = col_now + 1;
        }
        i = i + 1;
    }
    n
}

/// Whether tree `i` starts after `offset` in the text of the trees from
/// `start` on.
fn starts_after(ts: &Vec<Tree>, start: usize, i: usize, offset: usize) -> (r: bool)
    requires
        start < i <= ts@.len(),
    ensures
        r == (tree_start(trees_view(ts@), start as int, i as int) > offset),
{
    let text = trees_text_range(ts, start, i);
    let n = text.as_str().unicode_len();
    if joint_punct(&ts[i - 1]) {
        n > offset
    } else {
        proof {
            reveal_strlit(" ");
        }
        n >= offset
    }
}

/// The tree, from `start` on, in which the character at `offset` of the text
/// of those trees lies.
pub fn tree_at_offset(ts: &Vec<Tree>, start: usize, offset: usize) -> (r: usize)
    ensures
        r == tree_at(trees_view(ts@), start as int, offset as int, start as int),
{
    let mut i: usize = start;
    while i < ts.len() && i + 1 < ts.len()
        invariant
            start <= i,
            tree_at(trees_view(ts@), start as int, offset as int, start as int) == tree_at(
                trees_view(ts@),
                start as int,
                offset as int,
                i as int,
            ),
        decreases ts@.len() - i,
    {
        if starts_after(ts, start, i + 1, offset) {
            return i;
        }
        i = i + 1;
    }
    i
}

proof fn lemma_first_misplaced_skip(ts: Seq<TreeView>, i: int)
    requires
        0 <= i <= ts.len(),
        forall|j: int| 0 <= j < i ==> #[trigger] well_placed(ts, j),
    ensures
        first_misplaced(ts, 0) == first_misplaced(ts, i),
    decreases i,
{
    if i > 0 {
        lemma_first_misplaced_skip(ts, i - 1);
    }
}

/// The names of a destructuring binding, read from the trees inside its
/// parentheses, or the position of the first misplaced tree.
pub fn names_from_trees(ts: &Vec<Tree>) -> (r: Result<Vec<String>, usize>)
    ensures
        r.is_ok() == name_list(trees_view(ts@)).is_ok(),
        r.is_ok() ==> texts_view(r->Ok_0@) == name_list(trees_view(ts@))->Ok_0,
        r.is_err() ==> r->Err_0 as int == name_list(trees_view(ts@))->Err_0,
{
    let ghost tv = trees_view(ts@);
    let n = ts.len();
    let mut names: Vec<String> = Vec::new();
    let mut i: usize = 0;
    while i < n
        invariant
            n == ts@.len(),
            tv == trees_view(ts@),
            0 <= i <= n,
            names@.len() == (i + 1) / 2,
            forall|j: int| 0 <= j < i ==> #[trigger] well_placed(tv, j),
            forall|k: int| 0 <= k < names@.len() ==> (#[trigger] names@[k])@ == name_text(tv[2 * k]),
        decreases n - i,
    {
        let placed = if i % 2 == 0 {
            match &ts[i] {
                Tree::Ident(s) => if accepts_ident(s.as_str()) {
                    names.push(s.clone());
                    true
                } else {
                    false
                },
                _ => false,
            }
        } else {
            match &ts[i] {
                Tree::Punct(c, _) => *c == ',',
                _ => false,
            }
        };
        if !placed {
            proof {
                assert(!well_placed(tv, i as int));
                lemma_first_misplaced_skip(tv, i as int);
                assert(!is_name_list(tv));
            }
            return Err(i);
        }
        i = i + 1;
    }
    proof {
        assert(is_name_list(tv));
        assert(texts_view(names@) =~= name_list(tv)->Ok_0);
    }
    Ok(names)
}

pub open spec fn binding_result_view(r: Result<Binding, Option<usize>>) -> Result<BindingView, Option<int>> {
    match r {
        Ok(b) => Ok(b@),
        Err(Some(p)) => Err(Some(p as int)),
        Err(None) => Err(None),
    }
}

/// The binding written by one token tree, given the trees inside it as the
/// lexer read them: a plain identifier, or a parenthesised, comma-separated
/// list of identifiers. On failure, the position inside the group of the first
/// misplaced tree, if any.
pub fn binding_from_trees(t: &Tree, inner: Option<Vec<Tree>>) -> (r: Result<Binding, Option<usize>>)
    ensures
        binding_result_view(r) == binding_of(t@, inner_view(inner)),
{
    match t {
        Tree::Ident(s) => {
            if accepts_ident(s.as_str()) {
                Ok(Binding::SingleName(s.clone()))
            } else {
                Err(None)
            }
        },
        Tree::Group(Delim::Paren, _) => match inner {
            Some(ts) => match names_from_trees(&ts) {
                Ok(names) => Ok(Binding::Destructure(names)),
                Err(p) => Err(Some(p)),
            },
            None => Err(None),
        },
        _ => Err(None),
    }
}

/// Lexes the inside of a parenthesised group; nothing for any other tree.
fn lex_group(t: &Tree) -> Option<Vec<Tree>> {
    match t {
        Tree::Group(Delim::Paren, text) => lex(text.as_str()),
        _ => None,
    }
}

/// The binding written by one token tree, lexing the inside of a group.
pub fn parse_binding(t: &Tree) -> (r: Result<Binding, Option<usize>>)
    ensures
        exists|inner: Option<Seq<TreeView>>| binding_result_view(r) == binding_of(t@, inner),
        is_name(t@) ==> binding_result_view(r) == Ok::<BindingView, Option<int>>(
            BindingView::SingleName(name_text(t@)),
        ),
        !is_name(t@) && !is_paren_group(t@) ==> r == Err::<Binding, Option<usize>>(None),
{
    let inner = lex_group(t);
    let ghost iv = inner_view(inner);
    let r = binding_from_trees(t, inner);
    assert(binding_result_view(r) == binding_of(t@, iv));
    r
}

/// The key expressions, from what the expression-list parser returned for
/// the text of trees 3 onwards of `ts`.
pub fn keys_from_list(ts: &Vec<Tree>, list: Result<Vec<String>, Option<(usize, usize)>>) -> (r: Result<
    Vec<String>,
    SyntaxError,
>)
    requires
        ts@.len() >= 3,
    ensures
        match r {
            Ok(ks) => keys_result(trees_view(ts@), list_view(list)) == Ok::<
                Seq<Seq<char>>,
                SyntaxError,
            >(texts_view(ks@)),
            Err(e) => keys_result(trees_view(ts@), list_view(list)) == Err::<
                Seq<Seq<char>>,
                SyntaxError,
            >(e),
        },
{
    match list {
        Err(None) => Err(SyntaxError::InvalidKeyList(ts.len())),
        Err(Some((line, col))) => {
            let text = trees_to_text(ts, 3);
            let offset = offset_in_text(text.as_str(), line, col);
            Err(SyntaxError::InvalidKeyList(tree_at_offset(ts, 3, offset)))
        },
        Ok(ks) => if ks.len() == 0 {
            Err(SyntaxError::EmptyKeyList(ts.len()))
        } else {
            Ok(ks)
        },
    }
}

fn is_bar_tree(t: &Tree) -> (r: bool)
    ensures
        r == is_bar(t@),
{
    match t {
        Tree::Punct(c, _) => *c == '|',
        _ => false,
    }
}

/// Parses an annotation given as top-level token trees, given the trees inside
/// the binding's group and what the expression-list parser returned for the
/// text of trees 3 onwards.
pub fn parse_trees_given(
    ts: &Vec<Tree>,
    inner: Option<Vec<Tree>>,
    list: Result<Vec<String>, Option<(usize, usize)>>,
) -> (r: Result<KeySpec, SyntaxError>)
    ensures
        spec_result_view(r) == parse_spec(trees_view(ts@), inner_view(inner), list_view(list)),
{
    if ts.len() < 1 || !is_bar_tree(&ts[0]) {
        return Err(SyntaxError::MissingOpeningBar(0));
    }
    if ts.len() < 2 {
        return Err(SyntaxError::InvalidBinding(1, None));
    }
    let binding = match binding_from_trees(&ts[1], inner) {
        Ok(b) => b,
        Err(p) => {
            return Err(SyntaxError::InvalidBinding(1, p));
        },
    };
    if ts.len() < 3 || !is_bar_tree(&ts[2]) {
        return Err(SyntaxError::MissingClosingBar(2));
    }
    match keys_from_list(ts, list) {
        Ok(keys) => Ok(KeySpec { binding, keys }),
        Err(e) => Err(e),
    }
}

/// Parses an annotation given as top-level token trees, lexing the inside of
/// the binding's group and handing the text of trees 3 onwards to the
/// expression-list parser.
pub fn parse_trees(ts: &Vec<Tree>) -> (r: Result<KeySpec, SyntaxError>)
    ensures
        exists|
            inner: Option<Seq<TreeView>>,
            list: Result<Seq<Seq<char>>, Option<(int, int)>>,
        |
            spec_result_view(r) == parse_spec(trees_view(ts@), inner, list),
        (r == Err::<KeySpec, SyntaxError>(SyntaxError::MissingOpeningBar(0))) == (ts@.len() < 1
            || !is_bar(ts@[0]@)),
        ts@.len() >= 2 && is_bar(ts@[0]@) && !is_name(ts@[1]@) && !is_paren_group(ts@[1]@)
            ==> r == Err::<KeySpec, SyntaxError>(SyntaxError::InvalidBinding(1, None)),
        r == Err::<KeySpec, SyntaxError>(SyntaxError::MissingClosingBar(2)) ==> ts@.len() < 3
            || !is_bar(ts@[2]@),
        ts@.len() >= 2 && is_bar(ts@[0]@) && is_name(ts@[1]@) && (ts@.len() < 3 || !is_bar(ts@[2]@))
            ==> r == Err::<KeySpec, SyntaxError>(SyntaxError::MissingClosingBar(2)),
        r is Ok ==> ts@.len() >= 3 && is_bar(ts@[0]@) && is_bar(ts@[2]@) && r->Ok_0.keys@.len() > 0,
        r is Ok && is_name(ts@[1]@) ==> r->Ok_0.binding@ == BindingView::SingleName(name_text(ts@[1]@)),
        r is Ok && !is_name(ts@[1]@) ==> r->Ok_0.binding is Destructure,
{
    let inner = if ts.len() >= 2 {
        lex_group(&ts[1])
    } else {
        None
    };
    let list = if ts.len() >= 3 && is_bar_tree(&ts[0]) && is_bar_tree(&ts[2]) {
        let rest = trees_to_text(ts, 3);
        parse_key_list(rest.as_str())
    } else {
        Err(None)
    };
    let ghost iv = inner_view(inner);
    let ghost lv = list_view(list);
    let r = parse_trees_given(ts, inner, list);
    proof {
        let tv = trees_view(ts@);
        assert(spec_result_view(r) == parse_spec(tv, iv, lv));
        if ts@.len() >= 1 {
            assert(tv[0] == ts@[0]@);
        }
        if ts@.len() >= 2 {
            assert(tv[1] == ts@[1]@);
        }
        if ts@.len() >= 3 {
            assert(tv[2] == ts@[2]@);
        }
        if r is Ok {
            assert(texts_view(r->Ok_0.keys@).len() == r->Ok_0.keys@.len());
        }
    }
    r
}

/// Parses an annotation given as text: lexes it, then parses the trees.
pub fn parse_attribute(text: &str) -> (r: Result<KeySpec, SyntaxError>)
    ensures
        r == Err::<KeySpec, SyntaxError>(SyntaxError::InvalidTokens) || exists|
            ts: Seq<TreeView>,
            inner: Option<Seq<TreeView>>,
            list: Result<Seq<Seq<char>>, Option<(int, int)>>,
        | spec_result_view(r) == parse_spec(ts, inner, list),
{
    match lex(text) {
        Some(ts) => {
            let r = parse_trees(&ts);
            r
        },
        None => Err(SyntaxError::InvalidTokens),
    }
}

} // verus!

use ord_by_key::syntax::{
    binding_from_trees, keys_from_list, parse_trees, parse_trees_given, names_from_trees, offset_in_text, parse_attribute, parse_binding, tree_at_offset, trees_to_text, Binding, Delim,
    SyntaxError, Tree,
};

fn single(b: &Binding) -> Option<&str> {
    match b {
        Binding::SingleName(n) => Some(n.as_str()),
        _ => None,
    }
}

fn names(b: &Binding) -> Option<Vec<&str>> {
    match b {
        Binding::Destructure(v) => Some(v.iter().map(|s| s.as_str()).collect()),
        _ => None,
    }
}

#[test]
fn single_name_binding() {
    let spec = parse_attribute("|p| p.age").unwrap();
    assert_eq!(single(&spec.binding), Some("p"));
    assert_eq!(spec.keys.len(), 1);
    assert_eq!(spec.keys[0].replace(' ', ""), "p.age");
}

#[test]
fn several_keys_in_order_with_trailing_comma() {
    let spec = parse_attribute("|p| &p.last_name, &p.first_name, Reverse(p.age),").unwrap();
    let keys: Vec<String> = spec.keys.iter().map(|k| k.replace(' ', "")).collect();
    assert_eq!(keys, vec!["&p.last_name", "&p.first_name", "Reverse(p.age)"]);
}

#[test]
fn destructure_binding() {
    let spec = parse_attribute("|(i)| i.abs(), i").unwrap();
    assert_eq!(names(&spec.binding), Some(vec!["i"]));
    assert_eq!(spec.keys.len(), 2);
    let spec = parse_attribute("|(value, iter)| value").unwrap();
    assert_eq!(names(&spec.binding), Some(vec!["value", "iter"]));
}

#[test]
fn commas_inside_keys_stay_inside() {
    let spec = parse_attribute("|p| f::<u8, u16>(p.a, p.b), { let x = (1, 2); x }").unwrap();
    assert_eq!(spec.keys.len(), 2);
}

#[test]
fn syntax_errors() {
    assert_eq!(parse_attribute("p| p.x").unwrap_err(), SyntaxError::MissingOpeningBar(0));
    assert_eq!(parse_attribute("").unwrap_err(), SyntaxError::MissingOpeningBar(0));
    assert_eq!(parse_attribute("|fn| 1").unwrap_err(), SyntaxError::InvalidBinding(1, None));
    assert_eq!(parse_attribute("|| 1").unwrap_err(), SyntaxError::InvalidBinding(1, None));
    assert_eq!(parse_attribute("|1| 1").unwrap_err(), SyntaxError::InvalidBinding(1, None));
    assert_eq!(parse_attribute("|&p| 1").unwrap_err(), SyntaxError::InvalidBinding(1, None));
    assert_eq!(parse_attribute("|").unwrap_err(), SyntaxError::InvalidBinding(1, None));
    assert_eq!(parse_attribute("|(a, 1)| a").unwrap_err(), SyntaxError::InvalidBinding(1, Some(2)));
    assert_eq!(parse_attribute("|(a b)| a").unwrap_err(), SyntaxError::InvalidBinding(1, Some(1)));
    assert_eq!(parse_attribute("|(,)| 1").unwrap_err(), SyntaxError::InvalidBinding(1, Some(0)));
    assert_eq!(parse_attribute("|[a]| a").unwrap_err(), SyntaxError::InvalidBinding(1, None));
    assert_eq!(parse_attribute("|p p.x").unwrap_err(), SyntaxError::MissingClosingBar(2));
    assert_eq!(parse_attribute("|p").unwrap_err(), SyntaxError::MissingClosingBar(2));
    assert_eq!(parse_attribute("|p|").unwrap_err(), SyntaxError::EmptyKeyList(3));
    assert_eq!(parse_attribute("|p| (").unwrap_err(), SyntaxError::InvalidTokens);
}

#[test]
fn key_list_errors_name_the_tree() {
    assert_eq!(parse_attribute("|p| ,").unwrap_err(), SyntaxError::InvalidKeyList(3));
    assert_eq!(parse_attribute("|p| a b").unwrap_err(), SyntaxError::InvalidKeyList(4));
    assert_eq!(parse_attribute("|p| p.x p.y").unwrap_err(), SyntaxError::InvalidKeyList(6));
    assert_eq!(parse_attribute("|p| f(a b)").unwrap_err(), SyntaxError::InvalidKeyList(4));
    assert_eq!(parse_attribute("|p| a +").unwrap_err(), SyntaxError::InvalidKeyList(5));
}

#[test]
fn empty_and_trailing_comma_destructure() {
    let spec = parse_attribute("|()| 1").unwrap();
    assert_eq!(names(&spec.binding), Some(vec![]));
    let spec = parse_attribute("|(a,)| a").unwrap();
    assert_eq!(names(&spec.binding), Some(vec!["a"]));
    let spec = parse_attribute("|(a, b,)| a").unwrap();
    assert_eq!(names(&spec.binding), Some(vec!["a", "b"]));
}

#[test]
fn binding_from_single_tree() {
    let b = parse_binding(&Tree::Ident("abc".to_string())).unwrap();
    assert_eq!(single(&b), Some("abc"));
    let b = parse_binding(&Tree::Group(Delim::Paren, "a , b".to_string())).unwrap();
    assert_eq!(names(&b), Some(vec!["a", "b"]));
    assert_eq!(parse_binding(&Tree::Group(Delim::Bracket, "a".to_string())).unwrap_err(), None);
    assert_eq!(parse_binding(&Tree::Punct('|', false)).unwrap_err(), None);
    assert_eq!(parse_binding(&Tree::Group(Delim::Paren, "a , , b".to_string())).unwrap_err(), Some(2));
    assert_eq!(names(&parse_binding(&Tree::Group(Delim::Paren, "".to_string())).unwrap()), Some(vec![]));
}

#[test]
fn trees_written_back() {
    let ts = vec![
        Tree::Punct(':', true),
        Tree::Punct(':', false),
        Tree::Ident("x".to_string()),
        Tree::Group(Delim::Paren, "1".to_string()),
        Tree::Literal("\"s\"".to_string()),
    ];
    assert_eq!(trees_to_text(&ts, 0), ":: x (1) \"s\"");
    assert_eq!(trees_to_text(&ts, 2), "x (1) \"s\"");
    assert_eq!(trees_to_text(&ts, 5), "");
}

#[test]
fn names_inside_group() {
    let ident = |s: &str| Tree::Ident(s.to_string());
    let comma = Tree::Punct(',', false);
    assert_eq!(names_from_trees(&vec![]).unwrap().len(), 0);
    assert_eq!(names_from_trees(&vec![ident("a"), comma.clone(), ident("b")]).unwrap(), vec!["a", "b"]);
    assert_eq!(names_from_trees(&vec![ident("a"), comma.clone()]).unwrap(), vec!["a"]);
    assert_eq!(names_from_trees(&vec![ident("a"), ident("b")]).unwrap_err(), 1);
    assert_eq!(names_from_trees(&vec![ident("self")]).unwrap_err(), 0);
}

#[test]
fn line_and_column_to_offset() {
    assert_eq!(offset_in_text("ab\ncd", 1, 1), 1);
    assert_eq!(offset_in_text("ab\ncd", 2, 0), 3);
    assert_eq!(offset_in_text("ab\ncd", 2, 1), 4);
    assert_eq!(offset_in_text("ab\ncd", 1, 5), 5);
    assert_eq!(offset_in_text("ab\ncd", 3, 0), 5);
}

#[test]
fn offset_to_tree() {
    let ts = vec![
        Tree::Punct('|', false),
        Tree::Ident("p".to_string()),
        Tree::Punct('|', false),
        Tree::Ident("ab".to_string()),
        Tree::Punct(':', true),
        Tree::Punct(':', false),
        Tree::Ident("c".to_string()),
    ];
    // "ab :: c"
    assert_eq!(tree_at_offset(&ts, 3, 0), 3);
    assert_eq!(tree_at_offset(&ts, 3, 2), 3);
    assert_eq!(tree_at_offset(&ts, 3, 3), 4);
    assert_eq!(tree_at_offset(&ts, 3, 4), 5);
    assert_eq!(tree_at_offset(&ts, 3, 6), 6);
    assert_eq!(tree_at_offset(&ts, 3, 60), 6);
}

fn ident(s: &str) -> Tree {
    Tree::Ident(s.to_string())
}

fn bar() -> Tree {
    Tree::Punct('|', false)
}

#[test]
fn binding_from_given_inner_trees() {
    let group = Tree::Group(Delim::Paren, "ignored".to_string());
    let inner = vec![ident("x"), Tree::Punct(',', false), ident("y")];
    assert_eq!(names(&binding_from_trees(&group, Some(inner)).unwrap()), Some(vec!["x", "y"]));
    assert_eq!(binding_from_trees(&group, None).unwrap_err(), None);
    assert_eq!(binding_from_trees(&group, Some(vec![Tree::Literal("1".to_string())])).unwrap_err(), Some(0));
    assert_eq!(single(&binding_from_trees(&ident("q"), None).unwrap()), Some("q"));
}

#[test]
fn parse_with_given_outside_results() {
    let ts = vec![bar(), ident("p"), bar(), ident("a"), ident("b")];
    let spec = parse_trees_given(&ts, None, Ok(vec!["k1".to_string(), "k2".to_string()])).unwrap();
    assert_eq!(single(&spec.binding), Some("p"));
    assert_eq!(spec.keys, vec!["k1", "k2"]);
    // "a b": a stop at column 2 is tree 4.
    assert_eq!(parse_trees_given(&ts, None, Err(Some((1, 2)))).unwrap_err(), SyntaxError::InvalidKeyList(4));
    assert_eq!(parse_trees_given(&ts, None, Err(None)).unwrap_err(), SyntaxError::InvalidKeyList(5));
    assert_eq!(parse_trees_given(&ts, None, Ok(vec![])).unwrap_err(), SyntaxError::EmptyKeyList(5));
    let short = vec![bar(), ident("p")];
    assert_eq!(parse_trees_given(&short, None, Ok(vec!["k".to_string()])).unwrap_err(), SyntaxError::MissingClosingBar(2));
    assert_eq!(keys_from_list(&ts, Err(Some((1, 0)))).unwrap_err(), SyntaxError::InvalidKeyList(3));
}

#[test]
fn parse_from_trees() {
    let ts = vec![bar(), ident("p"), bar(), ident("p"), Tree::Punct('.', false), ident("x")];
    let spec = parse_trees(&ts).unwrap();
    assert_eq!(single(&spec.binding), Some("p"));
    assert_eq!(spec.keys.len(), 1);
    assert_eq!(parse_trees(&vec![ident("p")]).unwrap_err(), SyntaxError::MissingOpeningBar(0));
}

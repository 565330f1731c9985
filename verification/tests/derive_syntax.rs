use domain::derive_syntax::{
    is_punct, parse_attr, parse_attr_prefix, parse_kv_args, parse_named_decl, split_by_top_level_comma, Delimiter,
    Group, TokenTree,
};

fn ident(s: &str) -> TokenTree {
    TokenTree::Ident(s.to_string())
}

fn punct(c: char) -> TokenTree {
    TokenTree::Punct(c)
}

fn lit(s: &str) -> TokenTree {
    TokenTree::Literal(s.to_string())
}

fn group(delimiter: Delimiter, stream: Vec<TokenTree>, text: &str) -> TokenTree {
    TokenTree::Group(Group { delimiter, stream, text: text.to_string() })
}

fn texts(segment: &[&TokenTree]) -> Vec<String> {
    segment
        .iter()
        .map(|t| match t {
            TokenTree::Ident(s) | TokenTree::Literal(s) => s.clone(),
            TokenTree::Punct(c) => c.to_string(),
            TokenTree::Group(g) => g.text.clone(),
        })
        .collect()
}

#[test]
fn splits_only_at_commas_outside_angle_brackets() {
    // a: Map<K, V>, b: u8
    let tokens = vec![
        ident("a"),
        punct(':'),
        ident("Map"),
        punct('<'),
        ident("K"),
        punct(','),
        ident("V"),
        punct('>'),
        punct(','),
        ident("b"),
        punct(':'),
        ident("u8"),
    ];
    let parts = split_by_top_level_comma(&tokens);
    assert_eq!(parts.len(), 2);
    assert_eq!(texts(&parts[0]), vec!["a", ":", "Map", "<", "K", ",", "V", ">"]);
    assert_eq!(texts(&parts[1]), vec!["b", ":", "u8"]);

    let trailing = vec![ident("x"), punct(',')];
    let parts = split_by_top_level_comma(&trailing);
    assert_eq!(parts.len(), 2);
    assert!(parts[1].is_empty());
    assert_eq!(split_by_top_level_comma(&[]).len(), 1);

    // a stray `>` does not take the depth below zero
    let stray = vec![punct('>'), punct(','), ident("y")];
    assert_eq!(split_by_top_level_comma(&stray).len(), 2);
}

#[test]
fn reads_key_value_arguments() {
    // rename = "px", factor = 1.0, junk, = 3
    let tokens = vec![
        ident("rename"),
        punct('='),
        lit("\"px\""),
        punct(','),
        ident("factor"),
        punct('='),
        lit("1.0"),
        punct(','),
        ident("junk"),
        punct(','),
        punct('='),
        lit("3"),
    ];
    let args = parse_kv_args(&tokens);
    assert_eq!(
        args,
        vec![("rename".to_string(), "\"px\"".to_string()), ("factor".to_string(), "1.0".to_string())]
    );
    assert!(is_punct(&punct('='), '='));
    assert!(!is_punct(&ident("="), '='));
}

#[test]
fn reads_attributes_and_reports_malformed_ones() {
    let args = group(Delimiter::Parenthesis, vec![ident("rename"), punct('='), lit("\"em\"")], "(rename = \"em\")");
    let unit = Group { delimiter: Delimiter::Bracket, stream: vec![ident("unit"), args], text: String::new() };
    let attr = parse_attr(&unit).unwrap();
    assert_eq!(attr.name, "unit");
    assert_eq!(attr.args, vec![("rename".to_string(), "\"em\"".to_string())]);

    let bare = Group { delimiter: Delimiter::Bracket, stream: vec![ident("derive")], text: String::new() };
    assert!(parse_attr(&bare).unwrap().args.is_empty());

    let empty = Group { delimiter: Delimiter::Bracket, stream: vec![], text: String::new() };
    assert_eq!(parse_attr(&empty).unwrap_err(), "Malformed attribute syntax");
    let braces = Group {
        delimiter: Delimiter::Bracket,
        stream: vec![ident("unit"), group(Delimiter::Brace, vec![], "{}")],
        text: String::new(),
    };
    assert_eq!(parse_attr(&braces).unwrap_err(), "Malformed attribute syntax");
}

#[test]
fn strips_attribute_prefix() {
    let tokens = vec![
        punct('#'),
        group(Delimiter::Bracket, vec![ident("item_line")], "[item_line]"),
        punct('#'),
        group(Delimiter::Bracket, vec![ident("doc")], "[doc]"),
        ident("pub"),
        ident("struct"),
    ];
    let (attrs, n) = parse_attr_prefix(&tokens).unwrap();
    assert_eq!(n, 4);
    assert_eq!(attrs.len(), 2);
    assert_eq!(attrs[0].name, "item_line");
    assert_eq!(attrs[1].name, "doc");

    let bad = vec![punct('#'), ident("oops")];
    assert_eq!(parse_attr_prefix(&bad).unwrap_err(), "Malformed attribute syntax");
}

#[test]
fn finds_named_declarations() {
    let body = group(Delimiter::Brace, vec![ident("Px")], "{ Px }");
    let tokens = vec![ident("pub"), ident("enum"), ident("LengthUnit"), body];
    let (index, name, found) = parse_named_decl(&tokens, "enum", "not an enum", "no body").unwrap();
    assert_eq!(index, 1);
    assert_eq!(name, "LengthUnit");
    assert_eq!(found.text, "{ Px }");

    assert_eq!(parse_named_decl(&tokens, "struct", "not a struct", "no body").unwrap_err(), "not a struct");
    let tuple = vec![ident("struct"), ident("P"), group(Delimiter::Parenthesis, vec![], "()"), punct(';')];
    assert_eq!(parse_named_decl(&tuple, "struct", "not a struct", "no body").unwrap_err(), "no body");
    let unnamed = vec![ident("struct"), punct('<')];
    assert_eq!(parse_named_decl(&unnamed, "struct", "not a struct", "no body").unwrap_err(), "not a struct");
}

use fields_glob::declare::parse_fields_declare;
use fields_glob::fields_glob_derive;
use fields_glob::token::Delim;
use fields_glob::token::Token;

fn id(t: &str, s: usize) -> Token {
    Token::Ident { text: t.to_string(), span: s }
}

fn lone(c: char, s: usize) -> Token {
    Token::Punct { ch: c, joint: false, span: s }
}

fn joint(c: char, s: usize) -> Token {
    Token::Punct { ch: c, joint: true, span: s }
}

fn lit(t: &str, s: usize) -> Token {
    Token::Lit { text: t.to_string(), span: s }
}

fn grp(d: Delim, body: Vec<Token>, s: usize) -> Token {
    Token::Group { delim: d, body, span: s }
}

fn foo_body_tokens() -> Vec<Token> {
    vec![id("x", 4), lone(':', 5), id("i32", 6)]
}

/// The expansion rule derived for `struct Foo { x: i32 }`, token for token.
/// Every synthesized token carries the record identifier's location; the
/// forwarded field-list body keeps its own.
fn expected_rule(a: usize) -> Vec<Token> {
    let matcher = grp(
        Delim::Paren,
        vec![
            lone('$', a),
            grp(Delim::Paren, vec![lone('$', a), id("t", a), lone(':', a), id("tt", a)], a),
            lone('*', a),
        ],
        a,
    );
    let dispatch = grp(
        Delim::Brace,
        vec![
            id("Foo", a),
            grp(Delim::Brace, foo_body_tokens(), 3),
            lone('$', a),
            grp(Delim::Paren, vec![lone('$', a), id("t", a)], a),
            lone('*', a),
        ],
        a,
    );
    let arm = grp(
        Delim::Brace,
        vec![
            joint(':', a),
            lone(':', a),
            id("fields_glob", a),
            joint(':', a),
            lone(':', a),
            id("fields_glob_impl", a),
            lone('!', a),
            dispatch,
        ],
        a,
    );
    let rule = grp(Delim::Brace, vec![matcher, joint('=', a), lone('>', a), arm, lone(';', a)], a);
    vec![
        lone('#', a),
        grp(
            Delim::Bracket,
            vec![
                id("doc", a),
                lone('=', a),
                lit("\"`Foo! {}` fields_glob support macro\"", a),
            ],
            a,
        ),
        id("macro_rules", a),
        lone('!', a),
        id("Foo", a),
        rule,
    ]
}

#[test]
fn derive_emits_rule() {
    let decl = vec![id("struct", 1), id("Foo", 2), grp(Delim::Brace, foo_body_tokens(), 3)];
    let out = fields_glob_derive(&decl);
    assert_eq!(out, expected_rule(2));
}

#[test]
fn derive_with_export_marker() {
    let decl = vec![
        lone('#', 10),
        grp(Delim::Bracket, vec![id("fields_glob_export_macro", 11)], 12),
        id("struct", 1),
        id("Foo", 2),
        grp(Delim::Brace, foo_body_tokens(), 3),
    ];
    let out = fields_glob_derive(&decl);
    let mut expected = vec![
        lone('#', 2),
        grp(Delim::Bracket, vec![id("macro_export", 2)], 2),
    ];
    expected.extend(expected_rule(2));
    assert_eq!(out, expected);
}

#[test]
fn derive_skips_visibility() {
    let decl = vec![
        id("pub", 0),
        id("struct", 1),
        id("Foo", 2),
        grp(Delim::Brace, foo_body_tokens(), 3),
    ];
    let out = fields_glob_derive(&decl);
    assert_eq!(out, expected_rule(2));
}

#[test]
fn derive_skips_restricted_visibility() {
    let decl = vec![
        id("pub", 0),
        grp(Delim::Paren, vec![id("crate", 5)], 6),
        id("struct", 1),
        id("Foo", 2),
        grp(Delim::Brace, foo_body_tokens(), 3),
    ];
    let out = fields_glob_derive(&decl);
    assert_eq!(out, expected_rule(2));
}

#[test]
fn unit_like_refused() {
    let decl = vec![id("struct", 1), id("Foo", 2), lone(';', 3)];
    let out = fields_glob_derive(&decl);
    let expected = vec![
        id("compile_error", 3),
        lone('!', 3),
        grp(
            Delim::Brace,
            vec![lit("\"fields_glob cannot support unit-like struct\"", 3)],
            3,
        ),
    ];
    assert_eq!(out, expected);
}

#[test]
fn tuple_like_refused() {
    let decl = vec![
        id("struct", 1),
        id("Foo", 2),
        grp(Delim::Paren, vec![id("i32", 4)], 3),
        lone(';', 5),
    ];
    let out = fields_glob_derive(&decl);
    let expected = vec![
        id("compile_error", 3),
        lone('!', 3),
        grp(
            Delim::Brace,
            vec![lit("\"fields_glob only support named field struct\"", 3)],
            3,
        ),
    ];
    assert_eq!(out, expected);
}

#[test]
fn non_struct_refused() {
    let decl = vec![id("enum", 1), id("Foo", 2), grp(Delim::Brace, vec![], 3)];
    let out = fields_glob_derive(&decl);
    let expected = vec![
        id("compile_error", 1),
        lone('!', 1),
        grp(Delim::Brace, vec![lit("\"fields_glob only support struct\"", 1)], 1),
    ];
    assert_eq!(out, expected);
}

#[test]
fn catalog_skips_attrs_and_visibility() {
    let inner = vec![
        lone('#', 1),
        grp(Delim::Bracket, vec![id("serde", 2)], 3),
        id("pub", 4),
        id("x", 5),
        lone(':', 6),
        id("i32", 7),
        lone(',', 8),
        id("pub", 9),
        grp(Delim::Paren, vec![id("crate", 10)], 11),
        id("y", 12),
        lone(':', 13),
        id("i32", 14),
        lone(',', 15),
    ];
    let names = parse_fields_declare(&inner);
    assert_eq!(names, vec!["x".to_string(), "y".to_string()]);
}

#[test]
fn catalog_ignores_path_colons() {
    // `Box<i32, std::alloc::Global>` splits at its inner comma, but `std`
    // is followed by a tightly bound colon and names no field.
    let inner = vec![
        id("b", 1),
        lone(':', 2),
        id("Box", 3),
        lone('<', 4),
        id("i32", 5),
        lone(',', 6),
        id("std", 7),
        joint(':', 8),
        lone(':', 8),
        id("alloc", 9),
        joint(':', 10),
        lone(':', 10),
        id("Global", 11),
        lone('>', 12),
    ];
    let names = parse_fields_declare(&inner);
    assert_eq!(names, vec!["b".to_string()]);
}

#[test]
fn missing_name_refused() {
    let decl = vec![id("struct", 1), lone('!', 2), grp(Delim::Brace, vec![], 3)];
    let out = fields_glob_derive(&decl);
    let expected = vec![
        id("compile_error", 2),
        lone('!', 2),
        grp(
            Delim::Brace,
            vec![lit("\"fields_glob expected a struct name\"", 2)],
            2,
        ),
    ];
    assert_eq!(out, expected);
}

#[test]
fn forwarded_input_without_name_refused() {
    // The generated rule always forwards an identifier first; anything else
    // is refused as malformed.
    let input = vec![lit("1", 7), grp(Delim::Brace, vec![], 8)];
    let out = fields_glob::fields_glob_impl(&input);
    let expected = vec![
        id("compile_error", 7),
        lone('!', 7),
        grp(
            Delim::Brace,
            vec![lit("\"invalid input, expected struct name\"", 7)],
            7,
        ),
    ];
    assert_eq!(out, expected);
}

#[test]
fn brace_body_with_trailing_semicolon_accepted() {
    let decl = vec![
        id("struct", 1),
        id("Foo", 2),
        grp(Delim::Brace, foo_body_tokens(), 3),
        lone(';', 4),
    ];
    let out = fields_glob_derive(&decl);
    assert_eq!(out, expected_rule(2));
}

use fields_glob::fields_glob_impl;
use fields_glob::token::Delim;
use fields_glob::token::Token;

fn id(t: &str, s: usize) -> Token {
    Token::Ident { text: t.to_string(), span: s }
}

fn lone(c: char, s: usize) -> Token {
    Token::Punct { ch: c, joint: false, span: s }
}

fn joint(c: char, s: usize) -> Token {
    Token::Punct { ch: c, joint: true, span: s }
}

fn lit(t: &str, s: usize) -> Token {
    Token::Lit { text: t.to_string(), span: s }
}

fn grp(d: Delim, body: Vec<Token>, s: usize) -> Token {
    Token::Group { delim: d, body, span: s }
}

/// The field-list body of `struct Foo { x: i32, y: i32, z: i32 }`.
fn foo_body() -> Vec<Token> {
    vec![
        id("x", 21),
        lone(':', 22),
        id("i32", 23),
        lone(',', 24),
        id("y", 25),
        lone(':', 26),
        id("i32", 27),
        lone(',', 28),
        id("z", 29),
        lone(':', 30),
        id("i32", 31),
    ]
}

fn foo_input(args: Vec<Token>) -> Vec<Token> {
    let mut input = vec![id("Foo", 1), grp(Delim::Brace, foo_body(), 2)];
    input.extend(args);
    input
}

/// The field-list body of
/// `struct Bar { x: Result<i32, std::string::String>, y: ::std::string::String }`.
/// The commas inside the generic type split segments too, but `std` is
/// followed by a tightly bound colon and so names no field.
fn bar_body() -> Vec<Token> {
    vec![
        id("x", 41),
        lone(':', 42),
        id("Result", 43),
        lone('<', 44),
        id("i32", 45),
        lone(',', 46),
        id("std", 47),
        joint(':', 48),
        lone(':', 48),
        id("string", 49),
        joint(':', 50),
        lone(':', 50),
        id("String", 51),
        lone('>', 52),
        lone(',', 53),
        id("y", 54),
        lone(':', 55),
        joint(':', 56),
        lone(':', 56),
        id("std", 57),
        joint(':', 58),
        lone(':', 58),
        id("string", 59),
        joint(':', 60),
        lone(':', 60),
        id("String", 61),
    ]
}

fn bar_input(args: Vec<Token>) -> Vec<Token> {
    let mut input = vec![id("Bar", 3), grp(Delim::Brace, bar_body(), 4)];
    input.extend(args);
    input
}

#[test]
fn it_works() {
    // Foo! { x: n, * }
    let args = vec![id("x", 10), lone(':', 11), id("n", 12), lone(',', 13), lone('*', 14)];
    let out = fields_glob_impl(&foo_input(args));
    let expected = vec![
        id("Foo", 1),
        grp(
            Delim::Brace,
            vec![
                id("x", 10),
                lone(':', 11),
                id("n", 12),
                lone(',', 0),
                id("y", 14),
                lone(',', 0),
                id("z", 14),
            ],
            0,
        ),
    ];
    assert_eq!(out, expected);
}

#[test]
fn all_ref() {
    // Foo! { x: n, ref * }
    let args = vec![
        id("x", 10),
        lone(':', 11),
        id("n", 12),
        lone(',', 13),
        id("ref", 14),
        lone('*', 15),
    ];
    let out = fields_glob_impl(&foo_input(args));
    let expected = vec![
        id("Foo", 1),
        grp(
            Delim::Brace,
            vec![
                id("x", 10),
                lone(':', 11),
                id("n", 12),
                lone(',', 0),
                id("ref", 14),
                id("y", 15),
                lone(',', 0),
                id("ref", 14),
                id("z", 15),
            ],
            0,
        ),
    ];
    assert_eq!(out, expected);
}

#[test]
fn all_ref_mut() {
    // Foo! { x: n, ref mut * }
    let args = vec![
        id("x", 10),
        lone(':', 11),
        id("n", 12),
        lone(',', 13),
        id("ref", 14),
        id("mut", 15),
        lone('*', 16),
    ];
    let out = fields_glob_impl(&foo_input(args));
    let expected = vec![
        id("Foo", 1),
        grp(
            Delim::Brace,
            vec![
                id("x", 10),
                lone(':', 11),
                id("n", 12),
                lone(',', 0),
                id("ref", 14),
                id("mut", 15),
                id("y", 16),
                lone(',', 0),
                id("ref", 14),
                id("mut", 15),
                id("z", 16),
            ],
            0,
        ),
    ];
    assert_eq!(out, expected);
}

#[test]
fn build() {
    // Foo! { *, x: n + 1 } used as a constructor: the unlisted fields are
    // re-supplied after the explicit one, in declaration order.
    let args = vec![
        lone('*', 10),
        lone(',', 11),
        id("x", 12),
        lone(':', 13),
        id("n", 14),
        lone('+', 15),
        lit("1", 16),
    ];
    let out = fields_glob_impl(&foo_input(args));
    let expected = vec![
        id("Foo", 1),
        grp(
            Delim::Brace,
            vec![
                id("x", 12),
                lone(':', 13),
                id("n", 14),
                lone('+', 15),
                lit("1", 16),
                lone(',', 0),
                id("y", 10),
                lone(',', 0),
                id("z", 10),
            ],
            0,
        ),
    ];
    assert_eq!(out, expected);
}

#[test]
fn generic() {
    // Bar! { y: "a".to_owned(), * }
    let args = vec![
        id("y", 70),
        lone(':', 71),
        lit("\"a\"", 72),
        lone('.', 73),
        id("to_owned", 74),
        grp(Delim::Paren, vec![], 75),
        lone(',', 76),
        lone('*', 77),
    ];
    let out = fields_glob_impl(&bar_input(args));
    let expected = vec![
        id("Bar", 3),
        grp(
            Delim::Brace,
            vec![
                id("y", 70),
                lone(':', 71),
                lit("\"a\"", 72),
                lone('.', 73),
                id("to_owned", 74),
                grp(Delim::Paren, vec![], 75),
                lone(',', 0),
                id("x", 77),
            ],
            0,
        ),
    ];
    assert_eq!(out, expected);

    // Bar! { * }
    let out2 = fields_glob_impl(&bar_input(vec![lone('*', 80)]));
    let expected2 = vec![
        id("Bar", 3),
        grp(Delim::Brace, vec![id("x", 80), lone(',', 0), id("y", 80)], 0),
    ];
    assert_eq!(out2, expected2);
}

#[test]
fn empty_invocation() {
    // Foo! {} destructures or builds with no field named at all.
    let out = fields_glob_impl(&foo_input(vec![]));
    let expected = vec![id("Foo", 1), grp(Delim::Brace, vec![], 0)];
    assert_eq!(out, expected);
}

#[test]
fn duplicate_wildcard_refused() {
    // Foo! { *, ref * } holds two wildcards; the expansion is a diagnostic
    // at the second one.
    let args = vec![lone('*', 10), lone(',', 11), id("ref", 12), lone('*', 13)];
    let out = fields_glob_impl(&foo_input(args));
    let expected = vec![
        id("compile_error", 13),
        lone('!', 13),
        grp(
            Delim::Brace,
            vec![lit("\"fields_glob only support one wildcard\"", 13)],
            13,
        ),
    ];
    assert_eq!(out, expected);
}

#[test]
fn leading_outer_attribute_dropped() {
    // An attribute opening the whole argument list belongs to the
    // invocation, not to its first field action, and is not re-emitted.
    let mut args = cfg_attr(5);
    args.extend(vec![id("x", 10), lone(':', 11), id("n", 12), lone(',', 13), lone('*', 14)]);
    let out = fields_glob_impl(&foo_input(args));
    let expected = vec![
        id("Foo", 1),
        grp(
            Delim::Brace,
            vec![
                id("x", 10),
                lone(':', 11),
                id("n", 12),
                lone(',', 0),
                id("y", 14),
                lone(',', 0),
                id("z", 14),
            ],
            0,
        ),
    ];
    assert_eq!(out, expected);
}

#[test]
fn repeated_explicit_field_emitted_twice() {
    // Foo! { x: a, x: b, * }: both explicit actions are emitted as given,
    // and the wildcard never re-supplies a used name.
    let args = vec![
        id("x", 10),
        lone(':', 11),
        id("a", 12),
        lone(',', 13),
        id("x", 14),
        lone(':', 15),
        id("b", 16),
        lone(',', 17),
        lone('*', 18),
    ];
    let out = fields_glob_impl(&foo_input(args));
    let expected = vec![
        id("Foo", 1),
        grp(
            Delim::Brace,
            vec![
                id("x", 10),
                lone(':', 11),
                id("a", 12),
                lone(',', 0),
                id("x", 14),
                lone(':', 15),
                id("b", 16),
                lone(',', 0),
                id("y", 18),
                lone(',', 0),
                id("z", 18),
            ],
            0,
        ),
    ];
    assert_eq!(out, expected);
}

#[test]
fn unresolved_field_refused() {
    // A segment that opens with a literal names no field.
    let args = vec![lit("5", 10)];
    let out = fields_glob_impl(&foo_input(args));
    let expected = vec![
        id("compile_error", 0),
        lone('!', 0),
        grp(Delim::Brace, vec![lit("\"cannot find field\"", 0)], 0),
    ];
    assert_eq!(out, expected);
}

fn cfg_attr(s: usize) -> Vec<Token> {
    vec![
        lone('#', s),
        grp(
            Delim::Bracket,
            vec![id("cfg", s + 1), grp(Delim::Paren, vec![id("test", s + 2)], s + 3)],
            s + 4,
        ),
    ]
}

#[test]
fn wildcard_attributes_propagate() {
    // Foo! { x: n, #[cfg(test)] * } puts the wildcard's attribute on every
    // synthesized field.
    let mut args = vec![id("x", 5), lone(':', 6), id("n", 7), lone(',', 8)];
    args.extend(cfg_attr(10));
    args.push(lone('*', 15));
    let out = fields_glob_impl(&foo_input(args));
    let mut inner = vec![id("x", 5), lone(':', 6), id("n", 7), lone(',', 0)];
    inner.extend(cfg_attr(10));
    inner.push(id("y", 15));
    inner.push(lone(',', 0));
    inner.extend(cfg_attr(10));
    inner.push(id("z", 15));
    let expected = vec![id("Foo", 1), grp(Delim::Brace, inner, 0)];
    assert_eq!(out, expected);
}

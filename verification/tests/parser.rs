use badger_cst::{parse, ParseError, SyntaxKind};
use rowan::NodeOrToken;

const PROGRAM: &str = r#"/// A small program touching every item form.
// line comment
{ print, Io } = @import("std").io;
pub @import("prelude");
pub type Pair<A, B> = (A, B);
pub type Callback = fn(x: Int) -> Bool !effect(io);
pub struct Point<T> {
  x: T;
  y: [4]T;
  tags: []String;
  next: Std.List<Self>;
};
pub enum Shape {
  Circle(Int);
  Rect(Int, Int);
  Empty;
}
pub interface Show<[]Item, Iterator<Self>> extends Eq, Debug {
  show(self: Self) -> String;
  twice<T>(x: T) -> (T, T) { x };
}
pub main = fn(init: Init) -> () !effect(io) {
  init.io.stdout.print_line("Hello, é");
  helper(1, 'c', true, false, self);
};
pub id: fn(x: Int) -> Int = fn(x) => x;
pub unit = {}
"#;

fn kind(raw: SyntaxKind) -> rowan::SyntaxKind {
    rowan::SyntaxKind(raw.to_raw())
}

fn err(offset: usize, message: &str) -> ParseError {
    ParseError { offset, message: message.to_string() }
}

#[test]
fn program_roundtrips_through_the_tree() {
    let parsed = parse(PROGRAM).unwrap();
    assert_eq!(parsed.serialize(), PROGRAM);
}

#[test]
fn empty_and_blank_sources_parse() {
    let parsed = parse("").unwrap();
    assert_eq!(parsed.serialize(), "");
    assert_eq!(parsed.green().kind(), kind(SyntaxKind::Root));
    assert_eq!(parsed.green().children().count(), 0);

    let parsed = parse("  \n// only a comment\n").unwrap();
    assert_eq!(parsed.serialize(), "  \n// only a comment\n");
    assert_eq!(parsed.green().children().count(), 3);
}

#[test]
fn root_holds_trivia_tokens_and_item_nodes() {
    let parsed = parse("// c\npub x = 1;").unwrap();
    let green = parsed.green();
    assert_eq!(green.kind(), kind(SyntaxKind::Root));
    let children: Vec<_> = green.children().collect();
    assert_eq!(children.len(), 3);
    match children[0] {
        NodeOrToken::Token(t) => {
            assert_eq!(t.kind(), kind(SyntaxKind::LineComment));
            assert_eq!(t.text(), "// c");
        }
        NodeOrToken::Node(_) => panic!("expected a token"),
    }
    match children[2] {
        NodeOrToken::Node(item) => {
            assert_eq!(item.kind(), kind(SyntaxKind::Item));
            let inner: Vec<_> = item.children().collect();
            assert_eq!(inner.len(), 1);
            match inner[0] {
                NodeOrToken::Node(binding) => {
                    assert_eq!(binding.kind(), kind(SyntaxKind::Binding))
                }
                NodeOrToken::Token(_) => panic!("expected a node"),
            }
        }
        NodeOrToken::Token(_) => panic!("expected a node"),
    }
}

#[test]
fn item_forms_get_their_node_kinds() {
    let cases = [
        ("{ a } = b;", SyntaxKind::ImportBinding),
        ("pub @import(\"x\");", SyntaxKind::ReExport),
        ("pub type T = U;", SyntaxKind::TypeAlias),
        ("pub struct S { }", SyntaxKind::StructDecl),
        ("pub enum E { A; }", SyntaxKind::EnumDecl),
        ("pub interface I { }", SyntaxKind::InterfaceDecl),
        ("pub x = 1", SyntaxKind::Binding),
        ("std = @import(\"std\");", SyntaxKind::Binding),
        ("x: Int = 1;", SyntaxKind::Binding),
        ("type T = U;", SyntaxKind::TypeAlias),
        ("struct Socket { bytes_sent: u32; }", SyntaxKind::StructDecl),
        ("enum E { A; }", SyntaxKind::EnumDecl),
        ("interface I { }", SyntaxKind::InterfaceDecl),
    ];
    for (source, expected) in cases {
        let parsed = parse(source).unwrap();
        assert_eq!(parsed.serialize(), source);
        match parsed.green().children().next().unwrap() {
            NodeOrToken::Node(item) => {
                assert_eq!(item.kind(), kind(SyntaxKind::Item));
                match item.children().next().unwrap() {
                    NodeOrToken::Node(n) => assert_eq!(n.kind(), kind(expected)),
                    NodeOrToken::Token(_) => panic!("expected a node"),
                }
            }
            NodeOrToken::Token(_) => panic!("expected a node"),
        }
    }
}

#[test]
fn stray_top_level_token_is_rejected() {
    assert_eq!(parse("; x").err(), Some(err(0, "unexpected top-level token `Semi`")));
    assert_eq!(parse("foo").err(), Some(err(3, "expected `=`")));
    assert_eq!(
        parse("pub x = 1; ;").err(),
        Some(err(11, "unexpected top-level token `Semi`"))
    );
}

#[test]
fn missing_expression_reports_end_of_file() {
    assert_eq!(parse("pub x = ").err(), Some(err(8, "expected expression")));
}

#[test]
fn missing_field_semicolon() {
    assert_eq!(parse("pub struct S { a: Int }").err(), Some(err(22, "expected `;`")));
}

#[test]
fn unclosed_struct_body() {
    assert_eq!(parse("pub struct S {").err(), Some(err(14, "expected `}`")));
}

#[test]
fn bad_argument() {
    assert_eq!(
        parse("pub f = g(1, );").err(),
        Some(err(13, "unexpected expression token `RParen`"))
    );
    assert_eq!(
        parse("{ a } = ;").err(),
        Some(err(8, "unexpected expression token `Semi`"))
    );
}

#[test]
fn missing_type() {
    assert_eq!(parse("pub type T = ;").err(), Some(err(13, "expected type")));
}

#[test]
fn interface_parameters_need_types() {
    assert_eq!(parse("pub interface I { m(x) }").err(), Some(err(21, "expected `:`")));
}

#[test]
fn lexer_errors_pass_through() {
    assert_eq!(parse("pub x = $").err(), Some(err(8, "unexpected character `$`")));
    assert_eq!(parse("pub x = \"open").err(), Some(err(8, "unterminated \" literal")));
}

fn tree_tokens(node: &rowan::GreenNodeData, out: &mut Vec<(u16, String)>) {
    for child in node.children() {
        match child {
            NodeOrToken::Node(n) => tree_tokens(n, out),
            NodeOrToken::Token(t) => out.push((t.kind().0, t.text().to_string())),
        }
    }
}

#[test]
fn tree_tokens_are_the_lexer_tokens() {
    let parsed = parse(PROGRAM).unwrap();
    let mut in_tree = Vec::new();
    tree_tokens(parsed.green(), &mut in_tree);
    let lexed: Vec<(u16, String)> = badger_cst::lexer::tokenize(PROGRAM)
        .unwrap()
        .into_iter()
        .map(|t| (t.kind.to_raw(), t.text))
        .collect();
    assert_eq!(in_tree, lexed);
}

#[test]
fn error_offsets_stay_within_the_source() {
    let sources = ["pub x = ", "pub struct S {", "pub f = g(1, );", "{ a } = \"x", "pub x = 1; }"];
    for source in sources {
        let e = parse(source).err().unwrap();
        assert!(e.offset <= source.len());
    }
    assert_eq!(parse("pub x = 1; }").err(), Some(err(11, "unexpected top-level token `RBrace`")));
}

#[test]
fn function_types_may_leave_out_parameter_names() {
    for source in [
        "pub type F = fn(In, usize) -> Out;",
        "pub type G = fn(value: In, []u8, fn(Int) -> Int) -> ();",
        "apply: fn(In, index: usize) -> Out = f;",
    ] {
        let parsed = parse(source).unwrap();
        assert_eq!(parsed.serialize(), source);
    }
    assert_eq!(parse("pub type F = fn(self) -> X;").err(), Some(err(16, "expected type")));
}

#[test]
fn error_offsets_are_token_starts_or_the_end() {
    for source in ["pub x = ", "pub f = g(1, );", "pub struct S { a: Int }", "foo", "; x", "pub type T = ;"] {
        let e = parse(source).err().unwrap();
        let tokens = badger_cst::lexer::tokenize(source).unwrap();
        assert!(
            e.offset == source.len()
                || tokens.iter().any(|t| !t.kind.is_trivia() && t.offset == e.offset)
        );
    }
}

#[test]
fn root_children_are_trivia_or_items_with_one_declaration() {
    let parsed = parse(PROGRAM).unwrap();
    let declarations = [
        SyntaxKind::ImportBinding,
        SyntaxKind::ReExport,
        SyntaxKind::TypeAlias,
        SyntaxKind::StructDecl,
        SyntaxKind::EnumDecl,
        SyntaxKind::InterfaceDecl,
        SyntaxKind::Binding,
    ];
    let mut items = 0;
    for child in parsed.green().children() {
        match child {
            NodeOrToken::Token(t) => {
                assert!(SyntaxKind::from_raw(t.kind().0).is_trivia());
            }
            NodeOrToken::Node(item) => {
                items += 1;
                assert_eq!(item.kind(), kind(SyntaxKind::Item));
                let inner: Vec<_> = item.children().collect();
                assert_eq!(inner.len(), 1);
                match inner[0] {
                    NodeOrToken::Node(d) => {
                        assert!(declarations.contains(&SyntaxKind::from_raw(d.kind().0)));
                        match d.children().next().unwrap() {
                            NodeOrToken::Token(t) => {
                                let first = SyntaxKind::from_raw(t.kind().0);
                                assert!(first == SyntaxKind::PubKw || first == SyntaxKind::LBrace);
                            }
                            NodeOrToken::Node(_) => panic!("expected the first token"),
                        }
                    }
                    NodeOrToken::Token(_) => panic!("expected a declaration node"),
                }
            }
        }
    }
    assert_eq!(items, 10);
}

#[test]
fn private_declarations_open_with_their_keyword_or_name() {
    let cases = [
        ("type T = U;", SyntaxKind::TypeKw),
        ("struct S { }", SyntaxKind::StructKw),
        ("enum E { A; }", SyntaxKind::EnumKw),
        ("interface I { }", SyntaxKind::InterfaceKw),
        ("x = 1;", SyntaxKind::Ident),
    ];
    for (source, expected) in cases {
        let parsed = parse(source).unwrap();
        match parsed.green().children().next().unwrap() {
            NodeOrToken::Node(item) => match item.children().next().unwrap() {
                NodeOrToken::Node(d) => match d.children().next().unwrap() {
                    NodeOrToken::Token(t) => assert_eq!(t.kind(), kind(expected)),
                    NodeOrToken::Node(_) => panic!("expected a token"),
                },
                NodeOrToken::Token(_) => panic!("expected a node"),
            },
            NodeOrToken::Token(_) => panic!("expected a node"),
        }
    }
}

use badger_cst::lexer::{
    is_ident_continue, is_ident_start, keyword_kind, lex_punctuation, lex_quoted, tokenize, Token,
};
use badger_cst::{ParseError, SyntaxKind};

fn kinds(tokens: &[Token]) -> Vec<SyntaxKind> {
    tokens.iter().map(|t| t.kind).collect()
}

fn texts(tokens: &[Token]) -> Vec<&str> {
    tokens.iter().map(|t| t.text.as_str()).collect()
}

fn joined(tokens: &[Token]) -> String {
    tokens.iter().map(|t| t.text.as_str()).collect()
}

const SAMPLE: &str = "/// Greets.\n// plain\npub main = fn(init: Init) -> () !effect(io) {\n  init.io.stdout.print_line(\"Hi, \\\"é\\\"\");\n  @recurse(1, 'c', true) |> x <= 23;\n};\n";

#[test]
fn tokens_concatenate_to_the_source() {
    let tokens = tokenize(SAMPLE).unwrap();
    assert_eq!(joined(&tokens), SAMPLE);
}

#[test]
fn token_offsets_are_contiguous_byte_offsets() {
    let tokens = tokenize(SAMPLE).unwrap();
    let mut offset = 0;
    for token in &tokens {
        assert_eq!(token.offset, offset);
        offset += token.text.len();
    }
    assert_eq!(offset, SAMPLE.len());
}

#[test]
fn empty_source_has_no_tokens() {
    assert!(tokenize("").unwrap().is_empty());
}

#[test]
fn comments_and_whitespace_are_kept() {
    let tokens = tokenize("/// doc\n  // note\nx").unwrap();
    assert_eq!(
        kinds(&tokens),
        vec![
            SyntaxKind::DocComment,
            SyntaxKind::Whitespace,
            SyntaxKind::LineComment,
            SyntaxKind::Whitespace,
            SyntaxKind::Ident,
        ]
    );
    assert_eq!(texts(&tokens), vec!["/// doc", "\n  ", "// note", "\n", "x"]);
}

#[test]
fn white_space_is_space_tab_and_line_ends() {
    let tokens = tokenize(" \t\r\n x").unwrap();
    assert_eq!(kinds(&tokens), vec![SyntaxKind::Whitespace, SyntaxKind::Ident]);
    assert_eq!(tokens[0].text, " \t\r\n ");
    assert_eq!(tokens[1].offset, 5);
    let err = tokenize("a\u{2003}b").unwrap_err();
    assert_eq!(
        err,
        ParseError { offset: 1, message: "unexpected character `\u{2003}`".to_string() }
    );
    let err = tokenize("\u{A0}").unwrap_err();
    assert_eq!(err.offset, 0);
}

#[test]
fn builtins_and_markers() {
    let tokens = tokenize("@import @recurse !effect !depend").unwrap();
    assert_eq!(
        kinds(&tokens),
        vec![
            SyntaxKind::BuiltinImport,
            SyntaxKind::Whitespace,
            SyntaxKind::BuiltinRecurse,
            SyntaxKind::Whitespace,
            SyntaxKind::EffectMarker,
            SyntaxKind::Whitespace,
            SyntaxKind::DependMarker,
        ]
    );
    let tokens = tokenize("@import(").unwrap();
    assert_eq!(kinds(&tokens), vec![SyntaxKind::BuiltinImport, SyntaxKind::LParen]);
}

#[test]
fn builtin_followed_by_identifier_character_is_rejected() {
    let err = tokenize("@importx").unwrap_err();
    assert_eq!(
        err,
        ParseError { offset: 0, message: "unexpected character `@`".to_string() }
    );
    let err = tokenize("a !effects").unwrap_err();
    assert_eq!(err.offset, 2);
    assert_eq!(err.message, "unexpected character `!`");
}

#[test]
fn keywords_and_identifiers() {
    let tokens = tokenize("pub fn struct enum interface implement as extends match type self Self true false pubx _a1").unwrap();
    let words: Vec<SyntaxKind> = kinds(&tokens)
        .into_iter()
        .filter(|k| *k != SyntaxKind::Whitespace)
        .collect();
    assert_eq!(
        words,
        vec![
            SyntaxKind::PubKw,
            SyntaxKind::FnKw,
            SyntaxKind::StructKw,
            SyntaxKind::EnumKw,
            SyntaxKind::InterfaceKw,
            SyntaxKind::ImplementKw,
            SyntaxKind::AsKw,
            SyntaxKind::ExtendsKw,
            SyntaxKind::MatchKw,
            SyntaxKind::TypeKw,
            SyntaxKind::SelfKw,
            SyntaxKind::SelfTypeKw,
            SyntaxKind::TrueKw,
            SyntaxKind::FalseKw,
            SyntaxKind::Ident,
            SyntaxKind::Ident,
        ]
    );
}

#[test]
fn numbers_end_where_digits_end() {
    let tokens = tokenize("123abc").unwrap();
    assert_eq!(kinds(&tokens), vec![SyntaxKind::Int, SyntaxKind::Ident]);
    assert_eq!(texts(&tokens), vec!["123", "abc"]);
}

#[test]
fn punctuation_prefers_two_character_tokens() {
    let tokens = tokenize("->=><=<|>()[]{},;:.=?+*>").unwrap();
    assert_eq!(
        kinds(&tokens),
        vec![
            SyntaxKind::Arrow,
            SyntaxKind::FatArrow,
            SyntaxKind::Le,
            SyntaxKind::Lt,
            SyntaxKind::PipeGt,
            SyntaxKind::LParen,
            SyntaxKind::RParen,
            SyntaxKind::LBracket,
            SyntaxKind::RBracket,
            SyntaxKind::LBrace,
            SyntaxKind::RBrace,
            SyntaxKind::Comma,
            SyntaxKind::Semi,
            SyntaxKind::Colon,
            SyntaxKind::Dot,
            SyntaxKind::Eq,
            SyntaxKind::Question,
            SyntaxKind::Plus,
            SyntaxKind::Star,
            SyntaxKind::Gt,
        ]
    );
}

#[test]
fn quoted_literals_honour_escapes() {
    let tokens = tokenize("\"a\\\"b\" '\\''").unwrap();
    assert_eq!(
        kinds(&tokens),
        vec![SyntaxKind::String, SyntaxKind::Whitespace, SyntaxKind::Char]
    );
    assert_eq!(texts(&tokens), vec!["\"a\\\"b\"", " ", "'\\''"]);
}

#[test]
fn unterminated_string_reports_its_start() {
    let err = tokenize("x = \"abc").unwrap_err();
    assert_eq!(
        err,
        ParseError { offset: 4, message: "unterminated \" literal".to_string() }
    );
}

#[test]
fn unterminated_char_reports_its_start() {
    let err = tokenize("\"é\" 'a").unwrap_err();
    assert_eq!(err.offset, 5);
    assert_eq!(err.message, "unterminated ' literal");
}

#[test]
fn unexpected_character_offset_counts_bytes() {
    let err = tokenize("\"é\" $").unwrap_err();
    assert_eq!(
        err,
        ParseError { offset: 5, message: "unexpected character `$`".to_string() }
    );
    let err = tokenize("a | b").unwrap_err();
    assert_eq!(err.offset, 2);
    assert_eq!(err.message, "unexpected character `|`");
    let err = tokenize("é").unwrap_err();
    assert_eq!(err.message, "unexpected character `é`");
}

#[test]
fn identifier_character_classes() {
    assert!(is_ident_start('_'));
    assert!(is_ident_start('Z'));
    assert!(!is_ident_start('7'));
    assert!(!is_ident_start('é'));
    assert!(is_ident_continue(Some('_')));
    assert!(is_ident_continue(Some('9')));
    assert!(is_ident_continue(Some('q')));
    assert!(!is_ident_continue(Some('-')));
    assert!(!is_ident_continue(None));
}

#[test]
fn punctuation_at_a_position() {
    let chars: Vec<char> = "a->b|".chars().collect();
    assert_eq!(lex_punctuation(&chars, 1), Some((SyntaxKind::Arrow, 2)));
    assert_eq!(lex_punctuation(&chars, 2), Some((SyntaxKind::Gt, 1)));
    assert_eq!(lex_punctuation(&chars, 0), None);
    assert_eq!(lex_punctuation(&chars, 4), None);
    assert_eq!(lex_punctuation(&chars, 5), None);
}

#[test]
fn keyword_lookup_on_a_slice() {
    let chars: Vec<char> = "pubx type".chars().collect();
    assert_eq!(keyword_kind(&chars, 0, 3), Some(SyntaxKind::PubKw));
    assert_eq!(keyword_kind(&chars, 0, 4), None);
    assert_eq!(keyword_kind(&chars, 5, 9), Some(SyntaxKind::TypeKw));
    assert_eq!(keyword_kind(&chars, 5, 5), None);
}

#[test]
fn quoted_end_positions() {
    let chars: Vec<char> = "\"ab\"c".chars().collect();
    assert_eq!(lex_quoted(&chars, 0, 0, '"').unwrap(), 4);
    let chars: Vec<char> = "x\"a\\\"".chars().collect();
    let err = lex_quoted(&chars, 1, 7, '"').unwrap_err();
    assert_eq!(err.offset, 7);
    assert_eq!(err.message, "unterminated \" literal");
}

#[test]
fn line_comments_stop_before_carriage_return() {
    let tokens = tokenize("//a\r\nx").unwrap();
    assert_eq!(
        kinds(&tokens),
        vec![SyntaxKind::LineComment, SyntaxKind::Whitespace, SyntaxKind::Ident]
    );
    assert_eq!(texts(&tokens), vec!["//a", "\r\n", "x"]);
    assert_eq!(tokens[2].offset, 5);
    let tokens = tokenize("/// doc\r\n").unwrap();
    assert_eq!(texts(&tokens), vec!["/// doc", "\r\n"]);
    assert_eq!(tokens[0].kind, SyntaxKind::DocComment);
}

#[test]
fn lexer_errors_sit_on_the_failing_character() {
    for source in ["ab $", "x = 'c", "\"é\" `"] {
        let err = tokenize(source).unwrap_err();
        assert!(source.is_char_boundary(err.offset));
        assert!(tokenize(&source[..err.offset]).is_ok());
        let c = source[err.offset..].chars().next().unwrap();
        assert!(
            err.message == format!("unexpected character `{c}`")
                || ((c == '"' || c == '\'') && err.message == format!("unterminated {c} literal"))
        );
    }
}

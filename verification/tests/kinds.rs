use badger_cst::kinds::KIND_COUNT;
use badger_cst::SyntaxKind;

#[test]
fn raw_values_roundtrip_through_kinds() {
    for raw in 0..KIND_COUNT {
        let kind = SyntaxKind::from_raw(raw);
        assert_eq!(kind.to_raw(), raw);
    }
}

#[test]
fn kinds_roundtrip_through_raw_values() {
    let samples = [
        SyntaxKind::Root,
        SyntaxKind::Item,
        SyntaxKind::Error,
        SyntaxKind::Whitespace,
        SyntaxKind::Ident,
        SyntaxKind::String,
        SyntaxKind::Le,
    ];
    for kind in samples {
        assert_eq!(SyntaxKind::from_raw(kind.to_raw()), kind);
    }
}

#[test]
fn raw_values_follow_declaration_order() {
    assert_eq!(SyntaxKind::Root.to_raw(), 0);
    assert_eq!(SyntaxKind::Item.to_raw(), 1);
    assert_eq!(SyntaxKind::Error.to_raw(), 24);
    assert_eq!(SyntaxKind::Whitespace.to_raw(), 25);
    assert_eq!(SyntaxKind::PubKw.to_raw(), 28);
    assert_eq!(SyntaxKind::Ident.to_raw(), 46);
    assert_eq!(SyntaxKind::Le.to_raw(), 69);
    assert_eq!(SyntaxKind::from_raw(47), SyntaxKind::Int);
}

#[test]
fn unknown_raw_values_map_to_error() {
    assert_eq!(SyntaxKind::from_raw(KIND_COUNT), SyntaxKind::Error);
    assert_eq!(SyntaxKind::from_raw(500), SyntaxKind::Error);
    assert_eq!(SyntaxKind::from_raw(u16::MAX), SyntaxKind::Error);
}

#[test]
fn only_whitespace_and_comments_are_trivia() {
    assert!(SyntaxKind::Whitespace.is_trivia());
    assert!(SyntaxKind::LineComment.is_trivia());
    assert!(SyntaxKind::DocComment.is_trivia());
    let mut trivia = 0;
    for raw in 0..KIND_COUNT {
        if SyntaxKind::from_raw(raw).is_trivia() {
            trivia += 1;
        }
    }
    assert_eq!(trivia, 3);
    assert!(!SyntaxKind::Ident.is_trivia());
    assert!(!SyntaxKind::Error.is_trivia());
}

#[test]
fn debug_name_matches_debug_formatting() {
    for raw in 0..KIND_COUNT {
        let kind = SyntaxKind::from_raw(raw);
        assert_eq!(kind.debug_name(), format!("{:?}", kind));
    }
    assert_eq!(SyntaxKind::SelfTypeKw.debug_name(), "SelfTypeKw");
}

use bracket_colorizer::brackets::{BracketSide, BracketType, ColorLevel, ColorScheme, Language};
use bracket_colorizer::editor;
use bracket_colorizer::editor::{LanguageId, Selection};
use bracket_colorizer::transport::{pack_handle, unpack_handle};

#[test]
fn test_color_scheme_rejects_zero() {
    assert!(ColorScheme::new(0).is_none());
    let three = ColorScheme::new(3).unwrap();
    assert_eq!(three.color_count(), 3);
    assert_eq!(ColorScheme::default_rainbow().color_count(), 6);
}

#[test]
fn test_color_level_from_depth() {
    assert_eq!(ColorLevel::from_depth(0, 6).level, 0);
    assert_eq!(ColorLevel::from_depth(5, 6).level, 5);
    assert_eq!(ColorLevel::from_depth(6, 6).level, 0);
    assert_eq!(ColorLevel::from_depth(13, 6).level, 1);
}

#[test]
fn test_bracket_classification() {
    assert_eq!(
        BracketType::from_char('('),
        Some((BracketType::Round, BracketSide::Opening))
    );
    assert_eq!(
        BracketType::from_char(']'),
        Some((BracketType::Square, BracketSide::Closing))
    );
    assert_eq!(
        BracketType::from_char('{'),
        Some((BracketType::Curly, BracketSide::Opening))
    );
    assert_eq!(
        BracketType::from_char('>'),
        Some((BracketType::Angle, BracketSide::Closing))
    );
    assert_eq!(BracketType::from_char('a'), None);
    assert_eq!(BracketType::from_char(' '), None);
}

#[test]
fn test_language_angle_bracket_flags() {
    assert!(Language::Rust.uses_angle_brackets_as_generics());
    assert!(Language::TypeScript.uses_angle_brackets_as_generics());
    assert!(Language::Java.uses_angle_brackets_as_generics());
    assert!(!Language::JavaScript.uses_angle_brackets_as_generics());
    assert!(!Language::Python.uses_angle_brackets_as_generics());
    assert!(!Language::Go.uses_angle_brackets_as_generics());
    assert!(!Language::Generic.uses_angle_brackets_as_generics());
}

#[test]
fn test_language_id_from_str() {
    assert_eq!(LanguageId::from_str("rust"), LanguageId::Rust);
    assert_eq!(LanguageId::from_str("RS"), LanguageId::Rust);
    assert_eq!(LanguageId::from_str("JavaScript"), LanguageId::JavaScript);
    assert_eq!(LanguageId::from_str("js"), LanguageId::JavaScript);
    assert_eq!(LanguageId::from_str("TYPESCRIPT"), LanguageId::TypeScript);
    assert_eq!(LanguageId::from_str("ts"), LanguageId::TypeScript);
    assert_eq!(LanguageId::from_str("Python"), LanguageId::Python);
    assert_eq!(LanguageId::from_str("py"), LanguageId::Python);
    assert_eq!(LanguageId::from_str("java"), LanguageId::Java);
    assert_eq!(LanguageId::from_str("Go"), LanguageId::Go);
    assert_eq!(LanguageId::from_str("dart"), LanguageId::Dart);
    assert_eq!(LanguageId::from_str("cobol"), LanguageId::PlainText);
    assert_eq!(LanguageId::from_str(""), LanguageId::PlainText);
}

#[test]
fn test_selection_normalize() {
    let a = editor::Position::new(2, 5);
    let b = editor::Position::new(1, 9);
    let reversed = Selection::new(a, b);
    let normalized = reversed.normalize();
    assert_eq!(normalized.start, b);
    assert_eq!(normalized.end, a);

    let ordered = Selection::new(b, a);
    assert_eq!(ordered.normalize(), ordered);

    let same_line = Selection::new(editor::Position::new(3, 7), editor::Position::new(3, 2));
    let same_line_normalized = same_line.normalize();
    assert_eq!(same_line_normalized.start.column, 2);
    assert_eq!(same_line_normalized.end.column, 7);
}

#[test]
fn test_selection_is_empty() {
    let p = editor::Position::new(4, 4);
    assert!(Selection::new(p, p).is_empty());
    assert!(!Selection::new(p, editor::Position::new(4, 5)).is_empty());
}

#[test]
fn test_pack_handle_round_trip() {
    let handle = pack_handle(0xDEAD_BEEF, 1234);
    let (ptr, len) = unpack_handle(handle);
    assert_eq!(ptr, 0xDEAD_BEEF);
    assert_eq!(len, 1234);
    assert_eq!(pack_handle(1, 2), 0x0000_0001_0000_0002);
}

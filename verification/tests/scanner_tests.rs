use bracket_colorizer::brackets::{
    BracketType, ColorScheme, Language, UnmatchedReason,
};
use bracket_colorizer::matcher::{BracketAnalyzer, StackBasedMatcher};

#[test]
fn test_simple_bracket_matching() {
    let matcher = StackBasedMatcher::new(ColorScheme::default_rainbow());
    let content = "function test() { return 42; }";

    let result = matcher.analyze(content, Language::JavaScript);

    assert_eq!(result.pairs.len(), 2); // () and {}
    assert_eq!(result.unmatched.len(), 0);
    assert!(!result.has_errors());
}

#[test]
fn test_nested_brackets() {
    let matcher = StackBasedMatcher::new(ColorScheme::default_rainbow());
    let content = "{ [ ( ) ] }";

    let result = matcher.analyze(content, Language::Generic);

    assert_eq!(result.pairs.len(), 3); // (), [], {}
    assert_eq!(result.max_depth, 2); // Max nesting level
}

#[test]
fn test_unmatched_opening() {
    let matcher = StackBasedMatcher::new(ColorScheme::default_rainbow());
    let content = "{ ( }"; // Type mismatch: } doesn't match (, plus { is unmatched

    let result = matcher.analyze(content, Language::Generic);

    // ( and } are mismatched (2), and { is left unmatched (1) = 3 total
    assert_eq!(result.unmatched.len(), 3);
    assert!(result.has_errors());
}

#[test]
fn test_unmatched_closing() {
    let matcher = StackBasedMatcher::new(ColorScheme::default_rainbow());
    let content = "{ } )"; // Extra )

    let result = matcher.analyze(content, Language::Generic);

    assert_eq!(result.unmatched.len(), 1);
}

#[test]
fn test_type_mismatch() {
    let matcher = StackBasedMatcher::new(ColorScheme::default_rainbow());
    let content = "( ]"; // Mismatched

    let result = matcher.analyze(content, Language::Generic);

    assert_eq!(result.unmatched.len(), 2);
    assert!(result.has_errors());
}

#[test]
fn test_brackets_in_strings() {
    let matcher = StackBasedMatcher::new(ColorScheme::default_rainbow());
    let content = r#"{ let s = "{ not a bracket }"; }"#;

    let result = matcher.analyze(content, Language::Generic);

    assert_eq!(result.pairs.len(), 1); // Only outer {}
}

#[test]
fn test_brackets_in_comments() {
    let matcher = StackBasedMatcher::new(ColorScheme::default_rainbow());
    let content = "{ // ( not counted\n }";

    let result = matcher.analyze(content, Language::Generic);

    assert_eq!(result.pairs.len(), 1); // Only outer {}
}

#[test]
fn test_color_level_assignment() {
    let matcher = StackBasedMatcher::new(ColorScheme::default_rainbow());
    let content = "{ [ ( ) ] }";

    let result = matcher.analyze(content, Language::Generic);

    // Colors are assigned based on depth
    let outer_pair = &result.pairs[2]; // {}
    let middle_pair = &result.pairs[1]; // []
    let inner_pair = &result.pairs[0]; // ()

    assert_eq!(outer_pair.depth, 0);
    assert_eq!(middle_pair.depth, 1);
    assert_eq!(inner_pair.depth, 2);
}

#[test]
fn test_statistics() {
    let matcher = StackBasedMatcher::new(ColorScheme::default_rainbow());
    let content = "{ ( ) [ ] }";

    let result = matcher.analyze(content, Language::Generic);

    assert_eq!(result.statistics.round_pairs, 1);
    assert_eq!(result.statistics.square_pairs, 1);
    assert_eq!(result.statistics.curly_pairs, 1);
    assert_eq!(result.statistics.total_pairs(), 3);
}

#[test]
fn test_empty_content() {
    let matcher = StackBasedMatcher::new(ColorScheme::default_rainbow());
    let content = "";

    let result = matcher.analyze(content, Language::Generic);

    assert_eq!(result.pairs.len(), 0);
    assert_eq!(result.unmatched.len(), 0);
    assert_eq!(result.max_depth, 0);
}

#[test]
fn test_very_deep_nesting() {
    let matcher = StackBasedMatcher::new(ColorScheme::default_rainbow());
    let depth = 100;
    let mut content = String::new();

    for _ in 0..depth {
        content.push('{');
    }
    for _ in 0..depth {
        content.push('}');
    }

    let result = matcher.analyze(&content, Language::Generic);

    assert_eq!(result.pairs.len(), depth);
    assert_eq!(result.unmatched.len(), 0);
    assert_eq!(result.max_depth, depth - 1); // Max depth is 99 (0-indexed)
}

#[test]
fn test_escaped_quotes_in_strings() {
    let matcher = StackBasedMatcher::new(ColorScheme::default_rainbow());
    let content = r#"let str = "He said \"hello {world}\" here"; let obj = {a: 1};"#;

    let result = matcher.analyze(content, Language::Generic);

    // Only the {a: 1} bracket is found, not the one in the string
    assert_eq!(result.pairs.len(), 1);
    assert_eq!(result.unmatched.len(), 0);

    assert_eq!(result.statistics.curly_pairs, 1);
    assert_eq!(result.statistics.round_pairs, 0);
}

#[test]
fn test_multiline_strings_with_escaped_newlines() {
    let matcher = StackBasedMatcher::new(ColorScheme::default_rainbow());
    let content = "let s = \"line1\\\nline2 {not_bracket}\"; {real}";

    let result = matcher.analyze(content, Language::Generic);

    // Only {real} is found, not the one in the string
    assert_eq!(result.pairs.len(), 1);
    assert_eq!(result.statistics.curly_pairs, 1);
}

#[test]
fn test_only_whitespace() {
    let matcher = StackBasedMatcher::new(ColorScheme::default_rainbow());
    let content = "   \n\t\r\n   ";

    let result = matcher.analyze(content, Language::Generic);

    assert_eq!(result.pairs.len(), 0);
    assert_eq!(result.unmatched.len(), 0);
}

#[test]
fn test_unicode_brackets() {
    let matcher = StackBasedMatcher::new(ColorScheme::default_rainbow());
    let content = "let 日本語 = {value: '値'};";

    let result = matcher.analyze(content, Language::Generic);

    assert_eq!(result.pairs.len(), 1);
    assert_eq!(result.statistics.curly_pairs, 1);
}

#[test]
fn test_balanced_input_has_no_errors() {
    // Balance invariant on concrete values: six bracket characters outside
    // strings and comments, properly nested, give three pairs and nothing
    // unmatched.
    let matcher = StackBasedMatcher::new(ColorScheme::default_rainbow());
    let content = "(){}[]";

    let result = matcher.analyze(content, Language::Generic);

    assert_eq!(result.pairs.len(), 3);
    assert_eq!(result.pairs.len() * 2, 6);
    assert_eq!(result.unmatched.len(), 0);
    assert!(!result.has_errors());
}

#[test]
fn test_depths_and_color_levels_cycle() {
    // Depth invariant and rainbow cycling on concrete values: with the
    // default six colors, a bracket at depth 6 is colored 0 again.
    let matcher = StackBasedMatcher::new(ColorScheme::default_rainbow());
    let mut content = String::new();
    for _ in 0..7 {
        content.push('(');
    }
    for _ in 0..7 {
        content.push(')');
    }

    let result = matcher.analyze(&content, Language::Generic);

    assert_eq!(result.pairs.len(), 7);
    assert_eq!(result.max_depth, 6);
    // pairs complete innermost first
    assert_eq!(result.pairs[0].opening.depth, 6);
    assert_eq!(result.pairs[0].opening.color_level.level, 0);
    assert_eq!(result.pairs[1].opening.depth, 5);
    assert_eq!(result.pairs[1].opening.color_level.level, 5);
    assert_eq!(result.pairs[6].opening.depth, 0);
    assert_eq!(result.pairs[6].opening.color_level.level, 0);
}

#[test]
fn test_brackets_in_block_comments() {
    let matcher = StackBasedMatcher::new(ColorScheme::default_rainbow());
    let content = "{ /* ( */ }";

    let result = matcher.analyze(content, Language::Generic);

    assert_eq!(result.pairs.len(), 1);
    assert_eq!(result.statistics.curly_pairs, 1);
    assert_eq!(result.unmatched.len(), 0);
}

#[test]
fn test_block_comment_terminator_consumed() {
    let matcher = StackBasedMatcher::new(ColorScheme::default_rainbow());
    let content = "/* */ ( )";

    let result = matcher.analyze(content, Language::Generic);

    assert_eq!(result.pairs.len(), 1);
    assert_eq!(result.statistics.round_pairs, 1);
    assert_eq!(result.unmatched.len(), 0);
}

#[test]
fn test_unmatched_reasons() {
    let matcher = StackBasedMatcher::new(ColorScheme::default_rainbow());
    let content = "{ ( }";

    let result = matcher.analyze(content, Language::Generic);

    assert_eq!(result.unmatched.len(), 3);
    // the closing bracket of the mismatch comes first
    assert_eq!(result.unmatched[0].bracket.bracket_type, BracketType::Curly);
    assert_eq!(
        result.unmatched[0].reason,
        UnmatchedReason::TypeMismatch { expected: BracketType::Round, found: BracketType::Curly }
    );
    // then the popped opening bracket
    assert_eq!(result.unmatched[1].bracket.bracket_type, BracketType::Round);
    assert_eq!(
        result.unmatched[1].reason,
        UnmatchedReason::TypeMismatch { expected: BracketType::Curly, found: BracketType::Round }
    );
    // the outer opening bracket is drained at end of input
    assert_eq!(result.unmatched[2].bracket.bracket_type, BracketType::Curly);
    assert_eq!(result.unmatched[2].reason, UnmatchedReason::MissingClosing);
}

#[test]
fn test_missing_opening_reason() {
    let matcher = StackBasedMatcher::new(ColorScheme::default_rainbow());
    let content = ")";

    let result = matcher.analyze(content, Language::Generic);

    assert_eq!(result.pairs.len(), 0);
    assert_eq!(result.unmatched.len(), 1);
    assert_eq!(result.unmatched[0].reason, UnmatchedReason::MissingOpening);
    assert_eq!(result.unmatched[0].bracket.depth, 0);
}

#[test]
fn test_scan_twice_is_identical() {
    // Idempotence: two scans of the same input agree on everything but
    // the elapsed time.
    let matcher = StackBasedMatcher::new(ColorScheme::default_rainbow());
    let content = "{ ( } [ // ]\n 'x' \"y(\" )";

    let first = matcher.analyze(content, Language::Generic);
    let second = matcher.analyze(content, Language::Generic);

    assert_eq!(first.pairs, second.pairs);
    assert_eq!(first.unmatched, second.unmatched);
    assert_eq!(first.max_depth, second.max_depth);
    assert_eq!(first.statistics, second.statistics);
}

#[test]
fn test_angle_brackets_counted_for_generic_language() {
    let matcher = StackBasedMatcher::new(ColorScheme::default_rainbow());
    let content = "<>";

    let result = matcher.analyze(content, Language::Generic);

    assert_eq!(result.pairs.len(), 1);
    assert_eq!(result.statistics.angle_pairs, 1);
    assert_eq!(result.unmatched.len(), 0);
}

#[test]
fn test_angle_bracket_suppression_after_identifier() {
    // For a language with generics, an angle bracket right after an
    // identifier character is treated as a generic, not a bracket.
    let matcher = StackBasedMatcher::new(ColorScheme::default_rainbow());
    let content = "a<()";

    let result = matcher.analyze(content, Language::Rust);

    assert_eq!(result.pairs.len(), 1);
    assert_eq!(result.statistics.round_pairs, 1);
    assert_eq!(result.unmatched.len(), 0);
}

#[test]
fn test_positions_count_bytes_and_characters() {
    // Columns count characters; byte offsets count UTF-8 bytes.
    let matcher = StackBasedMatcher::new(ColorScheme::default_rainbow());
    let content = "\u{e9}{}"; // one two-byte character before the pair

    let result = matcher.analyze(content, Language::Generic);

    assert_eq!(result.pairs.len(), 1);
    assert_eq!(result.pairs[0].opening.position.line, 0);
    assert_eq!(result.pairs[0].opening.position.column, 1);
    assert_eq!(result.pairs[0].opening.position.byte_offset, 2);
    assert_eq!(result.pairs[0].closing.position.column, 2);
    assert_eq!(result.pairs[0].closing.position.byte_offset, 3);
}

#[test]
fn test_positions_across_newlines() {
    let matcher = StackBasedMatcher::new(ColorScheme::default_rainbow());
    let content = "{\n}";

    let result = matcher.analyze(content, Language::Generic);

    assert_eq!(result.pairs.len(), 1);
    assert_eq!(result.pairs[0].opening.position.line, 0);
    assert_eq!(result.pairs[0].opening.position.column, 0);
    assert_eq!(result.pairs[0].opening.position.byte_offset, 0);
    assert_eq!(result.pairs[0].closing.position.line, 1);
    assert_eq!(result.pairs[0].closing.position.column, 0);
    assert_eq!(result.pairs[0].closing.position.byte_offset, 2);
}

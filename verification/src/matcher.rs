//! The executable scanner: a stack-based bracket matcher proved to return
//! exactly what the functional model in [`crate::scan`] prescribes.

use vstd::prelude::*;
use crate::brackets::{
    stats_of, Bracket, BracketCollection, BracketPair, BracketSide, BracketType, ColorLevel,
    ColorScheme, Language, Position, UnmatchedBracket, UnmatchedReason,
};
use crate::chars::{
    char_is_alphanumeric, char_utf8_width, lemma_prefix_bytes_bound, lemma_prefix_bytes_step,
    str_byte_len,
};
use crate::clock::{elapsed_millis, instant_now};
use crate::scan::{
    drain, initial_scan_state, likely_generic, scan, scan_from, scan_max_depth, scan_pairs,
    scan_unmatched, step, LexContext, MatchState, ScanState,
};
use vstd::utf8::encode_utf8;

verus! {

/// Service interface for bracket analysis.  An analyzer reports, for the
/// given text and language, the matched pairs, the unmatched brackets,
/// and the maximum nesting depth that the scan model prescribes, with the
/// colors of its own scheme.
pub trait BracketAnalyzer {
    spec fn analyzer_color_count(&self) -> usize;

    /// Analyze source code and extract bracket pairs.
    fn analyze(&self, content: &str, language: Language) -> (r: BracketCollection)
        ensures
            r.pairs@ == scan_pairs(content@, language, self.analyzer_color_count()),
            r.unmatched@ == scan_unmatched(content@, language, self.analyzer_color_count()),
            r.max_depth == scan_max_depth(content@, language, self.analyzer_color_count()),
            r.statistics == stats_of(r.pairs@),
    ;
}

/// Stack-based bracket matcher: a single forward pass pushes opening
/// brackets, pops closing brackets against the top of the stack, and
/// assigns each bracket a color from its scheme by nesting depth.
pub struct StackBasedMatcher {
    color_scheme: ColorScheme,
}

impl StackBasedMatcher {
    pub closed spec fn spec_color_count(&self) -> usize {
        self.color_scheme.spec_color_count()
    }

    pub fn new(color_scheme: ColorScheme) -> (r: StackBasedMatcher)
        ensures
            r.spec_color_count() == color_scheme.spec_color_count(),
    {
        StackBasedMatcher { color_scheme }
    }

    /// Collects the characters of the text, so that the scan can step by
    /// index and consume a two-character comment terminator in one step.
    fn collect_chars(content: &str) -> (chars: Vec<char>)
        ensures
            chars@ == content@,
    {
        let mut chars: Vec<char> = Vec::new();
        for c in it: content.chars()
            invariant
                chars@ == it.seq().take(it.index() as int),
                it.seq() == content@,
        {
            proof {
                assert(it.seq().take(it.index() as int + 1) =~= it.seq().take(
                    it.index() as int,
                ).push(it.seq()[it.index() as int]));
            }
            chars.push(c);
        }
        proof {
            assert(chars@ =~= content@);
        }
        chars
    }

    /// Match brackets using the stack algorithm.  The result is exactly
    /// what the scan model prescribes for this text, language and color
    /// count; only the elapsed time is left open, since it depends on the
    /// clock.
    #[verifier::loop_isolation(false)]
    pub fn match_brackets(&self, content: &str, language: Language) -> (r: BracketCollection)
        ensures
            r.pairs@ == scan_pairs(content@, language, self.spec_color_count()),
            r.unmatched@ == scan_unmatched(content@, language, self.spec_color_count()),
            r.max_depth == scan_max_depth(content@, language, self.spec_color_count()),
            r.statistics == stats_of(r.pairs@),
    {
        let start = instant_now();
        let ghost s = content@;
        let color_count = self.color_scheme.color_count();
        let byte_len = str_byte_len(content);
        let chars = Self::collect_chars(content);

        let mut ctx = LexContext::new();
        let mut line: usize = 0;
        let mut column: usize = 0;
        let mut offset: usize = 0;
        let mut stack: Vec<Bracket> = Vec::new();
        let mut pairs: Vec<BracketPair> = Vec::new();
        let mut unmatched: Vec<UnmatchedBracket> = Vec::new();
        let mut max_depth: usize = 0;
        let mut i: usize = 0;
        let ghost mut toks: Seq<Bracket> = Seq::empty();
        let ghost mut st: ScanState = initial_scan_state();

        while i < chars.len()
            invariant
                i <= chars.len(),
                st == (ScanState {
                    ctx,
                    line,
                    column,
                    offset,
                    m: MatchState {
                        stack: stack@,
                        pairs: pairs@,
                        unmatched: unmatched@,
                        max_depth,
                    },
                    tokens: toks,
                    i: i as nat,
                }),
                offset == encode_utf8(s.take(i as int)).len(),
                byte_len == encode_utf8(s).len(),
                line <= offset,
                column <= offset,
                scan_from(s, language, color_count, st) == scan(s, language, color_count),
            decreases chars.len() - i,
        {
            let ghost st0 = st;
            let ch = chars[i];
            proof {
                lemma_prefix_bytes_step(s, i as int);
                lemma_prefix_bytes_bound(s, i as int + 1);
            }
            if ctx.escape_next {
                ctx.escape_next = false;
                if ch == '\n' {
                    line = line + 1;
                    column = 0;
                    offset = offset + 1;
                } else {
                    column = column + 1;
                    offset = offset + char_utf8_width(ch);
                }
                i = i + 1;
            } else if ch == '\\' && (ctx.in_double_quote_string || ctx.in_single_quote_string) {
                ctx.escape_next = true;
                column = column + 1;
                offset = offset + 1;
                i = i + 1;
            } else if ch == '\n' {
                line = line + 1;
                column = 0;
                offset = offset + 1;
                ctx.in_line_comment = false;
                i = i + 1;
            } else {
                if ch == '"' && !ctx.in_single_quote_string && !ctx.in_line_comment
                    && !ctx.in_block_comment {
                    ctx.in_double_quote_string = !ctx.in_double_quote_string;
                } else if ch == '\'' && !ctx.in_double_quote_string && !ctx.in_line_comment
                    && !ctx.in_block_comment {
                    ctx.in_single_quote_string = !ctx.in_single_quote_string;
                }
                if !ctx.in_double_quote_string && !ctx.in_single_quote_string {
                    if i + 1 < chars.len() && ch == '/' && chars[i + 1] == '/' {
                        ctx.in_line_comment = true;
                    }
                    if i + 1 < chars.len() && ch == '/' && chars[i + 1] == '*' {
                        ctx.in_block_comment = true;
                    }
                    if i + 1 < chars.len() && ch == '*' && chars[i + 1] == '/'
                        && ctx.in_block_comment {
                        ctx.in_block_comment = false;
                        proof {
                            lemma_prefix_bytes_step(s, i as int + 1);
                            lemma_prefix_bytes_bound(s, i as int + 2);
                        }
                        column = column + 2;
                        offset = offset + 2;
                        i = i + 2;
                    } else {
                        if !ctx.in_line_comment && !ctx.in_block_comment {
                            match BracketType::from_char(ch) {
                                Some((bt, side)) => {
                                    let mut suppress = false;
                                    if bt == BracketType::Angle
                                        && language.uses_angle_brackets_as_generics() {
                                        if self.is_likely_generic_bracket(chars.as_slice(), i) {
                                            suppress = true;
                                        }
                                    }
                                    if !suppress {
                                        let position = Position::new(line, column, offset);
                                        let depth = stack.len();
                                        let color_level = ColorLevel::from_depth(
                                            depth,
                                            color_count,
                                        );
                                        let bracket = Bracket::new(
                                            bt,
                                            side,
                                            position,
                                            depth,
                                            color_level,
                                        );
                                        match side {
                                            BracketSide::Opening => {
                                                stack.push(bracket);
                                                if depth > max_depth {
                                                    max_depth = depth;
                                                }
                                            },
                                            BracketSide::Closing => {
                                                match stack.pop() {
                                                    Some(opening) => {
                                                        if opening.bracket_type == bt {
                                                            pairs.push(
                                                                BracketPair::new(opening, bracket),
                                                            );
                                                        } else {
                                                            unmatched.push(
                                                                UnmatchedBracket {
                                                                    bracket,
                                                                    reason:
                                                                        UnmatchedReason::TypeMismatch {
                                                                        expected:
                                                                            opening.bracket_type,
                                                                        found: bt,
                                                                    },
                                                                },
                                                            );
                                                            unmatched.push(
                                                                UnmatchedBracket {
                                                                    bracket: opening,
                                                                    reason:
                                                                        UnmatchedReason::TypeMismatch {
                                                                        expected: bt,
                                                                        found:
                                                                            opening.bracket_type,
                                                                    },
                                                                },
                                                            );
                                                        }
                                                    },
                                                    None => {
                                                        unmatched.push(
                                                            UnmatchedBracket {
                                                                bracket,
                                                                reason:
                                                                    UnmatchedReason::MissingOpening,
                                                            },
                                                        );
                                                    },
                                                }
                                            },
                                        }
                                        proof {
                                            toks = toks.push(bracket);
                                        }
                                    }
                                },
                                None => {},
                            }
                        }
                        column = column + 1;
                        offset = offset + char_utf8_width(ch);
                        i = i + 1;
                    }
                } else {
                    column = column + 1;
                    offset = offset + char_utf8_width(ch);
                    i = i + 1;
                }
            }
            proof {
                st = ScanState {
                    ctx,
                    line,
                    column,
                    offset,
                    m: MatchState {
                        stack: stack@,
                        pairs: pairs@,
                        unmatched: unmatched@,
                        max_depth,
                    },
                    tokens: toks,
                    i: i as nat,
                };
                assert(st =~= step(s, language, color_count, st0));
                assert(scan_from(s, language, color_count, st0) == scan_from(
                    s,
                    language,
                    color_count,
                    st,
                ));
            }
        }

        let ghost fin = scan(s, language, color_count);
        proof {
            assert(st == fin);
        }

        while stack.len() > 0
            invariant
                pairs@ == fin.m.pairs,
                max_depth == fin.m.max_depth,
                unmatched@ + drain(stack@) == fin.m.unmatched + drain(fin.m.stack),
            decreases stack.len(),
        {
            let ghost prev = stack@;
            let b = stack.pop().unwrap();
            unmatched.push(UnmatchedBracket { bracket: b, reason: UnmatchedReason::MissingClosing });
            proof {
                assert(drain(prev) == seq![
                    UnmatchedBracket { bracket: prev.last(), reason: UnmatchedReason::MissingClosing },
                ] + drain(prev.drop_last()));
                assert(unmatched@ + drain(stack@) =~= fin.m.unmatched + drain(fin.m.stack));
            }
        }
        proof {
            assert(drain(stack@) =~= Seq::<UnmatchedBracket>::empty());
            assert(unmatched@ =~= fin.m.unmatched + drain(fin.m.stack));
        }

        let elapsed = elapsed_millis(&start);
        BracketCollection::new(pairs, unmatched, max_depth, elapsed)
    }

    /// Heuristic to detect whether an angle bracket is likely a generic or
    /// template delimiter rather than a comparison operator: it looks only
    /// at the immediately neighbouring characters.
    fn is_likely_generic_bracket(&self, chars: &[char], pos: usize) -> (r: bool)
        requires
            pos < chars@.len(),
        ensures
            r == likely_generic(chars@, pos as nat),
    {
        if pos > 0 {
            let prev = chars[pos - 1];
            if char_is_alphanumeric(prev) || prev == '_' {
                return true;
            }
        }
        if pos + 1 < chars.len() {
            let next = chars[pos + 1];
            if char_is_alphanumeric(next) || next == '_' || next == ',' || next == ' ' {
                return true;
            }
        }
        false
    }
}

impl BracketAnalyzer for StackBasedMatcher {
    open spec fn analyzer_color_count(&self) -> usize {
        self.spec_color_count()
    }

    fn analyze(&self, content: &str, language: Language) -> (r: BracketCollection) {
        self.match_brackets(content, language)
    }
}

} // verus!

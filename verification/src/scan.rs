//! The functional model of the scan: a lexical context tracker, a stack
//! matcher, and a step function that consumes one character (or one
//! two-character comment terminator) at a time.  The executable scanner in
//! [`crate::matcher`] is proved to compute exactly what this model says.

use vstd::prelude::*;
use crate::brackets::{
    classify, Bracket, BracketPair, BracketSide, BracketType, ColorLevel, Language, Position,
    UnmatchedBracket, UnmatchedReason,
};
use crate::chars::{char_width, is_alnum};

verus! {

/// Whether the scan position is inside a string, a line comment, a block
/// comment, or pending an escape sequence.  All fields start out false and
/// are scoped to a single scan.
#[derive(Clone, Copy, Debug, PartialEq, Eq, Structural)]
pub struct LexContext {
    pub in_double_quote_string: bool,
    pub in_single_quote_string: bool,
    pub in_line_comment: bool,
    pub in_block_comment: bool,
    pub escape_next: bool,
}

impl LexContext {
    /// The context at the start of a scan: plain code.
    pub fn new() -> (r: LexContext)
        ensures
            r == initial_context(),
    {
        LexContext {
            in_double_quote_string: false,
            in_single_quote_string: false,
            in_line_comment: false,
            in_block_comment: false,
            escape_next: false,
        }
    }

    /// Brackets are classified only in plain code: outside every string
    /// and comment.
    pub open spec fn spec_in_code(self) -> bool {
        !self.in_double_quote_string && !self.in_single_quote_string && !self.in_line_comment
            && !self.in_block_comment
    }
}

pub open spec fn initial_context() -> LexContext {
    LexContext {
        in_double_quote_string: false,
        in_single_quote_string: false,
        in_line_comment: false,
        in_block_comment: false,
        escape_next: false,
    }
}

/// The state of the stack matcher: currently-open brackets, matched pairs
/// and unmatched brackets in discovery order, and the maximum nesting
/// depth seen so far.
#[verifier::ext_equal]
pub struct MatchState {
    pub stack: Seq<Bracket>,
    pub pairs: Seq<BracketPair>,
    pub unmatched: Seq<UnmatchedBracket>,
    pub max_depth: usize,
}

pub open spec fn initial_match_state() -> MatchState {
    MatchState { stack: Seq::empty(), pairs: Seq::empty(), unmatched: Seq::empty(), max_depth: 0 }
}

/// One bracket event against the matcher: an opening bracket is pushed; a
/// closing bracket pops and either pairs with the opening of the same
/// type, reports a missing opening on an empty stack, or reports a type
/// mismatch twice, once for each end.
pub open spec fn mstep(m: MatchState, b: Bracket) -> MatchState {
    if b.side == BracketSide::Opening {
        MatchState {
            stack: m.stack.push(b),
            max_depth: if m.stack.len() > m.max_depth {
                m.stack.len() as usize
            } else {
                m.max_depth
            },
            ..m
        }
    } else if m.stack.len() == 0 {
        MatchState {
            unmatched: m.unmatched.push(
                UnmatchedBracket { bracket: b, reason: UnmatchedReason::MissingOpening },
            ),
            ..m
        }
    } else {
        let o = m.stack.last();
        if o.bracket_type == b.bracket_type {
            MatchState {
                stack: m.stack.drop_last(),
                pairs: m.pairs.push(BracketPair { opening: o, closing: b, depth: o.depth }),
                ..m
            }
        } else {
            MatchState {
                stack: m.stack.drop_last(),
                unmatched: m.unmatched.push(
                    UnmatchedBracket {
                        bracket: b,
                        reason: UnmatchedReason::TypeMismatch {
                            expected: o.bracket_type,
                            found: b.bracket_type,
                        },
                    },
                ).push(
                    UnmatchedBracket {
                        bracket: o,
                        reason: UnmatchedReason::TypeMismatch {
                            expected: b.bracket_type,
                            found: o.bracket_type,
                        },
                    },
                ),
                ..m
            }
        }
    }
}

/// The matcher run over a whole sequence of bracket events, left to right.
pub open spec fn mfold(m: MatchState, ts: Seq<Bracket>) -> MatchState
    decreases ts.len(),
{
    if ts.len() == 0 {
        m
    } else {
        mfold(mstep(m, ts.first()), ts.drop_first())
    }
}

/// The whole state of a scan in progress: the lexical context, the
/// position of the next character, the matcher, the brackets classified so
/// far in scan order, and the index of the next character.
#[verifier::ext_equal]
pub struct ScanState {
    pub ctx: LexContext,
    pub line: usize,
    pub column: usize,
    pub offset: usize,
    pub m: MatchState,
    pub tokens: Seq<Bracket>,
    pub i: nat,
}

pub open spec fn initial_scan_state() -> ScanState {
    ScanState {
        ctx: initial_context(),
        line: 0,
        column: 0,
        offset: 0,
        m: initial_match_state(),
        tokens: Seq::empty(),
        i: 0,
    }
}

/// The angle-bracket suppression heuristic: an identifier character just
/// before the bracket suggests `Name<...>`, and an identifier character,
/// comma or space just after suggests `...<T, U>` or `...T>`.  Both checks
/// are deliberately imprecise.
pub open spec fn likely_generic(s: Seq<char>, i: nat) -> bool {
    (i > 0 && (is_alnum(s[i as int - 1]) || s[i as int - 1] == '_')) || (i + 1 < s.len() && (
    is_alnum(s[i as int + 1]) || s[i as int + 1] == '_' || s[i as int + 1] == ','
        || s[i as int + 1] == ' '))
}

/// One step of the scan at character `s[st.i]`, in this precedence order:
/// a pending escape consumes the character with position bookkeeping only;
/// a backslash inside a string starts an escape; a newline advances the
/// line and ends any line comment; otherwise quotes may toggle the string
/// flags, comment delimiters may toggle the comment flags (a `*/` that
/// closes a block comment is consumed as one two-character token), and
/// only in plain code is the character classified as a bracket and fed to
/// the matcher.
pub open spec fn step(s: Seq<char>, lang: Language, color_count: usize, st: ScanState) -> ScanState
    recommends
        st.i < s.len(),
{
    let ch = s[st.i as int];
    if st.ctx.escape_next {
        if ch == '\n' {
            ScanState {
                ctx: LexContext { escape_next: false, ..st.ctx },
                line: (st.line + 1) as usize,
                column: 0,
                offset: (st.offset + 1) as usize,
                i: st.i + 1,
                ..st
            }
        } else {
            ScanState {
                ctx: LexContext { escape_next: false, ..st.ctx },
                column: (st.column + 1) as usize,
                offset: (st.offset + char_width(ch)) as usize,
                i: st.i + 1,
                ..st
            }
        }
    } else if ch == '\\' && (st.ctx.in_double_quote_string || st.ctx.in_single_quote_string) {
        ScanState {
            ctx: LexContext { escape_next: true, ..st.ctx },
            column: (st.column + 1) as usize,
            offset: (st.offset + 1) as usize,
            i: st.i + 1,
            ..st
        }
    } else if ch == '\n' {
        ScanState {
            ctx: LexContext { in_line_comment: false, ..st.ctx },
            line: (st.line + 1) as usize,
            column: 0,
            offset: (st.offset + 1) as usize,
            i: st.i + 1,
            ..st
        }
    } else {
        let dq = if ch == '"' && !st.ctx.in_single_quote_string && !st.ctx.in_line_comment
            && !st.ctx.in_block_comment {
            !st.ctx.in_double_quote_string
        } else {
            st.ctx.in_double_quote_string
        };
        let sq = if ch == '\'' && !st.ctx.in_double_quote_string && !st.ctx.in_line_comment
            && !st.ctx.in_block_comment {
            !st.ctx.in_single_quote_string
        } else {
            st.ctx.in_single_quote_string
        };
        if !dq && !sq {
            let lc = if st.i + 1 < s.len() && ch == '/' && s[st.i as int + 1] == '/' {
                true
            } else {
                st.ctx.in_line_comment
            };
            let bc = if st.i + 1 < s.len() && ch == '/' && s[st.i as int + 1] == '*' {
                true
            } else {
                st.ctx.in_block_comment
            };
            if st.i + 1 < s.len() && ch == '*' && s[st.i as int + 1] == '/' && bc {
                ScanState {
                    ctx: LexContext {
                        in_double_quote_string: dq,
                        in_single_quote_string: sq,
                        in_line_comment: lc,
                        in_block_comment: false,
                        ..st.ctx
                    },
                    column: (st.column + 2) as usize,
                    offset: (st.offset + 2) as usize,
                    i: st.i + 2,
                    ..st
                }
            } else {
                let ctx2 = LexContext {
                    in_double_quote_string: dq,
                    in_single_quote_string: sq,
                    in_line_comment: lc,
                    in_block_comment: bc,
                    ..st.ctx
                };
                let advanced = ScanState {
                    ctx: ctx2,
                    column: (st.column + 1) as usize,
                    offset: (st.offset + char_width(ch)) as usize,
                    i: st.i + 1,
                    ..st
                };
                if !lc && !bc {
                    match classify(ch) {
                        Some((bt, side)) => {
                            if bt == BracketType::Angle && lang.spec_uses_angle_brackets_as_generics()
                                && likely_generic(s, st.i) {
                                advanced
                            } else {
                                let b = Bracket {
                                    bracket_type: bt,
                                    side,
                                    position: Position {
                                        line: st.line,
                                        column: st.column,
                                        byte_offset: st.offset,
                                    },
                                    depth: st.m.stack.len() as usize,
                                    color_level: ColorLevel {
                                        level: (st.m.stack.len() as usize % color_count) as usize,
                                    },
                                };
                                ScanState { m: mstep(st.m, b), tokens: st.tokens.push(b), ..advanced }
                            }
                        },
                        None => advanced,
                    }
                } else {
                    advanced
                }
            }
        } else {
            ScanState {
                ctx: LexContext { in_double_quote_string: dq, in_single_quote_string: sq, ..st.ctx },
                column: (st.column + 1) as usize,
                offset: (st.offset + char_width(ch)) as usize,
                i: st.i + 1,
                ..st
            }
        }
    }
}

/// The scan run to the end of the text from a given state.
pub open spec fn scan_from(s: Seq<char>, lang: Language, color_count: usize, st: ScanState) -> ScanState
    decreases s.len() - st.i,
{
    if st.i >= s.len() {
        st
    } else {
        scan_from(s, lang, color_count, step(s, lang, color_count, st))
    }
}

/// The whole scan of a text, from the initial state.
pub open spec fn scan(s: Seq<char>, lang: Language, color_count: usize) -> ScanState {
    scan_from(s, lang, color_count, initial_scan_state())
}

/// At end of input every bracket still on the stack is unmatched for want
/// of a closing bracket, reported in pop order: innermost first.
pub open spec fn drain(stack: Seq<Bracket>) -> Seq<UnmatchedBracket>
    decreases stack.len(),
{
    if stack.len() == 0 {
        Seq::empty()
    } else {
        seq![UnmatchedBracket { bracket: stack.last(), reason: UnmatchedReason::MissingClosing }]
            + drain(stack.drop_last())
    }
}

/// The matched pairs a scan of `s` must produce, in discovery order.
pub open spec fn scan_pairs(s: Seq<char>, lang: Language, color_count: usize) -> Seq<BracketPair> {
    scan(s, lang, color_count).m.pairs
}

/// The unmatched brackets a scan of `s` must produce: those discovered
/// during the pass, then the drained stack.
pub open spec fn scan_unmatched(s: Seq<char>, lang: Language, color_count: usize) -> Seq<
    UnmatchedBracket,
> {
    scan(s, lang, color_count).m.unmatched + drain(scan(s, lang, color_count).m.stack)
}

/// The maximum nesting depth a scan of `s` must report.
pub open spec fn scan_max_depth(s: Seq<char>, lang: Language, color_count: usize) -> usize {
    scan(s, lang, color_count).m.max_depth
}

/// Every bracket a scan of `s` classifies, in scan order, with the
/// position, depth and color it was recorded with.
pub open spec fn scan_tokens(s: Seq<char>, lang: Language, color_count: usize) -> Seq<Bracket> {
    scan(s, lang, color_count).tokens
}

} // verus!

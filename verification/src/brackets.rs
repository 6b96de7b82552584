//! The bracket domain model: positions, bracket occurrences, matched pairs,
//! unmatched brackets, color configuration, and the aggregated scan result.

use vstd::prelude::*;

verus! {

/// A location in the scanned text: 0-based line, 0-based column counted in
/// characters, and the byte offset of the character in the UTF-8 encoding.
#[derive(Clone, Copy, Debug, PartialEq, Eq, Structural)]
pub struct Position {
    pub line: usize,
    pub column: usize,
    pub byte_offset: usize,
}

impl Position {
    pub fn new(line: usize, column: usize, byte_offset: usize) -> (r: Position)
        ensures
            r == (Position { line, column, byte_offset }),
    {
        Position { line, column, byte_offset }
    }
}

/// The bracket family a character belongs to.
#[derive(Clone, Copy, Debug, PartialEq, Eq, Structural)]
pub enum BracketType {
    Round,
    Square,
    Curly,
    Angle,
}

/// Whether a bracket character opens or closes a nesting level.
#[derive(Clone, Copy, Debug, PartialEq, Eq, Structural)]
pub enum BracketSide {
    Opening,
    Closing,
}

/// Classification of a single character as a bracket, if it is one.
pub open spec fn classify(c: char) -> Option<(BracketType, BracketSide)> {
    if c == '(' {
        Some((BracketType::Round, BracketSide::Opening))
    } else if c == ')' {
        Some((BracketType::Round, BracketSide::Closing))
    } else if c == '[' {
        Some((BracketType::Square, BracketSide::Opening))
    } else if c == ']' {
        Some((BracketType::Square, BracketSide::Closing))
    } else if c == '{' {
        Some((BracketType::Curly, BracketSide::Opening))
    } else if c == '}' {
        Some((BracketType::Curly, BracketSide::Closing))
    } else if c == '<' {
        Some((BracketType::Angle, BracketSide::Opening))
    } else if c == '>' {
        Some((BracketType::Angle, BracketSide::Closing))
    } else {
        None
    }
}

impl BracketType {
    /// Maps a character to its bracket type and side; any other character
    /// is not bracket-related.
    pub fn from_char(c: char) -> (r: Option<(BracketType, BracketSide)>)
        ensures
            r == classify(c),
    {
        match c {
            '(' => Some((BracketType::Round, BracketSide::Opening)),
            ')' => Some((BracketType::Round, BracketSide::Closing)),
            '[' => Some((BracketType::Square, BracketSide::Opening)),
            ']' => Some((BracketType::Square, BracketSide::Closing)),
            '{' => Some((BracketType::Curly, BracketSide::Opening)),
            '}' => Some((BracketType::Curly, BracketSide::Closing)),
            '<' => Some((BracketType::Angle, BracketSide::Opening)),
            '>' => Some((BracketType::Angle, BracketSide::Closing)),
            _ => None,
        }
    }
}

/// The cyclic rainbow color index assigned to a nesting depth.
#[derive(Clone, Copy, Debug, PartialEq, Eq, Structural)]
pub struct ColorLevel {
    pub level: usize,
}

impl ColorLevel {
    /// The color level for a nesting depth is the depth modulo the number
    /// of colors in the scheme.
    pub fn from_depth(depth: usize, color_count: usize) -> (r: ColorLevel)
        requires
            color_count >= 1,
        ensures
            r == (ColorLevel { level: (depth % color_count) as usize }),
    {
        ColorLevel { level: depth % color_count }
    }
}

/// Rendering configuration: how many colors the rainbow cycles through.
/// A scheme always holds at least one color; a zero count is rejected at
/// construction.
#[derive(Clone, Copy, Debug)]
pub struct ColorScheme {
    color_count: usize,
}

impl ColorScheme {
    #[verifier::type_invariant]
    pub closed spec fn wf(self) -> bool {
        self.color_count >= 1
    }

    pub closed spec fn spec_color_count(self) -> usize {
        self.color_count
    }

    /// Builds a scheme with the given number of colors; a count of zero is
    /// a configuration error and is rejected.
    pub fn new(color_count: usize) -> (r: Option<ColorScheme>)
        ensures
            color_count == 0 <==> r is None,
            r matches Some(cs) ==> cs.spec_color_count() == color_count,
    {
        if color_count == 0 {
            None
        } else {
            Some(ColorScheme { color_count })
        }
    }

    /// The default rainbow palette of six colors.
    pub fn default_rainbow() -> (r: ColorScheme)
        ensures
            r.spec_color_count() == 6,
    {
        ColorScheme { color_count: 6 }
    }

    pub fn color_count(&self) -> (r: usize)
        ensures
            r == self.spec_color_count(),
            r >= 1,
    {
        proof {
            use_type_invariant(self);
        }
        self.color_count
    }
}

/// One scanned occurrence of a bracket character.  The depth of a bracket
/// is the number of still-open brackets at the moment it was scanned,
/// before any push or pop it causes.
#[derive(Clone, Copy, Debug, PartialEq, Eq, Structural)]
pub struct Bracket {
    pub bracket_type: BracketType,
    pub side: BracketSide,
    pub position: Position,
    pub depth: usize,
    pub color_level: ColorLevel,
}

impl Bracket {
    pub fn new(
        bracket_type: BracketType,
        side: BracketSide,
        position: Position,
        depth: usize,
        color_level: ColorLevel,
    ) -> (r: Bracket)
        ensures
            r == (Bracket { bracket_type, side, position, depth, color_level }),
    {
        Bracket { bracket_type, side, position, depth, color_level }
    }
}

/// A successful match: an opening bracket paired with the closing bracket
/// of the same type that popped it.
#[derive(Clone, Copy, Debug, PartialEq, Eq, Structural)]
pub struct BracketPair {
    pub opening: Bracket,
    pub closing: Bracket,
    pub depth: usize,
}

impl BracketPair {
    pub fn new(opening: Bracket, closing: Bracket) -> (r: BracketPair)
        ensures
            r == (BracketPair { opening, closing, depth: opening.depth }),
    {
        BracketPair { opening, closing, depth: opening.depth }
    }
}

/// Why a bracket failed to pair.  A type mismatch records both the type
/// that was expected and the type that was found.
#[derive(Clone, Copy, Debug, PartialEq, Eq, Structural)]
pub enum UnmatchedReason {
    MissingOpening,
    MissingClosing,
    TypeMismatch { expected: BracketType, found: BracketType },
}

/// A bracket without a valid partner, with the reason it failed to pair.
#[derive(Clone, Copy, Debug, PartialEq, Eq, Structural)]
pub struct UnmatchedBracket {
    pub bracket: Bracket,
    pub reason: UnmatchedReason,
}

/// The languages the scanner distinguishes.  The only language-dependent
/// behaviour is whether angle brackets are treated as generics and so are
/// suppressed by the heuristic; all lexical rules for strings and comments
/// are language-independent.
#[derive(Clone, Copy, Debug, PartialEq, Eq, Structural)]
pub enum Language {
    Rust,
    JavaScript,
    TypeScript,
    Python,
    Java,
    Go,
    Generic,
}

impl Language {
    pub open spec fn spec_uses_angle_brackets_as_generics(self) -> bool {
        self == Language::Rust || self == Language::TypeScript || self == Language::Java
    }

    /// Whether angle brackets in this language usually mark generics, so
    /// that the suppression heuristic should be consulted for them.
    pub fn uses_angle_brackets_as_generics(&self) -> (r: bool)
        ensures
            r == self.spec_uses_angle_brackets_as_generics(),
    {
        match self {
            Language::Rust => true,
            Language::TypeScript => true,
            Language::Java => true,
            _ => false,
        }
    }
}

/// The number of pairs in `ps` whose opening bracket has type `t`.
pub open spec fn count_pairs_of_type(ps: Seq<BracketPair>, t: BracketType) -> nat
    decreases ps.len(),
{
    if ps.len() == 0 {
        0
    } else {
        count_pairs_of_type(ps.drop_last(), t) + if ps.last().opening.bracket_type == t {
            1nat
        } else {
            0nat
        }
    }
}

/// Every pair has exactly one of the four types, so the per-type counts
/// sum to the number of pairs.
pub proof fn lemma_counts_sum_to_len(ps: Seq<BracketPair>)
    ensures
        count_pairs_of_type(ps, BracketType::Round) + count_pairs_of_type(ps, BracketType::Square)
            + count_pairs_of_type(ps, BracketType::Curly) + count_pairs_of_type(
            ps,
            BracketType::Angle,
        ) == ps.len(),
    decreases ps.len(),
{
    if ps.len() > 0 {
        lemma_counts_sum_to_len(ps.drop_last());
    }
}

/// Derived counts of matched pairs, by bracket type.
#[derive(Clone, Copy, Debug, PartialEq, Eq, Structural)]
pub struct Statistics {
    pub round_pairs: usize,
    pub square_pairs: usize,
    pub curly_pairs: usize,
    pub angle_pairs: usize,
}

/// What the statistics of a sequence of pairs must be.
pub open spec fn stats_of(ps: Seq<BracketPair>) -> Statistics {
    Statistics {
        round_pairs: count_pairs_of_type(ps, BracketType::Round) as usize,
        square_pairs: count_pairs_of_type(ps, BracketType::Square) as usize,
        curly_pairs: count_pairs_of_type(ps, BracketType::Curly) as usize,
        angle_pairs: count_pairs_of_type(ps, BracketType::Angle) as usize,
    }
}

impl Statistics {
    /// The total number of matched pairs, across all bracket types.
    pub fn total_pairs(&self) -> (r: usize)
        requires
            self.round_pairs + self.square_pairs + self.curly_pairs + self.angle_pairs
                <= usize::MAX,
        ensures
            r == self.round_pairs + self.square_pairs + self.curly_pairs + self.angle_pairs,
    {
        self.round_pairs + self.square_pairs + self.curly_pairs + self.angle_pairs
    }
}

/// The immutable result of one scan: matched pairs and unmatched brackets
/// in discovery order, the maximum nesting depth, derived statistics, and
/// the wall-clock duration of the scan in milliseconds.
#[derive(Clone, Debug)]
pub struct BracketCollection {
    pub pairs: Vec<BracketPair>,
    pub unmatched: Vec<UnmatchedBracket>,
    pub max_depth: usize,
    pub statistics: Statistics,
    pub elapsed_ms: u64,
}

impl BracketCollection {
    /// Assembles the scan result, deriving the per-type pair counts from
    /// the matched pairs.
    pub fn new(
        pairs: Vec<BracketPair>,
        unmatched: Vec<UnmatchedBracket>,
        max_depth: usize,
        elapsed_ms: u64,
    ) -> (r: BracketCollection)
        ensures
            r.pairs == pairs,
            r.unmatched == unmatched,
            r.max_depth == max_depth,
            r.elapsed_ms == elapsed_ms,
            r.statistics == stats_of(pairs@),
            r.statistics.round_pairs + r.statistics.square_pairs + r.statistics.curly_pairs
                + r.statistics.angle_pairs == pairs@.len(),
            pairs@.len() <= usize::MAX,
    {
        let n = pairs.len();
        let statistics = compute_statistics(&pairs);
        proof {
            lemma_counts_sum_to_len(pairs@);
            assert(n == pairs@.len());
        }
        BracketCollection { pairs, unmatched, max_depth, statistics, elapsed_ms }
    }

    /// The scan has errors exactly when some bracket failed to pair.
    pub fn has_errors(&self) -> (r: bool)
        ensures
            r == (self.unmatched@.len() > 0),
    {
        self.unmatched.len() > 0
    }
}

/// Counts the matched pairs of each bracket type.
fn compute_statistics(pairs: &Vec<BracketPair>) -> (r: Statistics)
    ensures
        r == stats_of(pairs@),
{
    let mut round: usize = 0;
    let mut square: usize = 0;
    let mut curly: usize = 0;
    let mut angle: usize = 0;
    let mut k: usize = 0;
    while k < pairs.len()
        invariant
            k <= pairs.len(),
            round == count_pairs_of_type(pairs@.take(k as int), BracketType::Round),
            square == count_pairs_of_type(pairs@.take(k as int), BracketType::Square),
            curly == count_pairs_of_type(pairs@.take(k as int), BracketType::Curly),
            angle == count_pairs_of_type(pairs@.take(k as int), BracketType::Angle),
        decreases pairs.len() - k,
    {
        proof {
            lemma_counts_sum_to_len(pairs@.take(k as int));
            assert(pairs@.take(k + 1).drop_last() =~= pairs@.take(k as int));
            assert(pairs@.take(k + 1).last() == pairs@[k as int]);
        }
        match pairs[k].opening.bracket_type {
            BracketType::Round => round = round + 1,
            BracketType::Square => square = square + 1,
            BracketType::Curly => curly = curly + 1,
            BracketType::Angle => angle = angle + 1,
        }
        k = k + 1;
    }
    proof {
        assert(pairs@.take(pairs@.len() as int) =~= pairs@);
    }
    Statistics { round_pairs: round, square_pairs: square, curly_pairs: curly, angle_pairs: angle }
}

} // verus!

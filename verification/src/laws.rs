//! The laws the scanner obeys, stated over the functional model and
//! proved once and for all: the balance invariant, the depth invariant,
//! the opacity of strings and comments, the robustness of escaped quotes,
//! and the idempotence of the scan.

use vstd::prelude::*;
use crate::brackets::{
    classify, stats_of, Bracket, BracketCollection, BracketSide, BracketType, Language,
    UnmatchedBracket, UnmatchedReason,
};
use crate::scan::{
    drain, initial_match_state, initial_scan_state, mfold, mstep, scan, scan_from, scan_max_depth,
    scan_pairs, scan_tokens, scan_unmatched, step, MatchState, ScanState,
};

verus! {

/// Processes a sequence of brackets left to right against a stack of the
/// bracket types whose closings are still expected: an opening bracket
/// expects one more closing; a closing bracket must close the innermost
/// expected type.  The sequence is accepted when it ends with nothing
/// left open.
pub open spec fn balanced_from(ts: Seq<Bracket>, expect: Seq<BracketType>) -> bool
    decreases ts.len(),
{
    if ts.len() == 0 {
        expect.len() == 0
    } else if ts.first().side == BracketSide::Opening {
        balanced_from(ts.drop_first(), expect.push(ts.first().bracket_type))
    } else {
        expect.len() > 0 && expect.last() == ts.first().bracket_type && balanced_from(
            ts.drop_first(),
            expect.drop_last(),
        )
    }
}

/// A properly nested sequence of brackets: every closing bracket closes
/// the innermost open bracket of the same type, and nothing is left open.
pub open spec fn balanced(ts: Seq<Bracket>) -> bool {
    balanced_from(ts, Seq::empty())
}

/// The expected closing types are exactly the types of the topmost
/// brackets of the matcher's stack, innermost last.
spec fn expect_matches(stack: Seq<Bracket>, expect: Seq<BracketType>) -> bool {
    &&& expect.len() <= stack.len()
    &&& forall|j: int|
        0 <= j < expect.len() ==> expect[j] == stack[stack.len() - expect.len() + j].bracket_type
}

/// Folding bracket events distributes over concatenation.
proof fn lemma_mfold_append(m: MatchState, a: Seq<Bracket>, b: Seq<Bracket>)
    ensures
        mfold(m, a + b) == mfold(mfold(m, a), b),
    decreases a.len(),
{
    if a.len() == 0 {
        assert(a + b =~= b);
    } else {
        assert((a + b).first() == a.first());
        assert((a + b).drop_first() =~= a.drop_first() + b);
        lemma_mfold_append(mstep(m, a.first()), a.drop_first(), b);
    }
}

/// Folding one more bracket event steps the folded state once.
proof fn lemma_mfold_snoc(m: MatchState, ts: Seq<Bracket>, b: Bracket)
    ensures
        mfold(m, ts.push(b)) == mstep(mfold(m, ts), b),
{
    let single = seq![b];
    assert(ts.push(b) =~= ts + single);
    lemma_mfold_append(m, ts, single);
    assert(single.first() == b);
    assert(single.drop_first() =~= Seq::<Bracket>::empty());
    let mm = mfold(m, ts);
    assert(mfold(mm, single) == mfold(mstep(mm, b), single.drop_first()));
    assert(mfold(mstep(mm, b), single.drop_first()) == mstep(mm, b));
}

/// Running the matcher over brackets that properly close the expected
/// types pops exactly those types off the stack, reports nothing
/// unmatched, and pairs up every closing bracket.
proof fn lemma_balanced_from_fold(m: MatchState, ts: Seq<Bracket>, expect: Seq<BracketType>)
    requires
        balanced_from(ts, expect),
        expect_matches(m.stack, expect),
    ensures
        mfold(m, ts).stack == m.stack.take(m.stack.len() - expect.len()),
        mfold(m, ts).unmatched == m.unmatched,
        mfold(m, ts).pairs.len() == m.pairs.len() + (ts.len() + expect.len()) / 2,
        (ts.len() + expect.len()) % 2 == 0,
    decreases ts.len(),
{
    if ts.len() == 0 {
        assert(m.stack.take(m.stack.len() as int) =~= m.stack);
    } else {
        let b = ts.first();
        let m1 = mstep(m, b);
        if b.side == BracketSide::Opening {
            let expect1 = expect.push(b.bracket_type);
            assert(m1.stack == m.stack.push(b));
            assert(expect_matches(m1.stack, expect1)) by {
                assert forall|j: int| 0 <= j < expect1.len() implies expect1[j] == m1.stack[
                    m1.stack.len() - expect1.len() + j].bracket_type by {
                    if j < expect.len() {
                        assert(expect1[j] == expect[j]);
                        assert(m1.stack[m.stack.len() - expect.len() + j] == m.stack[
                            m.stack.len() - expect.len() + j]);
                    } else {
                        assert(m1.stack[m1.stack.len() - 1] == b);
                    }
                }
            }
            lemma_balanced_from_fold(m1, ts.drop_first(), expect1);
            assert(m1.stack.take(m1.stack.len() - expect1.len()) =~= m.stack.take(
                m.stack.len() - expect.len(),
            ));
        } else {
            assert(expect.len() > 0 && expect.last() == b.bracket_type);
            assert(m.stack.len() > 0);
            assert(expect[expect.len() - 1] == m.stack[m.stack.len() - 1].bracket_type);
            assert(m.stack.last().bracket_type == b.bracket_type);
            let expect1 = expect.drop_last();
            assert(m1.stack == m.stack.drop_last());
            assert(m1.pairs.len() == m.pairs.len() + 1);
            assert(m1.unmatched == m.unmatched);
            assert(expect_matches(m1.stack, expect1)) by {
                assert forall|j: int| 0 <= j < expect1.len() implies expect1[j] == m1.stack[
                    m1.stack.len() - expect1.len() + j].bracket_type by {
                    assert(expect1[j] == expect[j]);
                    assert(m1.stack[m.stack.len() - expect.len() + j] == m.stack[
                        m.stack.len() - expect.len() + j]);
                }
            }
            lemma_balanced_from_fold(m1, ts.drop_first(), expect1);
            assert(m1.stack.take(m1.stack.len() - expect1.len()) =~= m.stack.take(
                m.stack.len() - expect.len(),
            ));
        }
    }
}

/// Running the matcher over a balanced sequence leaves the stack and the
/// unmatched report exactly as they were and pairs up every bracket.
pub proof fn lemma_balanced_fold(m: MatchState, ts: Seq<Bracket>)
    requires
        balanced(ts),
    ensures
        mfold(m, ts).stack == m.stack,
        mfold(m, ts).unmatched == m.unmatched,
        mfold(m, ts).pairs.len() == m.pairs.len() + ts.len() / 2,
        ts.len() % 2 == 0,
{
    lemma_balanced_from_fold(m, ts, Seq::empty());
    assert(m.stack.take(m.stack.len() as int) =~= m.stack);
}

/// The matcher component of a scan state is the fold of its recorded
/// bracket events.
pub open spec fn tracks_fold(st: ScanState) -> bool {
    st.m == mfold(initial_match_state(), st.tokens)
}

proof fn lemma_step_tracks(s: Seq<char>, lang: Language, color_count: usize, st: ScanState)
    requires
        st.i < s.len(),
        tracks_fold(st),
    ensures
        tracks_fold(step(s, lang, color_count, st)),
{
    let st1 = step(s, lang, color_count, st);
    if st1.tokens != st.tokens {
        let b = st1.tokens.last();
        assert(st1.tokens == st.tokens.push(b));
        assert(st1.m == mstep(st.m, b));
        lemma_mfold_snoc(initial_match_state(), st.tokens, b);
    }
}

proof fn lemma_scan_from_tracks(s: Seq<char>, lang: Language, color_count: usize, st: ScanState)
    requires
        tracks_fold(st),
    ensures
        tracks_fold(scan_from(s, lang, color_count, st)),
    decreases s.len() - st.i,
{
    if st.i < s.len() {
        lemma_step_tracks(s, lang, color_count, st);
        lemma_scan_from_tracks(s, lang, color_count, step(s, lang, color_count, st));
    }
}

/// The matched pairs, unmatched brackets and stack of a whole scan are
/// exactly the fold of the brackets it classified, in scan order.
pub proof fn lemma_scan_matcher_is_fold(s: Seq<char>, lang: Language, color_count: usize)
    ensures
        scan(s, lang, color_count).m == mfold(
            initial_match_state(),
            scan_tokens(s, lang, color_count),
        ),
{
    assert(tracks_fold(initial_scan_state())) by {
        assert(mfold(initial_match_state(), Seq::<Bracket>::empty()) == initial_match_state());
    }
    lemma_scan_from_tracks(s, lang, color_count, initial_scan_state());
}

/// Balance law: when the brackets the scan classifies outside strings and
/// comments form a properly nested sequence, the scan reports no
/// unmatched bracket, and twice the number of pairs equals the number of
/// those brackets.
pub proof fn lemma_balance_invariant(s: Seq<char>, lang: Language, color_count: usize)
    requires
        balanced(scan_tokens(s, lang, color_count)),
    ensures
        scan_unmatched(s, lang, color_count).len() == 0,
        scan_pairs(s, lang, color_count).len() * 2 == scan_tokens(s, lang, color_count).len(),
{
    lemma_scan_matcher_is_fold(s, lang, color_count);
    lemma_balanced_fold(initial_match_state(), scan_tokens(s, lang, color_count));
    let fin = scan(s, lang, color_count);
    assert(fin.m.stack =~= Seq::<Bracket>::empty());
    assert(drain(fin.m.stack) =~= Seq::<UnmatchedBracket>::empty());
    assert(scan_unmatched(s, lang, color_count) =~= Seq::<UnmatchedBracket>::empty());
}

/// The number of still-open brackets at the moment the `j`-th classified
/// bracket of the scan was reached.
pub open spec fn open_depth_at(s: Seq<char>, lang: Language, color_count: usize, j: int) -> nat {
    mfold(initial_match_state(), scan_tokens(s, lang, color_count).take(j)).stack.len()
}

/// The invariant behind the depth law, carried through every scan step.
spec fn depths_ok(s: Seq<char>, st: ScanState) -> bool {
    &&& tracks_fold(st)
    &&& st.tokens.len() <= st.i
    &&& st.i <= s.len()
    &&& forall|j: int|
        0 <= j < st.tokens.len() ==> (#[trigger] st.tokens[j]).depth == mfold(
            initial_match_state(),
            st.tokens.take(j),
        ).stack.len()
    &&& forall|j: int|
        0 <= j < st.tokens.len() && st.tokens[j].side == BracketSide::Opening ==> (
        #[trigger] st.tokens[j]).depth <= st.m.max_depth
    &&& (st.m.max_depth == 0 || exists|j: int|
        0 <= j < st.tokens.len() && st.tokens[j].side == BracketSide::Opening && (
        #[trigger] st.tokens[j]).depth == st.m.max_depth)
}

proof fn lemma_step_depths(s: Seq<char>, lang: Language, color_count: usize, st: ScanState)
    requires
        st.i < s.len(),
        s.len() <= usize::MAX,
        depths_ok(s, st),
    ensures
        depths_ok(s, step(s, lang, color_count, st)),
{
    let st1 = step(s, lang, color_count, st);
    if st1.tokens != st.tokens {
        let b = st1.tokens.last();
        assert(st1.tokens == st.tokens.push(b));
        assert(st1.m == mstep(st.m, b));
        lemma_mfold_snoc(initial_match_state(), st.tokens, b);
        assert(st.m.stack.len() <= st.tokens.len()) by {
            lemma_stack_below_tokens(st.tokens);
        }
        assert(b.depth == st.m.stack.len());
        assert forall|j: int| 0 <= j < st1.tokens.len() implies (#[trigger] st1.tokens[j]).depth
            == mfold(initial_match_state(), st1.tokens.take(j)).stack.len() by {
            assert(st1.tokens.take(j) =~= st.tokens.take(j));
            if j < st.tokens.len() {
                assert(st.tokens[j].depth == mfold(
                    initial_match_state(),
                    st.tokens.take(j),
                ).stack.len());
            } else {
                assert(st.tokens.take(j) =~= st.tokens);
            }
        }
        if b.side == BracketSide::Opening {
            if st.m.stack.len() > st.m.max_depth {
                assert(st1.m.max_depth == b.depth);
                assert(st1.tokens[st.tokens.len() as int] == b);
            } else {
                if st.m.max_depth != 0 {
                    let w = choose|j: int|
                        0 <= j < st.tokens.len() && st.tokens[j].side == BracketSide::Opening && (
                        #[trigger] st.tokens[j]).depth == st.m.max_depth;
                    assert(st1.tokens[w].side == BracketSide::Opening && st1.tokens[w].depth
                        == st1.m.max_depth);
                }
            }
        } else {
            assert(st1.m.max_depth == st.m.max_depth);
            if st.m.max_depth != 0 {
                let w = choose|j: int|
                    0 <= j < st.tokens.len() && st.tokens[j].side == BracketSide::Opening && (
                    #[trigger] st.tokens[j]).depth == st.m.max_depth;
                assert(st1.tokens[w].side == BracketSide::Opening && st1.tokens[w].depth
                    == st1.m.max_depth);
            }
        }
    }
}

/// The matcher's stack never holds more brackets than have been folded in.
proof fn lemma_stack_below_tokens(ts: Seq<Bracket>)
    ensures
        mfold(initial_match_state(), ts).stack.len() <= ts.len(),
    decreases ts.len(),
{
    lemma_stack_growth(initial_match_state(), ts);
}

proof fn lemma_stack_growth(m: MatchState, ts: Seq<Bracket>)
    ensures
        mfold(m, ts).stack.len() <= m.stack.len() + ts.len(),
    decreases ts.len(),
{
    if ts.len() > 0 {
        lemma_stack_growth(mstep(m, ts.first()), ts.drop_first());
    }
}

proof fn lemma_scan_from_depths(s: Seq<char>, lang: Language, color_count: usize, st: ScanState)
    requires
        s.len() <= usize::MAX,
        depths_ok(s, st),
    ensures
        depths_ok(s, scan_from(s, lang, color_count, st)),
    decreases s.len() - st.i,
{
    if st.i < s.len() {
        lemma_step_depths(s, lang, color_count, st);
        lemma_scan_from_depths(s, lang, color_count, step(s, lang, color_count, st));
    }
}

/// Depth law: every bracket the scan classifies is recorded with a depth
/// equal to the number of still-open brackets at the moment it was
/// scanned, and the reported maximum depth is the largest depth of any
/// opening bracket, or zero when there is none.
pub proof fn lemma_depth_invariant(s: Seq<char>, lang: Language, color_count: usize)
    requires
        s.len() <= usize::MAX,
    ensures
        forall|j: int|
            0 <= j < scan_tokens(s, lang, color_count).len() ==> (#[trigger] scan_tokens(
                s,
                lang,
                color_count,
            )[j]).depth == open_depth_at(s, lang, color_count, j),
        forall|j: int|
            0 <= j < scan_tokens(s, lang, color_count).len() && scan_tokens(
                s,
                lang,
                color_count,
            )[j].side == BracketSide::Opening ==> (#[trigger] scan_tokens(
                s,
                lang,
                color_count,
            )[j]).depth <= scan_max_depth(s, lang, color_count),
        scan_max_depth(s, lang, color_count) == 0 || exists|j: int|
            0 <= j < scan_tokens(s, lang, color_count).len() && scan_tokens(
                s,
                lang,
                color_count,
            )[j].side == BracketSide::Opening && (#[trigger] scan_tokens(
                s,
                lang,
                color_count,
            )[j]).depth == scan_max_depth(s, lang, color_count),
{
    assert(depths_ok(s, initial_scan_state())) by {
        assert(mfold(initial_match_state(), Seq::<Bracket>::empty()) == initial_match_state());
    }
    lemma_scan_from_depths(s, lang, color_count, initial_scan_state());
}

/// Opacity law: while the scan position is inside a string, a comment, or
/// a pending escape sequence, a scan step classifies no bracket: it adds
/// nothing to the recorded brackets, and leaves the stack, the pairs and
/// the unmatched report untouched.
pub proof fn lemma_context_opacity(s: Seq<char>, lang: Language, color_count: usize, st: ScanState)
    requires
        st.i < s.len(),
        st.ctx.escape_next || !st.ctx.spec_in_code(),
    ensures
        step(s, lang, color_count, st).tokens == st.tokens,
        step(s, lang, color_count, st).m == st.m,
{
}

/// A character that is not a bracket never contributes an entry, whatever
/// the lexical context.
pub proof fn lemma_non_brackets_ignored(
    s: Seq<char>,
    lang: Language,
    color_count: usize,
    st: ScanState,
)
    requires
        st.i < s.len(),
        classify(s[st.i as int]) is None,
    ensures
        step(s, lang, color_count, st).tokens == st.tokens,
        step(s, lang, color_count, st).m == st.m,
{
}

/// Escape law: the character consumed by a pending escape never changes
/// which string or comment the scan is inside; in particular, a
/// backslash-escaped quote inside a string does not terminate the string.
pub proof fn lemma_escape_preserves_context(
    s: Seq<char>,
    lang: Language,
    color_count: usize,
    st: ScanState,
)
    requires
        st.i < s.len(),
        st.ctx.escape_next,
    ensures
        step(s, lang, color_count, st).ctx.in_double_quote_string
            == st.ctx.in_double_quote_string,
        step(s, lang, color_count, st).ctx.in_single_quote_string
            == st.ctx.in_single_quote_string,
        step(s, lang, color_count, st).ctx.in_line_comment == st.ctx.in_line_comment,
        step(s, lang, color_count, st).ctx.in_block_comment == st.ctx.in_block_comment,
        !step(s, lang, color_count, st).ctx.escape_next,
{
}

/// Every bracket the matcher holds or has reported came from the given
/// source of bracket events.
spec fn all_from(m: MatchState, src: Seq<Bracket>) -> bool {
    &&& forall|j: int| 0 <= j < m.stack.len() ==> src.contains(#[trigger] m.stack[j])
    &&& forall|j: int|
        0 <= j < m.pairs.len() ==> src.contains((#[trigger] m.pairs[j]).opening) && src.contains(
            m.pairs[j].closing,
        )
    &&& forall|j: int| 0 <= j < m.unmatched.len() ==> src.contains((#[trigger] m.unmatched[j]).bracket)
}

proof fn lemma_all_from_widen(m: MatchState, src: Seq<Bracket>, wider: Seq<Bracket>)
    requires
        all_from(m, src),
        forall|x: Bracket| src.contains(x) ==> wider.contains(x),
    ensures
        all_from(m, wider),
{
}

proof fn lemma_fold_provenance_gen(m: MatchState, acc: Seq<Bracket>, ts: Seq<Bracket>)
    requires
        all_from(m, acc),
    ensures
        all_from(mfold(m, ts), acc + ts),
    decreases ts.len(),
{
    assert forall|x: Bracket| acc.contains(x) implies (acc + ts).contains(x) by {
        let j = choose|j: int| 0 <= j < acc.len() && acc[j] == x;
        assert((acc + ts)[j] == x);
    }
    if ts.len() == 0 {
        lemma_all_from_widen(m, acc, acc + ts);
    } else {
        let b = ts.first();
        let m1 = mstep(m, b);
        let acc1 = acc.push(b);
        assert(acc1.contains(b)) by {
            assert(acc1[acc.len() as int] == b);
        }
        assert forall|x: Bracket| acc.contains(x) implies acc1.contains(x) by {
            let j = choose|j: int| 0 <= j < acc.len() && acc[j] == x;
            assert(acc1[j] == x);
        }
        assert(all_from(m1, acc1));
        lemma_fold_provenance_gen(m1, acc1, ts.drop_first());
        assert(acc1 + ts.drop_first() =~= acc + ts);
    }
}

/// Each drained entry reports a bracket of the stack, innermost first.
proof fn lemma_drain_contents(stack: Seq<Bracket>)
    ensures
        drain(stack).len() == stack.len(),
        forall|j: int|
            0 <= j < stack.len() ==> (#[trigger] drain(stack)[j]) == (UnmatchedBracket {
                bracket: stack[stack.len() - 1 - j],
                reason: UnmatchedReason::MissingClosing,
            }),
    decreases stack.len(),
{
    if stack.len() > 0 {
        lemma_drain_contents(stack.drop_last());
        let head = seq![
            UnmatchedBracket { bracket: stack.last(), reason: UnmatchedReason::MissingClosing },
        ];
        assert forall|j: int| 0 <= j < stack.len() implies (#[trigger] drain(stack)[j])
            == (UnmatchedBracket {
            bracket: stack[stack.len() - 1 - j],
            reason: UnmatchedReason::MissingClosing,
        }) by {
            if j > 0 {
                assert(drain(stack)[j] == drain(stack.drop_last())[j - 1]);
            }
        }
    }
}

/// Provenance law: every bracket that a scan reports, whether inside a
/// matched pair, among the unmatched brackets, or drained from the stack
/// at end of input, is one of the brackets the scan classified.
pub proof fn lemma_scan_provenance(s: Seq<char>, lang: Language, color_count: usize)
    ensures
        forall|j: int|
            0 <= j < scan_pairs(s, lang, color_count).len() ==> scan_tokens(
                s,
                lang,
                color_count,
            ).contains((#[trigger] scan_pairs(s, lang, color_count)[j]).opening) && scan_tokens(
                s,
                lang,
                color_count,
            ).contains(scan_pairs(s, lang, color_count)[j].closing),
        forall|j: int|
            0 <= j < scan_unmatched(s, lang, color_count).len() ==> scan_tokens(
                s,
                lang,
                color_count,
            ).contains((#[trigger] scan_unmatched(s, lang, color_count)[j]).bracket),
{
    let toks = scan_tokens(s, lang, color_count);
    let fin = scan(s, lang, color_count);
    lemma_scan_matcher_is_fold(s, lang, color_count);
    lemma_fold_provenance_gen(initial_match_state(), Seq::empty(), toks);
    assert(Seq::<Bracket>::empty() + toks =~= toks);
    assert(all_from(fin.m, toks));
    lemma_drain_contents(fin.m.stack);
    assert forall|j: int| 0 <= j < scan_unmatched(s, lang, color_count).len() implies toks.contains(
        (#[trigger] scan_unmatched(s, lang, color_count)[j]).bracket,
    ) by {
        if j < fin.m.unmatched.len() {
            assert(scan_unmatched(s, lang, color_count)[j] == fin.m.unmatched[j]);
        } else {
            let d = j - fin.m.unmatched.len();
            assert(scan_unmatched(s, lang, color_count)[j] == drain(fin.m.stack)[d]);
            assert(drain(fin.m.stack)[d].bracket == fin.m.stack[fin.m.stack.len() - 1 - d]);
        }
    }
}

/// The running count behind the accounting law: every bracket event so
/// far is held once on the stack, or sits in one pair (two events each),
/// or in one unmatched entry.
proof fn lemma_fold_accounting(m: MatchState, ts: Seq<Bracket>)
    ensures
        mfold(m, ts).pairs.len() * 2 + mfold(m, ts).unmatched.len() + mfold(m, ts).stack.len()
            == m.pairs.len() * 2 + m.unmatched.len() + m.stack.len() + ts.len(),
    decreases ts.len(),
{
    if ts.len() > 0 {
        lemma_fold_accounting(mstep(m, ts.first()), ts.drop_first());
    }
}

/// Accounting law: every bracket the scan classifies is accounted for
/// exactly once: twice the number of pairs plus the number of unmatched
/// brackets, the drained stack included, equals the number of classified
/// brackets.
pub proof fn lemma_bracket_accounting(s: Seq<char>, lang: Language, color_count: usize)
    ensures
        scan_pairs(s, lang, color_count).len() * 2 + scan_unmatched(s, lang, color_count).len()
            == scan_tokens(s, lang, color_count).len(),
{
    let toks = scan_tokens(s, lang, color_count);
    let fin = scan(s, lang, color_count);
    lemma_scan_matcher_is_fold(s, lang, color_count);
    lemma_fold_accounting(initial_match_state(), toks);
    lemma_drain_contents(fin.m.stack);
}

/// Idempotence law: any two results that meet the scanner's contract for
/// the same text, language and color count are structurally identical in
/// their pairs, unmatched brackets, maximum depth and statistics; only
/// the elapsed time may differ.
pub proof fn lemma_scan_idempotent(
    r1: BracketCollection,
    r2: BracketCollection,
    s: Seq<char>,
    lang: Language,
    color_count: usize,
)
    requires
        r1.pairs@ == scan_pairs(s, lang, color_count),
        r1.unmatched@ == scan_unmatched(s, lang, color_count),
        r1.max_depth == scan_max_depth(s, lang, color_count),
        r1.statistics == stats_of(r1.pairs@),
        r2.pairs@ == scan_pairs(s, lang, color_count),
        r2.unmatched@ == scan_unmatched(s, lang, color_count),
        r2.max_depth == scan_max_depth(s, lang, color_count),
        r2.statistics == stats_of(r2.pairs@),
    ensures
        r1.pairs@ == r2.pairs@,
        r1.unmatched@ == r2.unmatched@,
        r1.max_depth == r2.max_depth,
        r1.statistics == r2.statistics,
{
}

} // verus!

//! Snippet matching: finds the stored conversation that a copied piece of
//! context came from.
//!
//! Strategy, strictest first: a snippet must hold at least
//! [`MIN_SNIPPET_CHARS`] characters after normalization; a conversation whose
//! normalized full text contains the snippet is an exact hit (score 1);
//! otherwise a character n-gram score ([`match_score`]) decides, and the
//! best score at or above the threshold (11/20) wins.

use vstd::prelude::*;
use vstd::string::*;

use crate::error::AdapterError;
use crate::message::{content_text, messages_view, Conversation, ConversationView, MessageView};
use crate::text::{
    char_lines_view, chars_of, collapse_ws_view, lemma_collapse_ws_idempotent, join_chars, join_view, split_words, string_from_chars, words_view,
};

verus! {

broadcast use vstd::string::group_string_axioms;

/// The fewest normalized characters a snippet needs to be matched.
pub const MIN_SNIPPET_CHARS: usize = 8;

/// The character n-gram window of fuzzy matching.
pub const NGRAM_K: usize = 10;

/// The characters a near-verbatim run must cover to count as a full match.
pub const ABS_MATCH_CHARS: usize = 40;

/// Numerator of the fuzzy-match threshold (11/20, that is 0.55).
pub const FUZZY_THRESHOLD_NUM: u64 = 11;

/// Denominator of the fuzzy-match threshold.
pub const FUZZY_THRESHOLD_DEN: u64 = 20;

/// The text `str::to_lowercase` makes (Unicode lower-case mapping).
pub uninterp spec fn lowercase_view(s: Seq<char>) -> Seq<char>;

/// `str::to_lowercase`; the contract names its result.
#[verifier::external_body]
fn to_lowercase(s: &str) -> (r: String)
    ensures
        r@ == lowercase_view(s@),
{
    s.to_lowercase()
}

/// Normalized text: words joined by single spaces, then lower-cased.
pub open spec fn normalize_view(s: Seq<char>) -> Seq<char> {
    lowercase_view(collapse_ws_view(s))
}

/// Normalizing does not depend on how words are spaced: a text and its
/// white-space-collapsed form normalize alike, and collapsing is stable.
pub proof fn lemma_normalize_ignores_spacing(s: Seq<char>)
    ensures
        normalize_view(collapse_ws_view(s)) == normalize_view(s),
        collapse_ws_view(collapse_ws_view(s)) == collapse_ws_view(s),
{
    lemma_collapse_ws_idempotent(s);
}

/// Collapses all white space to single spaces, trims, and lower-cases.
pub fn normalize(s: &str) -> (r: String)
    ensures
        r@ == normalize_view(s@),
{
    let cs = chars_of(s);
    let words = split_words(cs.as_slice());
    let sep = vec![' '];
    assert(sep@ =~= seq![' ']);
    let joined = join_chars(&words, sep.as_slice());
    let js = string_from_chars(joined.as_slice());
    to_lowercase(js.as_str())
}

/// The pieces of a conversation's full text: its title (when present) and
/// the text view of each message.
pub open spec fn fulltext_pieces(c: ConversationView) -> Seq<Seq<char>> {
    (match c.title {
        Some(t) => seq![t],
        None => Seq::empty(),
    }) + c.messages.map_values(|m: MessageView| content_text(m.content))
}

/// The full text of a conversation: title and messages, one per line.
pub open spec fn fulltext_view(c: ConversationView) -> Seq<char> {
    join_view(fulltext_pieces(c), seq!['\n'])
}

/// Joins the title and message texts of a conversation with newlines.
pub fn conversation_fulltext(c: &Conversation) -> (r: String)
    ensures
        r@ == fulltext_view(c@),
{
    let mut parts: Vec<Vec<char>> = Vec::new();
    if let Some(t) = &c.title {
        parts.push(chars_of(t.as_str()));
    }
    let ghost head = char_lines_view(parts@);
    assert(head =~= (match c@.title {
        Some(t) => seq![t],
        None => Seq::<Seq<char>>::empty(),
    }));
    let ghost ms = messages_view(c.messages@);
    let mut i: usize = 0;
    while i < c.messages.len()
        invariant
            i <= c.messages@.len(),
            ms == messages_view(c.messages@),
            char_lines_view(parts@) =~= head + ms.take(i as int).map_values(
                |m: MessageView| content_text(m.content),
            ),
        decreases c.messages@.len() - i,
    {
        let text = c.messages[i].text();
        let ghost before = char_lines_view(parts@);
        parts.push(chars_of(text.as_str()));
        assert(char_lines_view(parts@) =~= before.push(content_text(ms[i as int].content)));
        i = i + 1;
        assert(ms.take(i as int).map_values(|m: MessageView| content_text(m.content)) =~= ms.take(
            i - 1,
        ).map_values(|m: MessageView| content_text(m.content)).push(content_text(ms[i - 1].content)));
    }
    assert(ms.take(c.messages@.len() as int) =~= ms);
    let sep = vec!['\n'];
    assert(sep@ =~= seq!['\n']);
    let joined = join_chars(&parts, sep.as_slice());
    string_from_chars(joined.as_slice())
}

/// A match score as an exact fraction `num / den` (`den > 0`).
#[derive(Debug, Clone, Copy, PartialEq, Eq)]
pub struct MatchScore {
    pub num: u64,
    pub den: u64,
}

/// Whether `w` occurs in `text` at position `j`.
pub open spec fn occurs_at(text: Seq<char>, w: Seq<char>, j: int) -> bool {
    0 <= j && j + w.len() <= text.len() && text.subrange(j, j + w.len()) == w
}

/// Whether `w` occurs in `text`.
pub open spec fn occurs_in(text: Seq<char>, w: Seq<char>) -> bool {
    exists|j: int| occurs_at(text, w, j)
}

/// Whether the `k`-gram of the snippet at `i` occurs in the text.
pub open spec fn gram_hit(snip: Seq<char>, text: Seq<char>, k: nat, i: int) -> bool {
    occurs_in(text, snip.subrange(i, i + k))
}

/// Scanning the first `m` snippet grams: (hits, current run, best run).
pub open spec fn scan_view(snip: Seq<char>, text: Seq<char>, k: nat, m: nat) -> (nat, nat, nat)
    decreases m,
{
    if m == 0 {
        (0, 0, 0)
    } else {
        let prev = scan_view(snip, text, k, (m - 1) as nat);
        if gram_hit(snip, text, k, m - 1) {
            (prev.0 + 1, prev.1 + 1, if prev.2 >= prev.1 + 1 {
                prev.2
            } else {
                prev.1 + 1
            })
        } else {
            (prev.0, 0, prev.2)
        }
    }
}

/// The n-gram size used for a snippet.
pub open spec fn gram_size(snip_len: nat) -> nat {
    if snip_len < NGRAM_K {
        snip_len
    } else {
        NGRAM_K as nat
    }
}

/// The match score of a snippet against a text, as `(num, den)`: the larger
/// of the hit ratio of its `k`-grams and of the characters covered by the
/// longest run of consecutive hits over 40 (capped at 1); zero when there is
/// no gram or the text is shorter than one.
pub open spec fn score_view(snip: Seq<char>, text: Seq<char>) -> (nat, nat) {
    let k = gram_size(snip.len());
    if k == 0 || text.len() < k {
        (0, 1)
    } else {
        let n = (snip.len() - k + 1) as nat;
        let s = scan_view(snip, text, k, n);
        let run_chars = if s.2 > 0 {
            s.2 + k - 1
        } else {
            0
        };
        let rc = if run_chars > ABS_MATCH_CHARS {
            ABS_MATCH_CHARS as nat
        } else {
            run_chars as nat
        };
        if s.0 * ABS_MATCH_CHARS >= rc * n {
            (s.0, n)
        } else {
            (rc, ABS_MATCH_CHARS as nat)
        }
    }
}

/// The counts of a scan never exceed the number of grams scanned.
proof fn lemma_scan_bounds(snip: Seq<char>, text: Seq<char>, k: nat, m: nat)
    ensures
        scan_view(snip, text, k, m).0 <= m,
        scan_view(snip, text, k, m).1 <= m,
        scan_view(snip, text, k, m).2 <= m,
    decreases m,
{
    if m > 0 {
        lemma_scan_bounds(snip, text, k, (m - 1) as nat);
    }
}

/// A match score is a fraction between 0 and 1 (with a positive
/// denominator), for every snippet and text.
pub proof fn lemma_score_at_most_one(snip: Seq<char>, text: Seq<char>)
    ensures
        score_view(snip, text).1 > 0,
        score_view(snip, text).0 <= score_view(snip, text).1,
{
    let k = gram_size(snip.len());
    if !(k == 0 || text.len() < k) {
        let n = (snip.len() - k + 1) as nat;
        lemma_scan_bounds(snip, text, k, n);
    }
}

/// After scanning the first `m` grams, the current run covers every hit gram
/// of an unbroken stretch `[i, m)`.
proof fn lemma_scan_run_covers(snip: Seq<char>, text: Seq<char>, k: nat, i: int, m: nat)
    requires
        0 <= i <= m,
        forall|t: int| i <= t < m ==> #[trigger] gram_hit(snip, text, k, t),
    ensures
        scan_view(snip, text, k, m).1 >= m - i,
    decreases m,
{
    if m > i {
        lemma_scan_run_covers(snip, text, k, i, (m - 1) as nat);
        assert(gram_hit(snip, text, k, m - 1));
    }
}

/// The best run of a scan is at least its current run, and it never
/// shrinks as the scan goes on.
proof fn lemma_scan_best_grows(snip: Seq<char>, text: Seq<char>, k: nat, m: nat, m2: nat)
    requires
        m <= m2,
    ensures
        scan_view(snip, text, k, m).2 >= scan_view(snip, text, k, m).1,
        scan_view(snip, text, k, m2).2 >= scan_view(snip, text, k, m).2,
    decreases m2,
{
    if m2 > m {
        lemma_scan_best_grows(snip, text, k, m, (m2 - 1) as nat);
    } else if m > 0 {
        lemma_scan_best_grows(snip, text, k, (m - 1) as nat, (m - 1) as nat);
    }
}

/// The score counts the longest run of consecutive hit grams anywhere in
/// the snippet: when every gram from `i` through `j` occurs in the text, the
/// score is at least the characters those grams cover (`j - i + k`, capped
/// at 40) over 40, wherever in the snippet the stretch lies.
pub proof fn lemma_score_counts_longest_run(snip: Seq<char>, text: Seq<char>, i: int, j: int)
    requires
        0 <= i <= j,
        j + gram_size(snip.len()) <= snip.len(),
        forall|t: int| i <= t <= j ==> #[trigger] gram_hit(snip, text, gram_size(snip.len()), t),
    ensures
        ({
            let k = gram_size(snip.len());
            let want = if j - i + k < ABS_MATCH_CHARS {
                j - i + k
            } else {
                ABS_MATCH_CHARS as int
            };
            score_view(snip, text).0 * ABS_MATCH_CHARS >= want * score_view(snip, text).1
        }),
{
    let k = gram_size(snip.len());
    if k == 0 {
        assert(snip.len() == 0);
        assert(i == j);
        return;
    }
    if text.len() < k {
        assert(gram_hit(snip, text, k, i));
        let w = snip.subrange(i, i + k);
        let q = choose|q: int| occurs_at(text, w, q);
        assert(occurs_at(text, w, q));
        assert(false);
    }
    let n = (snip.len() - k + 1) as nat;
    let s = scan_view(snip, text, k, n);
    lemma_scan_run_covers(snip, text, k, i, (j + 1) as nat);
    lemma_scan_best_grows(snip, text, k, (j + 1) as nat, n);
    assert(s.2 >= j + 1 - i);
    let want = if j - i + k < ABS_MATCH_CHARS {
        j - i + k
    } else {
        ABS_MATCH_CHARS as int
    };
    let run_chars = s.2 + k - 1;
    let rc = if run_chars > ABS_MATCH_CHARS {
        ABS_MATCH_CHARS as int
    } else {
        run_chars
    };
    assert(rc >= want);
    assert(rc * n >= want * n) by (nonlinear_arith)
        requires
            rc >= want,
            n >= 0,
    ;
    assert(rc * ABS_MATCH_CHARS >= want * ABS_MATCH_CHARS) by (nonlinear_arith)
        requires
            rc >= want,
    ;
}

/// How many of the first `m` grams of the snippet occur in the text.
pub open spec fn hit_count(snip: Seq<char>, text: Seq<char>, k: nat, m: nat) -> nat
    decreases m,
{
    if m == 0 {
        0
    } else {
        hit_count(snip, text, k, (m - 1) as nat) + if gram_hit(snip, text, k, m - 1) {
            1nat
        } else {
            0nat
        }
    }
}

/// Whether every gram from `i` up to (not including) `j` occurs in the text.
pub open spec fn all_hit(snip: Seq<char>, text: Seq<char>, k: nat, i: int, j: int) -> bool {
    forall|t: int| i <= t < j ==> #[trigger] gram_hit(snip, text, k, t)
}

/// What a scan counts: its hits are the hit grams, its current run is an
/// unbroken stretch of hits ending at `m`, and its best run is the length of
/// some unbroken stretch of hits.
proof fn lemma_scan_meaning(snip: Seq<char>, text: Seq<char>, k: nat, m: nat)
    ensures
        scan_view(snip, text, k, m).0 == hit_count(snip, text, k, m),
        scan_view(snip, text, k, m).1 <= m,
        all_hit(snip, text, k, m - scan_view(snip, text, k, m).1, m as int),
        scan_view(snip, text, k, m).2 > 0 ==> exists|i: int, j: int|
            0 <= i && j <= m && j - i == scan_view(snip, text, k, m).2 && #[trigger] all_hit(
                snip,
                text,
                k,
                i,
                j,
            ),
    decreases m,
{
    if m > 0 {
        let pm = (m - 1) as nat;
        lemma_scan_meaning(snip, text, k, pm);
        let prev = scan_view(snip, text, k, pm);
        let cur = scan_view(snip, text, k, m);
        if gram_hit(snip, text, k, m - 1) {
            assert forall|t: int| m - cur.1 <= t < m implies #[trigger] gram_hit(snip, text, k, t) by {
                if t < m - 1 {
                    assert(all_hit(snip, text, k, pm - prev.1, pm as int));
                }
            }
            if prev.2 < prev.1 + 1 {
                assert(all_hit(snip, text, k, m - cur.1, m as int));
            } else if prev.2 > 0 {
                let (i, j) = choose|i: int, j: int|
                    0 <= i && j <= pm && j - i == prev.2 && #[trigger] all_hit(snip, text, k, i, j);
                assert(all_hit(snip, text, k, i, j));
            }
        } else {
            assert(all_hit(snip, text, k, m as int, m as int));
            if prev.2 > 0 {
                let (i, j) = choose|i: int, j: int|
                    0 <= i && j <= pm && j - i == prev.2 && #[trigger] all_hit(snip, text, k, i, j);
                assert(all_hit(snip, text, k, i, j));
            }
        }
    }
}

/// The score is at least the share of the snippet's grams that occur in the
/// text.
pub proof fn lemma_score_counts_hit_ratio(snip: Seq<char>, text: Seq<char>)
    requires
        1 <= gram_size(snip.len()) <= text.len(),
    ensures
        ({
            let k = gram_size(snip.len());
            let n = (snip.len() - k + 1) as nat;
            score_view(snip, text).0 * n >= hit_count(snip, text, k, n) * score_view(snip, text).1
        }),
{
    let k = gram_size(snip.len());
    let n = (snip.len() - k + 1) as nat;
    lemma_scan_meaning(snip, text, k, n);
    let h = hit_count(snip, text, k, n);
    let r = score_view(snip, text);
    if r.1 == ABS_MATCH_CHARS {
        assert(r.0 * n >= h * ABS_MATCH_CHARS);
    }
}

/// The score is always one of its two parts: the share of hit grams, or the
/// characters covered by an unbroken stretch of hit grams that really occurs
/// in the snippet (capped at 40) over 40.
pub proof fn lemma_score_is_attained(snip: Seq<char>, text: Seq<char>)
    requires
        1 <= gram_size(snip.len()) <= text.len(),
    ensures
        ({
            let k = gram_size(snip.len());
            let n = (snip.len() - k + 1) as nat;
            let r = score_view(snip, text);
            (r.0 == hit_count(snip, text, k, n) && r.1 == n) || exists|i: int, j: int|
                0 <= i < j <= n && #[trigger] all_hit(snip, text, k, i, j) && r.1 == ABS_MATCH_CHARS
                    && r.0 == (if j - i + k - 1 < ABS_MATCH_CHARS {
                    j - i + k - 1
                } else {
                    ABS_MATCH_CHARS as int
                })
        }),
{
    let k = gram_size(snip.len());
    let n = (snip.len() - k + 1) as nat;
    lemma_scan_meaning(snip, text, k, n);
    let s = scan_view(snip, text, k, n);
    let r = score_view(snip, text);
    if s.2 > 0 {
        let (i, j) = choose|i: int, j: int|
            0 <= i && j <= n && j - i == s.2 && #[trigger] all_hit(snip, text, k, i, j);
        assert(all_hit(snip, text, k, i, j) && 0 <= i < j <= n);
    } else {
        assert(0nat * n == 0) by (nonlinear_arith);
        assert(s.0 * ABS_MATCH_CHARS >= 0);
        assert(r.0 == s.0 && r.1 == n);
    }
}

/// Whether two windows of character slices are equal.
fn window_eq(text: &[char], j: usize, snip: &[char], i: usize, k: usize) -> (r: bool)
    requires
        j + k <= text@.len(),
        i + k <= snip@.len(),
    ensures
        r == (text@.subrange(j as int, j + k) == snip@.subrange(i as int, i + k)),
{
    let mut t: usize = 0;
    while t < k
        invariant
            t <= k,
            j + k <= text.len(),
            i + k <= snip.len(),
            j + k <= text@.len(),
            i + k <= snip@.len(),
            forall|q: int|
                0 <= q < t ==> text@.subrange(j as int, j + k)[q] == #[trigger] snip@.subrange(
                    i as int,
                    i + k,
                )[q],
        decreases k - t,
    {
        if text[j + t] != snip[i + t] {
            assert(text@.subrange(j as int, j + k)[t as int] != snip@.subrange(i as int, i + k)[t as int]);
            return false;
        }
        t = t + 1;
    }
    assert(text@.subrange(j as int, j + k) =~= snip@.subrange(i as int, i + k));
    true
}

/// Whether the `k` characters of `snip` at `i` occur somewhere in `text`.
fn window_occurs(text: &[char], snip: &[char], i: usize, k: usize) -> (r: bool)
    requires
        1 <= k,
        i + k <= snip@.len(),
    ensures
        r == occurs_in(text@, snip@.subrange(i as int, i + k)),
{
    let ghost w = snip@.subrange(i as int, i + k);
    if text.len() < k {
        assert forall|j: int| !occurs_at(text@, w, j) by {}
        return false;
    }
    let mut j: usize = 0;
    while j <= text.len() - k
        invariant
            1 <= k <= text@.len(),
            i + k <= snip@.len(),
            w == snip@.subrange(i as int, i + k),
            j <= text@.len() - k + 1,
            forall|q: int| 0 <= q < j ==> !occurs_at(text@, w, q),
        decreases text@.len() - k + 1 - j,
    {
        if window_eq(text, j, snip, i, k) {
            assert(occurs_at(text@, w, j as int));
            return true;
        }
        j = j + 1;
    }
    assert forall|q: int| !occurs_at(text@, w, q) by {
        if 0 <= q < j {
        }
    }
    false
}

/// The n-gram match score of a normalized snippet against a normalized text.
pub fn match_score(snippet_chars: &[char], text: &str) -> (r: MatchScore)
    ensures
        r.den > 0,
        r.num <= r.den,
        (r.num as nat, r.den as nat) == score_view(snippet_chars@, text@),
{
    let k = if snippet_chars.len() < NGRAM_K {
        snippet_chars.len()
    } else {
        NGRAM_K
    };
    if k == 0 {
        return MatchScore { num: 0, den: 1 };
    }
    let text_chars = chars_of(text);
    if text_chars.len() < k {
        return MatchScore { num: 0, den: 1 };
    }
    let n = snippet_chars.len() - k + 1;
    let mut hits: usize = 0;
    let mut run: usize = 0;
    let mut best_run: usize = 0;
    let mut i: usize = 0;
    while i < n
        invariant
            1 <= k <= snippet_chars@.len(),
            n == snippet_chars@.len() - k + 1,
            text_chars@ == text@,
            i <= n,
            (hits as nat, run as nat, best_run as nat) == scan_view(
                snippet_chars@,
                text_chars@,
                k as nat,
                i as nat,
            ),
            hits <= i,
            run <= i,
            best_run <= i,
        decreases n - i,
    {
        if window_occurs(text_chars.as_slice(), snippet_chars, i, k) {
            hits = hits + 1;
            run = run + 1;
            if run > best_run {
                best_run = run;
            }
        } else {
            run = 0;
        }
        i = i + 1;
    }
    let run_chars: usize = if best_run > 0 {
        best_run + (k - 1)
    } else {
        0
    };
    let rc: usize = if run_chars > ABS_MATCH_CHARS {
        ABS_MATCH_CHARS
    } else {
        run_chars
    };
    assert((rc as u128) * (n as u128) <= 40 * 0xffff_ffff_ffff_ffffu128) by (nonlinear_arith)
        requires
            rc <= 40,
            n <= 0xffff_ffff_ffff_ffffu128,
    ;
    if (hits as u128) * (ABS_MATCH_CHARS as u128) >= (rc as u128) * (n as u128) {
        MatchScore { num: hits as u64, den: n as u64 }
    } else {
        MatchScore { num: rc as u64, den: ABS_MATCH_CHARS as u64 }
    }
}

/// Whether a score reaches the fuzzy threshold (11/20).
pub open spec fn meets_threshold(s: MatchScore) -> bool {
    s.num * FUZZY_THRESHOLD_DEN >= FUZZY_THRESHOLD_NUM * s.den
}

/// Whether score `a` is strictly greater than score `b`.
pub open spec fn score_gt(a: MatchScore, b: MatchScore) -> bool {
    a.num * b.den > b.num * a.den
}

/// Compares a score with the fuzzy threshold.
pub fn score_meets_threshold(s: MatchScore) -> (b: bool)
    ensures
        b == meets_threshold(s),
{
    proof {
        lemma_u64_product_fits(s.num, 20);
        lemma_u64_product_fits(11, s.den);
    }
    (s.num as u128) * (FUZZY_THRESHOLD_DEN as u128) >= (FUZZY_THRESHOLD_NUM as u128) * (s.den as u128)
}

/// Compares two scores.
pub fn score_greater(a: MatchScore, b: MatchScore) -> (r: bool)
    ensures
        r == score_gt(a, b),
{
    proof {
        lemma_u64_product_fits(a.num, b.den);
        lemma_u64_product_fits(b.num, a.den);
    }
    (a.num as u128) * (b.den as u128) > (b.num as u128) * (a.den as u128)
}

proof fn lemma_u64_product_fits(x: u64, y: u64)
    ensures
        (x as int) * (y as int) <= u128::MAX,
{
    assert((x as int) * (y as int) <= (u64::MAX as int) * (u64::MAX as int)) by (nonlinear_arith)
        requires
            x <= u64::MAX,
            y <= u64::MAX,
            0 <= x,
            0 <= y,
    ;
}


/// Whether `pat` occurs in `text` (`str::contains`).
pub fn contains_chars(text: &[char], pat: &[char]) -> (r: bool)
    ensures
        r == occurs_in(text@, pat@),
{
    if pat.len() > text.len() {
        assert forall|j: int| !occurs_at(text@, pat@, j) by {}
        return false;
    }
    let k = pat.len();
    if k == 0 {
        assert(text@.subrange(0, 0) =~= pat@);
        assert(occurs_at(text@, pat@, 0));
        return true;
    }
    let mut j: usize = 0;
    while j <= text.len() - k
        invariant
            k == pat@.len(),
            1 <= k <= text@.len(),
            j <= text@.len() - k + 1,
            forall|q: int| 0 <= q < j ==> !occurs_at(text@, pat@, q),
        decreases text@.len() - k + 1 - j,
    {
        assert(pat@.subrange(0, k as int) =~= pat@);
        if window_eq(text, j, pat, 0, k) {
            assert(occurs_at(text@, pat@, j as int));
            return true;
        }
        j = j + 1;
    }
    assert forall|q: int| !occurs_at(text@, pat@, q) by {
        if 0 <= q < j {
        }
    }
    false
}

/// A successful match.
pub struct ConversationMatch {
    /// The application the conversation belongs to (such as `Jan`).
    pub app: String,
    /// The score: 1 for an exact hit, the fuzzy score otherwise.
    pub score: MatchScore,
    /// The whole matched conversation.
    pub conversation: Conversation,
}

/// Abstract match.
pub struct MatchView {
    pub app: Seq<char>,
    pub score: MatchScore,
    pub conversation: ConversationView,
}

impl View for ConversationMatch {
    type V = MatchView;

    open spec fn view(&self) -> MatchView {
        MatchView { app: self.app@, score: self.score, conversation: self.conversation@ }
    }
}

/// The view of an optional match.
pub open spec fn opt_match_view(m: Option<ConversationMatch>) -> Option<MatchView> {
    match m {
        Some(x) => Some(x@),
        None => None,
    }
}

/// The views of a list of conversations.
pub open spec fn convos_view(cs: Seq<Conversation>) -> Seq<ConversationView> {
    cs.map_values(|c: Conversation| c@)
}

/// The normalized full text of a conversation.
pub open spec fn conv_norm_text(c: ConversationView) -> Seq<char> {
    normalize_view(fulltext_view(c))
}

/// Whether a (non-empty) normalized snippet occurs in a conversation.
pub open spec fn exact_hit(c: ConversationView, sn: Seq<char>) -> bool {
    sn.len() > 0 && occurs_in(conv_norm_text(c), sn)
}

/// The fuzzy score of a snippet against a conversation.
pub open spec fn score_of(snip: Seq<char>, c: ConversationView) -> MatchScore {
    let s = score_view(snip, conv_norm_text(c));
    MatchScore { num: s.0 as u64, den: s.1 as u64 }
}

/// The exact-hit score.
pub open spec fn full_score() -> MatchScore {
    MatchScore { num: 1, den: 1 }
}

/// One fuzzy step: a conversation replaces the best match when its score
/// reaches the threshold and beats the best one so far.
pub open spec fn fuzzy_step(
    best: Option<MatchView>,
    app: Seq<char>,
    c: ConversationView,
    snip: Seq<char>,
) -> Option<MatchView> {
    let sc = score_of(snip, c);
    if meets_threshold(sc) && (match best {
        None => true,
        Some(b) => score_gt(sc, b.score),
    }) {
        Some(MatchView { app, score: sc, conversation: c })
    } else {
        best
    }
}

/// The best fuzzy match after a list of conversations.
pub open spec fn fuzzy_fold(
    best: Option<MatchView>,
    app: Seq<char>,
    cs: Seq<ConversationView>,
    snip: Seq<char>,
) -> Option<MatchView>
    decreases cs.len(),
{
    if cs.len() == 0 {
        best
    } else {
        fuzzy_step(fuzzy_fold(best, app, cs.drop_last(), snip), app, cs.last(), snip)
    }
}

/// Matches a snippet against the conversations of one application, in
/// order. The first exact hit is returned at once (score 1); until then the
/// best fuzzy match at or above the threshold is kept in `best`.
pub fn match_in_app(
    app: &str,
    convos: Vec<Conversation>,
    norm_snippet: &str,
    snippet_chars: &[char],
    best: &mut Option<ConversationMatch>,
) -> (r: Option<ConversationMatch>)
    ensures
        ({
            let cs = convos_view(convos@);
            match r {
                Some(m) => exists|i: int|
                    0 <= i < cs.len() && exact_hit(cs[i], norm_snippet@) && (forall|j: int|
                        0 <= j < i ==> !exact_hit(cs[j], norm_snippet@)) && m@ == MatchView {
                        app: app@,
                        score: full_score(),
                        conversation: cs[i],
                    } && opt_match_view(*final(best)) == fuzzy_fold(
                        opt_match_view(*old(best)),
                        app@,
                        cs.take(i),
                        snippet_chars@,
                    ),
                None => (forall|j: int| 0 <= j < cs.len() ==> !exact_hit(cs[j], norm_snippet@))
                    && opt_match_view(*final(best)) == fuzzy_fold(
                    opt_match_view(*old(best)),
                    app@,
                    cs,
                    snippet_chars@,
                ),
            }
        }),
{
    let ghost cs = convos_view(convos@);
    let ghost best0 = opt_match_view(*best);
    let sn = chars_of(norm_snippet);
    let n_exec = convos.len();
    let mut rest = convos;
    let mut i: usize = 0;
    let ghost n = cs.len();
    while rest.len() > 0
        invariant
            i <= n,
            n == n_exec,
            i + rest@.len() == n,
            n == cs.len(),
            convos_view(rest@) == cs.skip(i as int),
            sn@ == norm_snippet@,
            best0 == opt_match_view(*old(best)),
            cs == convos_view(convos@),
            forall|j: int| 0 <= j < i ==> !exact_hit(cs[j], norm_snippet@),
            opt_match_view(*best) == fuzzy_fold(best0, app@, cs.take(i as int), snippet_chars@),
        decreases rest@.len(),
    {
        let ghost rv = convos_view(rest@);
        let convo = rest.remove(0);
        assert(rv[0] == convo@);
        assert(convos_view(rest@) =~= rv.drop_first());
        assert(cs.skip(i as int)[0] == cs[i as int]);
        assert(cs.skip(i as int).drop_first() =~= cs.skip(i + 1));
        let full = conversation_fulltext(&convo);
        let text = normalize(full.as_str());
        let tc = chars_of(text.as_str());
        if sn.len() > 0 && contains_chars(tc.as_slice(), sn.as_slice()) {
            assert(exact_hit(cs[i as int], norm_snippet@));
            let m = ConversationMatch {
                app: String::from_str(app),
                score: MatchScore { num: 1, den: 1 },
                conversation: convo,
            };
            assert(m@ == MatchView { app: app@, score: full_score(), conversation: cs[i as int] });
            assert(opt_match_view(*best) == fuzzy_fold(
                opt_match_view(*old(best)),
                app@,
                cs.take(i as int),
                snippet_chars@,
            ));
            return Some(m);
        }
        let score = match_score(snippet_chars, text.as_str());
        assert(score == score_of(snippet_chars@, cs[i as int]));
        let better = match best {
            None => true,
            Some(b) => score_greater(score, b.score),
        };
        assert(cs.take(i + 1).drop_last() =~= cs.take(i as int));
        assert(cs.take(i + 1).last() == cs[i as int]);
        if score_meets_threshold(score) && better {
            *best = Some(ConversationMatch { app: String::from_str(app), score, conversation: convo });
        }
        i = i + 1;
    }
    assert(cs.take(n as int) =~= cs);
    None
}

/// Normalizes a snippet and checks that it is long enough to match:
/// the normalized text and its characters, or `SnippetTooShort`.
pub fn prepare_snippet(snippet: &str) -> (r: Result<(String, Vec<char>), AdapterError>)
    ensures
        match r {
            Ok((norm, cs)) => norm@ == normalize_view(snippet@) && cs@ == norm@ && cs@.len()
                >= MIN_SNIPPET_CHARS,
            Err(e) => normalize_view(snippet@).len() < MIN_SNIPPET_CHARS && e
                == AdapterError::SnippetTooShort(MIN_SNIPPET_CHARS),
        },
{
    let norm = normalize(snippet);
    let cs = chars_of(norm.as_str());
    if cs.len() < MIN_SNIPPET_CHARS {
        return Err(AdapterError::SnippetTooShort(MIN_SNIPPET_CHARS));
    }
    Ok((norm, cs))
}


/// The fuzzy best match is always one at or above the threshold: starting
/// from none (or from such a match), whatever the scan keeps reaches the
/// threshold and comes from the scanned application.
pub proof fn lemma_fuzzy_best_meets_threshold(
    best: Option<MatchView>,
    app: Seq<char>,
    cs: Seq<ConversationView>,
    snip: Seq<char>,
)
    requires
        best matches Some(b) ==> meets_threshold(b.score),
    ensures
        fuzzy_fold(best, app, cs, snip) matches Some(b) ==> meets_threshold(b.score),
        best is None ==> (fuzzy_fold(best, app, cs, snip) matches Some(b) ==> b.app == app
            && cs.contains(b.conversation)),
    decreases cs.len(),
{
    if cs.len() > 0 {
        lemma_fuzzy_best_meets_threshold(best, app, cs.drop_last(), snip);
        let prev = fuzzy_fold(best, app, cs.drop_last(), snip);
        if best is None {
            if let Some(b) = prev {
                assert(cs.drop_last().contains(b.conversation));
                let k = choose|k: int| 0 <= k < cs.drop_last().len() && cs.drop_last()[k] == b.conversation;
                assert(cs[k] == b.conversation);
            }
            assert(cs[cs.len() - 1] == cs.last());
        }
    }
}


/// Scores of a snippet against any conversation have a positive denominator.
proof fn lemma_score_of_den(snip: Seq<char>, c: ConversationView)
    requires
        snip.len() <= 0xffff_ffff_ffff_ffff,
    ensures
        score_of(snip, c).den > 0,
        score_of(snip, c).num <= score_of(snip, c).den,
{
    let text = conv_norm_text(c);
    lemma_score_at_most_one(snip, text);
    let k = gram_size(snip.len());
    if !(k == 0 || text.len() < k) {
        let n = (snip.len() - k + 1) as nat;
        lemma_scan_bounds(snip, text, k, n);
    }
}

/// "Not greater" followed by "greater" is "not greater", for fractions
/// with positive denominators.
proof fn lemma_score_order(a: MatchScore, b: MatchScore, c: MatchScore)
    requires
        a.den > 0,
        b.den > 0,
        c.den > 0,
        !score_gt(a, b),
        score_gt(c, b),
    ensures
        !score_gt(a, c),
{
    assert(a.num * c.den <= c.num * a.den) by (nonlinear_arith)
        requires
            a.den > 0,
            b.den > 0,
            c.den > 0,
            a.num * b.den <= b.num * a.den,
            c.num * b.den > b.num * c.den,
    {
        assert(a.num * b.den * c.den <= b.num * a.den * c.den);
        assert(c.num * b.den * a.den > b.num * c.den * a.den);
    }
}

/// Starting from no match, the fuzzy scan keeps the highest score at or
/// above the threshold: no scanned conversation that reaches the threshold
/// scores higher than what is kept, and something is kept whenever one
/// reaches it.
pub proof fn lemma_fuzzy_best_is_highest(app: Seq<char>, cs: Seq<ConversationView>, snip: Seq<char>)
    requires
        snip.len() <= 0xffff_ffff_ffff_ffff,
    ensures
        fuzzy_fold(None, app, cs, snip) matches Some(b) ==> b.score.den > 0 && forall|i: int|
            0 <= i < cs.len() && meets_threshold(#[trigger] score_of(snip, cs[i])) ==> !score_gt(
                score_of(snip, cs[i]),
                b.score,
            ),
        (exists|i: int| 0 <= i < cs.len() && meets_threshold(#[trigger] score_of(snip, cs[i])))
            ==> fuzzy_fold(None, app, cs, snip) is Some,
    decreases cs.len(),
{
    if cs.len() > 0 {
        let pre = cs.drop_last();
        lemma_fuzzy_best_is_highest(app, pre, snip);
        let prev = fuzzy_fold(None, app, pre, snip);
        let last = cs.last();
        let sl = score_of(snip, last);
        lemma_score_of_den(snip, last);
        assert forall|i: int| 0 <= i < pre.len() implies pre[i] == cs[i] by {}
        let res = fuzzy_fold(None, app, cs, snip);
        assert(res == fuzzy_step(prev, app, last, snip));
        if let Some(b) = res {
            assert forall|i: int|
                0 <= i < cs.len() && meets_threshold(#[trigger] score_of(snip, cs[i])) implies !score_gt(
                score_of(snip, cs[i]),
                b.score,
            ) by {
                let si = score_of(snip, cs[i]);
                lemma_score_of_den(snip, cs[i]);
                if i == cs.len() - 1 {
                    assert(cs[i] == last);
                    if b.score == sl {
                    } else {
                        assert(prev == res);
                    }
                } else {
                    assert(cs[i] == pre[i]);
                    assert(score_of(snip, pre[i]) == si);
                    match prev {
                        Some(p) => {
                            if res == prev {
                            } else {
                                lemma_score_order(si, p.score, sl);
                            }
                        },
                        None => {},
                    }
                }
            }
        }
        if exists|i: int| 0 <= i < cs.len() && meets_threshold(#[trigger] score_of(snip, cs[i])) {
            let i = choose|i: int| 0 <= i < cs.len() && meets_threshold(#[trigger] score_of(snip, cs[i]));
            if i < cs.len() - 1 {
                assert(score_of(snip, pre[i]) == score_of(snip, cs[i]));
            } else {
                assert(cs[i] == last);
            }
        }
    }
}

} // verus!

//! The region of a file that is most like some lines.
use vstd::prelude::*;
#[allow(unused_imports)]
use vstd::string::*;

#[allow(unused_imports)]
use crate::precision::single::{
    Digits, HIGH, LOW, Single, at_most_two_to, below, counts, lemma_counts_keep_order,
    lemma_quotient_at_most_one, lemma_rest_of_share, lemma_rounded_is_proper, lemma_sum_at_most,
    lemma_sum_is_held, lemma_sum_with_one, proper, quotient, rest_of_one, rounded, sum, within,
};
#[allow(unused_imports)]
use crate::text::{blank, chars_of, is_blank, lines, same_text, smaller, trim, trimmed};

verus! {

/// How many characters of a line are compared.
pub const MAX_CMP_CHARS: usize = 120;

/// The longest file that is searched line by line.
pub const MAX_FALLBACK_FILE_LINES: usize = 20_000;

/// How many places are scored.
pub const MAX_CANDIDATE_STARTS: usize = 5;

/// The most similar region of a file.
#[derive(Debug, Clone, Copy)]
pub struct ClosestMatch {
    /// The index of its first line.
    pub start: usize,
    /// How many lines it has.
    pub len: usize,
    /// How similar its lines are to those of the pattern: the mean, between
    /// zero and one.
    pub similarity: Single,
}

impl ClosestMatch {
    /// The similarity is a number between zero and one.
    pub open spec fn wf(&self) -> bool {
        &&& proper(self.similarity@)
        &&& at_most_two_to(self.similarity@, 0)
        &&& within(self.similarity@, -118, 2)
    }
}

// ---- edit distance ----

/// How many characters have to be put in, taken out or replaced to make one
/// text of another.
pub open spec fn edit_distance(a: Seq<char>, b: Seq<char>) -> nat
    decreases a.len() + b.len(),
{
    if a.len() == 0 {
        b.len()
    } else if b.len() == 0 {
        a.len()
    } else {
        let replace = edit_distance(a.drop_last(), b.drop_last()) + (if a.last() == b.last() {
            0nat
        } else {
            1nat
        });
        let take = edit_distance(a.drop_last(), b) + 1;
        let put = edit_distance(a, b.drop_last()) + 1;
        smaller(smaller(replace as int, take as int), put as int) as nat
    }
}

/// The greater of two lengths.
pub open spec fn longer(a: Seq<char>, b: Seq<char>) -> nat {
    if a.len() > b.len() {
        a.len()
    } else {
        b.len()
    }
}

/// The distance is at most the greater length.
pub proof fn lemma_distance_bound(a: Seq<char>, b: Seq<char>)
    ensures
        edit_distance(a, b) <= longer(a, b),
    decreases a.len() + b.len(),
{
    if a.len() > 0 && b.len() > 0 {
        lemma_distance_bound(a.drop_last(), b.drop_last());
    }
}

/// The edit distance of two texts.
#[verifier::loop_isolation(false)]
pub fn levenshtein(a: &[char], b: &[char]) -> (r: usize)
    requires
        a@.len() < usize::MAX,
        b@.len() < usize::MAX,
    ensures
        r == edit_distance(a@, b@),
{
    let n: usize = b.len();
    let mut prev: Vec<usize> = Vec::new();
    let mut k: usize = 0;
    while k <= n
        invariant
            k <= n + 1,
            n == b@.len(),
            prev@.len() == k,
            forall|j: int|
                0 <= j < k ==> (#[trigger] prev@[j]) == edit_distance(a@.take(0), b@.take(j)),
        decreases n + 1 - k,
    {
        prev.push(k);
        k += 1;
    }
    let mut i: usize = 0;
    while i < a.len()
        invariant
            i <= a@.len(),
            prev@.len() == n + 1,
            forall|j: int|
                0 <= j <= n ==> (#[trigger] prev@[j]) == edit_distance(
                    a@.take(i as int),
                    b@.take(j),
                ),
        decreases a.len() - i,
    {
        let ghost upper = a@.take(i as int);
        let ghost lower = a@.take(i as int + 1);
        let mut cur: Vec<usize> = Vec::new();
        cur.push(i + 1);
        let mut j: usize = 0;
        proof {
            assert(lower.drop_last() =~= upper);
            assert(edit_distance(lower, b@.take(0)) == i + 1);
        }
        while j < n
            invariant
                j <= n,
                cur@.len() == j + 1,
                lower == a@.take(i as int + 1),
                upper == a@.take(i as int),
                lower.drop_last() == upper,
                forall|m: int|
                    0 <= m <= j ==> (#[trigger] cur@[m]) == edit_distance(lower, b@.take(m)),
            decreases n - j,
        {
            let cost: usize = if a[i] != b[j] {
                1
            } else {
                0
            };
            proof {
                assert(b@.take(j as int + 1).drop_last() =~= b@.take(j as int));
                lemma_distance_bound(upper, b@.take(j as int));
                lemma_distance_bound(upper, b@.take(j as int + 1));
                lemma_distance_bound(lower, b@.take(j as int));
                assert(prev@[j as int] < usize::MAX);
                assert(prev@[j as int + 1] < usize::MAX);
                assert(cur@[j as int] < usize::MAX);
            }
            let replace: usize = prev[j] + cost;
            let take: usize = prev[j + 1] + 1;
            let put: usize = cur[j] + 1;
            let mut least: usize = if replace < take {
                replace
            } else {
                take
            };
            if put < least {
                least = put;
            }
            cur.push(least);
            j += 1;
        }
        prev = cur;
        i += 1;
    }
    proof {
        assert(a@.take(i as int) =~= a@);
        assert(b@.take(n as int) =~= b@);
    }
    prev[n]
}

// ---- similarity of lines ----

/// The part of a line that is compared.
pub open spec fn compared(s: Seq<char>) -> Seq<char> {
    s.take(smaller(s.len() as int, MAX_CMP_CHARS as int))
}

/// How similar two lines are, between zero and one: white space at the ends
/// does not count.
pub open spec fn similarity(a: Seq<char>, b: Seq<char>) -> Digits {
    let ta = trimmed(a);
    let tb = trimmed(b);
    if ta == tb {
        (LOW as nat, -23)
    } else if ta.len() == 0 || tb.len() == 0 {
        (0, 0)
    } else {
        let ca = compared(ta);
        let cb = compared(tb);
        rest_of_one(rounded(edit_distance(ca, cb), longer(ca, cb), 0))
    }
}

fn compared_chars(s: &str) -> (r: Vec<char>)
    ensures
        r@ == compared(s@),
{
    let mut v: Vec<char> = chars_of(s);
    proof {
        assert(s@.take(s@.len() as int) =~= s@);
    }
    if v.len() > MAX_CMP_CHARS {
        v.truncate(MAX_CMP_CHARS);
    }
    v
}

/// How similar two lines are.
pub fn line_similarity(a: &str, b: &str) -> (r: Single)
    ensures
        r@ == similarity(a@, b@),
        proper(r@),
        at_most_two_to(r@, 0),
        within(r@, -53, -23),
{
    let ta: &str = trim(a);
    let tb: &str = trim(b);
    if same_text(ta, tb) {
        return Single::one();
    }
    if ta.is_empty() || tb.is_empty() {
        return Single::zero();
    }
    let ca: Vec<char> = compared_chars(ta);
    let cb: Vec<char> = compared_chars(tb);
    let m: usize = if ca.len() > cb.len() {
        ca.len()
    } else {
        cb.len()
    };
    proof {
        lemma_distance_bound(ca@, cb@);
    }
    let d: usize = levenshtein(ca.as_slice(), cb.as_slice());
    Single::ratio(d as u32, m as u32).rest_of_one()
}

/// The sum of the similarities of the first `k` lines of the region at a place.
pub open spec fn region_total(
    lines: Seq<String>,
    pattern: Seq<String>,
    start: int,
    k: nat,
) -> Digits
    decreases k,
{
    if k == 0 {
        (0, 0)
    } else {
        sum(
            region_total(lines, pattern, start, (k - 1) as nat),
            similarity(lines[start + k - 1]@, pattern[k - 1]@),
        )
    }
}

/// The mean similarity of the region at a place: lines of the pattern beyond
/// its end count as unlike.
pub open spec fn region_similarity(
    lines: Seq<String>,
    pattern: Seq<String>,
    start: int,
    win: nat,
) -> Digits {
    quotient(region_total(lines, pattern, start, win), rounded(pattern_len(pattern), 1, 0))
}

fn score_region(
    lines: &[String],
    pattern: &[String],
    start: usize,
    win: usize,
    used: &Single,
) -> (r: Single)
    requires
        start + win <= lines@.len(),
        0 < win <= pattern_len(pattern@) <= pattern@.len(),
        used@ == rounded(pattern_len(pattern@), 1, 0),
        proper(used@),
        used@.0 != 0,
        within(used@, -23, 41),
    ensures
        r@ == region_similarity(lines@, pattern@, start as int, win as nat),
        proper(r@),
        at_most_two_to(r@, 0),
        within(r@, -118, 2),
{
    let count: usize = lines.len();
    let mut total: Single = Single::zero();
    let mut k: usize = 0;
    while k < win
        invariant
            k <= win,
            start + win <= lines@.len() == count,
            win <= pattern@.len(),
            total@ == region_total(lines@, pattern@, start as int, k as nat),
            proper(total@),
            at_most_two_to(total@, 24),
            within(total@, -53, 1),
        decreases win - k,
    {
        let one: Single = line_similarity(lines[start + k].as_str(), pattern[k].as_str());
        total = total.plus(&one);
        k += 1;
    }
    proof {
        law_similarity_is_a_share(lines@, pattern@, start as int, win as nat);
    }
    total.over(used)
}

// ---- votes ----

/// How many lines of the pattern count: not the blank ones at its end.
pub open spec fn pattern_len(pattern: Seq<String>) -> nat
    decreases pattern.len(),
{
    if pattern.len() > 0 && blank(pattern.last()@) {
        pattern_len(pattern.drop_last())
    } else {
        pattern.len()
    }
}

/// The length of the pattern without the blank lines at its end.
pub fn trim_trailing_blank(pattern: &[String]) -> (r: usize)
    ensures
        r == pattern_len(pattern@),
        r <= pattern@.len(),
        r > 0 ==> !blank(pattern@[r - 1]@),
{
    let mut end: usize = pattern.len();
    proof {
        assert(pattern@.take(end as int) =~= pattern@);
    }
    while end > 0 && is_blank(pattern[end - 1].as_str())
        invariant
            end <= pattern@.len(),
            pattern_len(pattern@) == pattern_len(pattern@.take(end as int)),
        decreases end,
    {
        proof {
            assert(pattern@.take(end as int).drop_last() =~= pattern@.take(end - 1));
        }
        end -= 1;
    }
    end
}

/// The place of the region in which a line of the pattern stands at a line of
/// the file.
pub open spec fn aligned(j: int, i: int, max_start: int) -> int {
    smaller(
        if j < i {
            0
        } else {
            j - i
        },
        max_start,
    )
}

/// A line of the file speaks for a place.
pub open spec fn speaks(line: Seq<char>, pat: Seq<char>, j: int, i: int, max_start: int, s: int) -> bool {
    !blank(pat) && trimmed(line) == trimmed(pat) && aligned(j, i, max_start) == s
}

/// How many of the first `n` lines of the file speak for a place, given a line
/// of the pattern.
pub open spec fn line_votes(
    lines: Seq<String>,
    pat: Seq<char>,
    i: int,
    max_start: int,
    s: int,
    n: nat,
) -> nat
    decreases n,
{
    if n == 0 {
        0
    } else {
        line_votes(lines, pat, i, max_start, s, (n - 1) as nat) + (if speaks(
            lines[n - 1]@,
            pat,
            n - 1,
            i,
            max_start,
            s,
        ) {
            1nat
        } else {
            0nat
        })
    }
}

/// How many lines speak for a place, given the first `n` lines of the pattern.
pub open spec fn votes(
    lines: Seq<String>,
    pattern: Seq<String>,
    max_start: int,
    s: int,
    n: nat,
) -> nat
    decreases n,
{
    if n == 0 {
        0
    } else {
        votes(lines, pattern, max_start, s, (n - 1) as nat) + line_votes(
            lines,
            pattern[n - 1]@,
            n - 1,
            max_start,
            s,
            lines.len(),
        )
    }
}

/// The votes for each place.
pub open spec fn all_votes(lines: Seq<String>, pattern: Seq<String>, max_start: int, n: nat) -> Seq<
    nat,
> {
    Seq::new((max_start + 1) as nat, |s: int| votes(lines, pattern, max_start, s, n))
}

/// The places that are better than none, or come after another in the order of
/// votes: more votes go first, then earlier places.
pub open spec fn comes_after(v: Seq<nat>, s: int, last: Option<int>) -> bool {
    match last {
        None => true,
        Some(l) => v[l] > v[s] || (v[l] == v[s] && l < s),
    }
}

/// The best place among the first `n` that comes after another, if there is one
/// with votes.
pub open spec fn best_place(v: Seq<nat>, last: Option<int>, n: nat) -> Option<int>
    decreases n,
{
    if n == 0 {
        None
    } else {
        let before = best_place(v, last, (n - 1) as nat);
        let s = n - 1;
        if v[s] > 0 && comes_after(v, s, last) && (before is None || v[s] > v[before->0]) {
            Some(s)
        } else {
            before
        }
    }
}

/// The best `k` places, or as many as have votes.
pub open spec fn best_places(v: Seq<nat>, k: nat) -> Seq<int>
    decreases k,
{
    if k == 0 {
        Seq::empty()
    } else {
        let before = best_places(v, (k - 1) as nat);
        let last = if before.len() == 0 {
            None
        } else {
            Some(before.last())
        };
        match best_place(v, last, v.len()) {
            Some(s) => before.push(s),
            None => before,
        }
    }
}

fn count_votes(lines: &[String], pattern: &[String], used: usize, max_start: usize) -> (r: Vec<u128>)
    requires
        used <= pattern@.len(),
        max_start < lines@.len(),
    ensures
        r@.len() == max_start + 1,
        forall|s: int|
            0 <= s <= max_start ==> (#[trigger] r@[s]) == votes(
                lines@,
                pattern@,
                max_start as int,
                s,
                used as nat,
            ),
{
    let count: usize = lines.len();
    let ghost n = lines@.len();
    let mut counts: Vec<u128> = Vec::new();
    let mut k: usize = 0;
    while k <= max_start
        invariant
            k <= max_start + 1,
            max_start < lines@.len() == count,
            counts@.len() == k,
            forall|s: int| 0 <= s < k ==> (#[trigger] counts@[s]) == 0,
        decreases max_start + 1 - k,
    {
        counts.push(0);
        k += 1;
    }
    let mut texts: Vec<&str> = Vec::new();
    let mut m: usize = 0;
    while m < lines.len()
        invariant
            m <= lines@.len(),
            texts@.len() == m,
            forall|j: int| 0 <= j < m ==> (#[trigger] texts@[j])@ == trimmed(lines@[j]@),
        decreases lines.len() - m,
    {
        texts.push(trim(lines[m].as_str()));
        m += 1;
    }
    let mut i: usize = 0;
    while i < used
        invariant
            i <= used <= pattern@.len(),
            n == lines@.len() == texts@.len(),
            max_start < n,
            forall|j: int| 0 <= j < n ==> (#[trigger] texts@[j])@ == trimmed(lines@[j]@),
            counts@.len() == max_start + 1,
            forall|s: int|
                0 <= s <= max_start ==> (#[trigger] counts@[s]) == votes(
                    lines@,
                    pattern@,
                    max_start as int,
                    s,
                    i as nat,
                ) && counts@[s] <= i * n,
        decreases used - i,
    {
        let pat: &str = pattern[i].as_str();
        let text: &str = trim(pat);
        let skip: bool = is_blank(pat);
        let ghost before = counts@;
        let mut j: usize = 0;
        while j < texts.len()
            invariant
                i < used <= pattern@.len(),
                j <= n,
                n == lines@.len() == texts@.len(),
                max_start < n,
                pat@ == pattern@[i as int]@,
                text@ == trimmed(pat@),
                skip == blank(pat@),
                forall|q: int| 0 <= q < n ==> (#[trigger] texts@[q])@ == trimmed(lines@[q]@),
                counts@.len() == max_start + 1,
                before.len() == max_start + 1,
                forall|s: int| 0 <= s <= max_start ==> (#[trigger] before[s]) <= i * n,
                forall|s: int|
                    0 <= s <= max_start ==> (#[trigger] counts@[s]) == before[s] + line_votes(
                        lines@,
                        pat@,
                        i as int,
                        max_start as int,
                        s,
                        j as nat,
                    ) && counts@[s] <= before[s] + j,
            decreases texts.len() - j,
        {
            let ghost held = counts@;
            if !skip && same_text(texts[j], text) {
                let mut start: usize = if j < i {
                    0
                } else {
                    j - i
                };
                if start > max_start {
                    start = max_start;
                }
                proof {
                    assert(held[start as int] <= before[start as int] + j);
                    assert(before[start as int] <= i * n);
                    assert(i * n + j < 0x1_0000_0000_0000_0000 * 0x1_0000_0000_0000_0000 - 1)
                        by (nonlinear_arith)
                        requires
                            i < 0xffff_ffff_ffff_ffff,
                            n <= 0xffff_ffff_ffff_ffff,
                            j <= n,
                            0 <= i,
                            0 <= n,
                    ;
                }
                counts.set(start, counts[start] + 1);
            }
            proof {
                assert forall|s: int| 0 <= s <= max_start implies (#[trigger] counts@[s])
                    == before[s] + line_votes(
                    lines@,
                    pat@,
                    i as int,
                    max_start as int,
                    s,
                    (j + 1) as nat,
                ) && counts@[s] <= before[s] + j + 1 by {
                    assert(held[s] == before[s] + line_votes(
                        lines@,
                        pat@,
                        i as int,
                        max_start as int,
                        s,
                        j as nat,
                    ));
                }
            }
            j += 1;
        }
        proof {
            assert((i + 1) * n == i * n + n) by (nonlinear_arith);
        }
        i += 1;
    }
    counts
}

fn next_place(counts: &Vec<u128>, last: Option<usize>, Ghost(v): Ghost<Seq<nat>>) -> (r: Option<
    usize,
>)
    requires
        v.len() == counts@.len(),
        forall|s: int| 0 <= s < v.len() ==> (#[trigger] counts@[s]) == v[s],
        last matches Some(l) ==> l < v.len(),
    ensures
        match (
            r,
            best_place(
                v,
                match last {
                    Some(l) => Some(l as int),
                    None => None,
                },
                v.len(),
            ),
        ) {
            (Some(a), Some(b)) => a == b && a < v.len(),
            (None, None) => true,
            _ => false,
        },
{
    let ghost before = match last {
        Some(l) => Some(l as int),
        None => None,
    };
    let mut best: Option<usize> = None;
    let mut s: usize = 0;
    while s < counts.len()
        invariant
            s <= counts@.len() == v.len(),
            forall|q: int| 0 <= q < v.len() ==> (#[trigger] counts@[q]) == v[q],
            last matches Some(l) ==> l < v.len(),
            before == (match last {
                Some(l) => Some(l as int),
                None => None,
            }),
            match (best, best_place(v, before, s as nat)) {
                (Some(a), Some(b)) => a == b && a < s,
                (None, None) => true,
                _ => false,
            },
        decreases counts.len() - s,
    {
        proof {
            assert(counts@[s as int] == v[s as int]);
        }
        let after: bool = match last {
            None => true,
            Some(l) => counts[l] > counts[s] || (counts[l] == counts[s] && l < s),
        };
        let more: bool = match best {
            None => true,
            Some(b) => counts[s] > counts[b],
        };
        if counts[s] > 0 && after && more {
            best = Some(s);
        }
        s += 1;
    }
    best
}

fn pick_places(counts: &Vec<u128>, Ghost(v): Ghost<Seq<nat>>) -> (r: Vec<usize>)
    requires
        v.len() == counts@.len(),
        forall|s: int| 0 <= s < v.len() ==> (#[trigger] counts@[s]) == v[s],
    ensures
        r@.map_values(|s: usize| s as int) == best_places(v, MAX_CANDIDATE_STARTS as nat),
        forall|i: int| 0 <= i < r@.len() ==> (#[trigger] r@[i]) < v.len(),
{
    let mut out: Vec<usize> = Vec::new();
    let mut k: usize = 0;
    proof {
        assert(out@.map_values(|s: usize| s as int) =~= Seq::<int>::empty());
    }
    while k < MAX_CANDIDATE_STARTS
        invariant
            k <= MAX_CANDIDATE_STARTS,
            v.len() == counts@.len(),
            forall|s: int| 0 <= s < v.len() ==> (#[trigger] counts@[s]) == v[s],
            out@.map_values(|s: usize| s as int) == best_places(v, k as nat),
            forall|i: int| 0 <= i < out@.len() ==> (#[trigger] out@[i]) < v.len(),
        decreases MAX_CANDIDATE_STARTS - k,
    {
        let last: Option<usize> = if out.len() == 0 {
            None
        } else {
            Some(out[out.len() - 1])
        };
        let ghost held = out@;
        proof {
            let b = best_places(v, k as nat);
            assert(b.len() == held.len());
            if held.len() > 0 {
                assert(b.last() == held.last());
            }
        }
        if let Some(s) = next_place(counts, last, Ghost(v)) {
            out.push(s);
            proof {
                assert(out@.map_values(|s: usize| s as int) =~= held.map_values(
                    |s: usize| s as int,
                ).push(s as int));
            }
        }
        k += 1;
    }
    out
}

// ---- the closest region ----

/// The line among the first `n` that is most like another; of equals the last.
pub open spec fn likest(lines: Seq<String>, anchor: Seq<char>, n: nat) -> int
    decreases n,
{
    if n <= 1 {
        0
    } else {
        let before = likest(lines, anchor, (n - 1) as nat);
        if below(similarity(lines[n - 1]@, anchor), similarity(lines[before]@, anchor)) {
            before
        } else {
            n - 1
        }
    }
}

/// The first line that is not blank.
pub open spec fn first_text(pattern: Seq<String>) -> Seq<char>
    decreases pattern.len(),
{
    if pattern.len() == 0 {
        Seq::empty()
    } else if !blank(pattern[0]@) {
        pattern[0]@
    } else {
        first_text(pattern.drop_first())
    }
}

/// The places that are scored.
pub open spec fn candidates(lines: Seq<String>, pattern: Seq<String>) -> Seq<int> {
    let used = pattern_len(pattern);
    let win = smaller(used as int, lines.len() as int);
    let max_start = lines.len() - win;
    let by_votes = best_places(
        all_votes(lines, pattern, max_start, used),
        MAX_CANDIDATE_STARTS as nat,
    );
    if by_votes.len() > 0 {
        by_votes
    } else if lines.len() > MAX_FALLBACK_FILE_LINES {
        Seq::empty()
    } else {
        let anchor = first_text(pattern);
        let j = likest(lines, anchor, lines.len());
        if similarity(lines[j]@, anchor).0 == 0 {
            Seq::empty()
        } else {
            seq![smaller(j, max_start)]
        }
    }
}

/// The first of the places with the greatest similarity, among the first `n`.
pub open spec fn best_scored(
    lines: Seq<String>,
    pattern: Seq<String>,
    places: Seq<int>,
    win: nat,
    n: nat,
) -> int
    decreases n,
{
    if n <= 1 {
        places[0]
    } else {
        let before = best_scored(lines, pattern, places, win, (n - 1) as nat);
        if below(
            region_similarity(lines, pattern, before, win),
            region_similarity(lines, pattern, places[n - 1], win),
        ) {
            places[n - 1]
        } else {
            before
        }
    }
}

/// The region of a file that is most like a pattern, if there is one: its place
/// and its length.
pub open spec fn closest(lines: Seq<String>, pattern: Seq<String>) -> Option<(int, nat)> {
    let used = pattern_len(pattern);
    let win = smaller(used as int, lines.len() as int) as nat;
    let places = candidates(lines, pattern);
    if lines.len() == 0 || used == 0 || places.len() == 0 {
        None
    } else {
        Some((best_scored(lines, pattern, places, win, places.len()), win))
    }
}

fn find_anchor<'a>(pattern: &'a [String], used: usize) -> (r: &'a str)
    requires
        0 < used <= pattern@.len(),
        !blank(pattern@[used - 1]@),
    ensures
        r@ == first_text(pattern@),
{
    let mut i: usize = 0;
    proof {
        assert(pattern@.skip(0) =~= pattern@);
    }
    while is_blank(pattern[i].as_str())
        invariant
            i < used <= pattern@.len(),
            !blank(pattern@[used - 1]@),
            first_text(pattern@) == first_text(pattern@.skip(i as int)),
        decreases used - i,
    {
        proof {
            assert(pattern@.skip(i as int)[0] == pattern@[i as int]);
            assert(pattern@.skip(i as int).drop_first() =~= pattern@.skip(i as int + 1));
        }
        i += 1;
    }
    proof {
        assert(pattern@.skip(i as int)[0] == pattern@[i as int]);
    }
    pattern[i].as_str()
}

fn find_likest(lines: &[String], anchor: &str) -> (r: (usize, Single))
    requires
        lines@.len() > 0,
    ensures
        r.0 == likest(lines@, anchor@, lines@.len()),
        r.0 < lines@.len(),
        r.1@ == similarity(lines@[r.0 as int]@, anchor@),
{
    let mut best: usize = 0;
    let mut most: Single = line_similarity(lines[0].as_str(), anchor);
    let mut i: usize = 1;
    while i < lines.len()
        invariant
            1 <= i <= lines@.len(),
            best < i,
            best == likest(lines@, anchor@, i as nat),
            most@ == similarity(lines@[best as int]@, anchor@),
        decreases lines.len() - i,
    {
        let other: Single = line_similarity(lines[i].as_str(), anchor);
        if !other.is_below(&most) {
            best = i;
            most = other;
        }
        i += 1;
    }
    (best, most)
}

/// Finds the region of a file that is most like a pattern.
pub fn closest_match(lines: &[String], pattern: &[String]) -> (r: Option<ClosestMatch>)
    ensures
        match (r, closest(lines@, pattern@)) {
            (Some(m), Some((start, len))) => {
                &&& m.wf()
                &&& m.start == start
                &&& m.len == len
                &&& m.start + m.len <= lines@.len()
                &&& m.similarity@ == region_similarity(lines@, pattern@, start, len)
            },
            (None, None) => true,
            _ => false,
        },
{
    let used: usize = trim_trailing_blank(pattern);
    if lines.len() == 0 || used == 0 {
        return None;
    }
    let win: usize = if used < lines.len() {
        used
    } else {
        lines.len()
    };
    let max_start: usize = lines.len() - win;
    let counts: Vec<u128> = count_votes(lines, pattern, used, max_start);
    let ghost v = all_votes(lines@, pattern@, max_start as int, used as nat);
    let mut places: Vec<usize> = pick_places(&counts, Ghost(v));
    let ghost by_votes = best_places(v, MAX_CANDIDATE_STARTS as nat);
    proof {
        assert(by_votes.len() == places@.len());
    }
    if places.len() == 0 {
        if lines.len() > MAX_FALLBACK_FILE_LINES {
            return None;
        }
        let anchor: &str = find_anchor(pattern, used);
        let (j, most): (usize, Single) = find_likest(lines, anchor);
        if most.is_zero() {
            return None;
        }
        let start: usize = if j < max_start {
            j
        } else {
            max_start
        };
        places.push(start);
        proof {
            assert(candidates(lines@, pattern@) == seq![smaller(j as int, max_start as int)]);
            assert(places@.map_values(|s: usize| s as int) =~= candidates(lines@, pattern@));
        }
    }
    let ghost all = candidates(lines@, pattern@);
    proof {
        assert(places@.map_values(|s: usize| s as int) == all);
        assert(all.len() == places@.len());
        assert(all[0] == places@[0]);
    }
    let mut best: usize = places[0];
    let length: Single = Single::of_count(used);
    let mut most: Single = score_region(lines, pattern, best, win, &length);
    let mut i: usize = 1;
    while i < places.len()
        invariant
            1 <= i <= places@.len(),
            places@.map_values(|s: usize| s as int) == all,
            0 < win <= used <= pattern@.len(),
            used == pattern_len(pattern@),
            length@ == rounded(used as nat, 1, 0),
            proper(length@),
            length@.0 != 0,
            within(length@, -23, 41),
            win <= lines@.len(),
            max_start == lines@.len() - win,
            forall|q: int| 0 <= q < places@.len() ==> (#[trigger] places@[q]) <= max_start,
            best <= max_start,
            best == best_scored(lines@, pattern@, all, win as nat, i as nat),
            most@ == region_similarity(lines@, pattern@, best as int, win as nat),
            proper(most@),
            at_most_two_to(most@, 0),
            within(most@, -118, 2),
        decreases places.len() - i,
    {
        let start: usize = places[i];
        proof {
            assert(all[i as int] == start);
        }
        let other: Single = score_region(lines, pattern, start, win, &length);
        if most.is_below(&other) {
            best = start;
            most = other;
        }
        i += 1;
    }
    Some(ClosestMatch { start: best, len: win, similarity: most })
}

// ---- laws ----

/// The distance of a text to itself is nothing, and equal distances come from
/// equal texts only.
pub proof fn law_distance_tells_texts_apart(a: Seq<char>, b: Seq<char>)
    ensures
        edit_distance(a, b) == 0 <==> a == b,
    decreases a.len() + b.len(),
{
    if a.len() > 0 && b.len() > 0 {
        law_distance_tells_texts_apart(a.drop_last(), b.drop_last());
        law_distance_tells_texts_apart(a.drop_last(), b);
        law_distance_tells_texts_apart(a, b.drop_last());
        assert(a =~= a.drop_last().push(a.last()));
        assert(b =~= b.drop_last().push(b.last()));
        if a == b {
            assert(a.drop_last() == b.drop_last());
        }
    } else {
        if edit_distance(a, b) == 0 {
            assert(a =~= b);
        }
    }
}

/// The distance is the same in both directions.
pub proof fn law_distance_is_symmetric(a: Seq<char>, b: Seq<char>)
    ensures
        edit_distance(a, b) == edit_distance(b, a),
    decreases a.len() + b.len(),
{
    if a.len() > 0 && b.len() > 0 {
        law_distance_is_symmetric(a.drop_last(), b.drop_last());
        law_distance_is_symmetric(a.drop_last(), b);
        law_distance_is_symmetric(a, b.drop_last());
    }
}

/// The similarity of two lines lies between zero and one, and is the same in
/// both directions.
pub proof fn law_similarity_is_a_fraction(a: Seq<char>, b: Seq<char>)
    ensures
        proper(similarity(a, b)),
        at_most_two_to(similarity(a, b), 0),
        within(similarity(a, b), -53, -23),
        similarity(a, b) == similarity(b, a),
{
    let ca = compared(trimmed(a));
    let cb = compared(trimmed(b));
    lemma_distance_bound(ca, cb);
    law_distance_is_symmetric(ca, cb);
    if trimmed(a) != trimmed(b) && trimmed(a).len() > 0 && trimmed(b).len() > 0 {
        lemma_rest_of_share(edit_distance(ca, cb), longer(ca, cb));
    }
}

proof fn lemma_total_at_most(lines: Seq<String>, pattern: Seq<String>, start: int, k: nat)
    ensures
        proper(region_total(lines, pattern, start, k)),
        at_most_two_to(region_total(lines, pattern, start, k), 24),
        within(region_total(lines, pattern, start, k), -53, 1),
        !below(
            rounded(smaller(k as int, HIGH as int) as nat, 1, 0),
            region_total(lines, pattern, start, k),
        ),
    decreases k,
{
    if k > 0 {
        let before = region_total(lines, pattern, start, (k - 1) as nat);
        let one = similarity(lines[start + k - 1]@, pattern[k - 1]@);
        lemma_total_at_most(lines, pattern, start, (k - 1) as nat);
        law_similarity_is_a_fraction(lines[start + k - 1]@, pattern[k - 1]@);
        lemma_sum_is_held(before, one);
        if k <= HIGH {
            lemma_sum_at_most(before, one, (k - 1) as nat);
        } else {
            lemma_sum_with_one(HIGH as nat);
        }
    }
}

/// The similarity of a region that is not longer than the pattern lies between
/// zero and one.
pub proof fn law_similarity_is_a_share(
    lines: Seq<String>,
    pattern: Seq<String>,
    start: int,
    win: nat,
)
    requires
        0 < win <= pattern_len(pattern),
    ensures
        proper(region_similarity(lines, pattern, start, win)),
        at_most_two_to(region_similarity(lines, pattern, start, win), 0),
{
    let n = pattern_len(pattern);
    let total = region_total(lines, pattern, start, win);
    let length = rounded(n, 1, 0);
    lemma_total_at_most(lines, pattern, start, win);
    lemma_counts_keep_order(smaller(win as int, HIGH as int) as nat, n);
    lemma_rounded_is_proper(n, 1, 0);
    lemma_quotient_at_most_one(total, length);
    lemma_rounded_is_proper(total.0, length.0, total.1 - length.1);
}

proof fn lemma_same_lines_total(
    lines: Seq<String>,
    pattern: Seq<String>,
    start: int,
    k: nat,
)
    requires
        forall|i: int|
            0 <= i < k ==> trimmed((#[trigger] pattern[i])@) == trimmed(lines[start + i]@),
    ensures
        region_total(lines, pattern, start, k) == rounded(
            smaller(k as int, HIGH as int) as nat,
            1,
            0,
        ),
    decreases k,
{
    if k > 0 {
        lemma_same_lines_total(lines, pattern, start, (k - 1) as nat);
        assert(trimmed(pattern[k - 1]@) == trimmed(lines[start + (k - 1)]@));
        lemma_sum_with_one(smaller(k - 1, HIGH as int) as nat);
    }
}

/// A region whose lines are those of the pattern, but for white space at their
/// ends, has similarity one. With two to the twenty-four lines and two more the
/// sum of single precision falls behind the count.
pub proof fn law_same_lines_score_full(lines: Seq<String>, pattern: Seq<String>, start: int)
    requires
        0 < pattern_len(pattern) <= HIGH + 1,
        forall|i: int|
            0 <= i < pattern_len(pattern) ==> trimmed((#[trigger] pattern[i])@) == trimmed(
                lines[start + i]@,
            ),
    ensures
        region_similarity(lines, pattern, start, pattern_len(pattern)) == (LOW as nat, -23int),
{
    let n = pattern_len(pattern);
    lemma_same_lines_total(lines, pattern, start, n);
    lemma_sum_with_one(1);
    lemma_rounded_is_proper(n, 1, 0);
    lemma_quotient_at_most_one(rounded(n, 1, 0), rounded(n, 1, 0));
}

} // verus!

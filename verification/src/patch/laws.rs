//! What holds of the search for the closest region, said of the lines of a file and of
//! a pattern.
use vstd::prelude::*;
#[allow(unused_imports)]
use vstd::string::*;

#[allow(unused_imports)]
use crate::patch::closest::{
    MAX_CANDIDATE_STARTS, all_votes, best_place, best_places, best_scored, candidates, closest,
    edit_distance, first_text, likest, line_votes, pattern_len, region_similarity, similarity,
    speaks, votes,
};
#[allow(unused_imports)]
use crate::patch::diagnose::{MAX_DISPLAY_LINES, diagnosis, no_region, region_text, shown_lines};
#[allow(unused_imports)]
use crate::precision::single::{
    Digits, LOW, below, hundredfold, rest_of_one, rounded, tenths_of, tenths_shown,
};
#[allow(unused_imports)]
use crate::text::{
    blank, decimal, has_part, has_prefix, is_white, lemma_trimmed_blank, lines, occurs_at, smaller,
    trim_back, trimmed,
};

verus! {

/// The pattern that is searched ends with its last line that says something.
pub proof fn law_trailing_blanks_do_not_count(pattern: Seq<String>)
    ensures
        pattern_len(pattern) <= pattern.len(),
        pattern_len(pattern) > 0 ==> !blank(pattern[pattern_len(pattern) - 1]@),
        forall|i: int|
            pattern_len(pattern) <= i < pattern.len() ==> blank((#[trigger] pattern[i])@),
    decreases pattern.len(),
{
    if pattern.len() > 0 && blank(pattern.last()@) {
        let t = pattern.drop_last();
        law_trailing_blanks_do_not_count(t);
        assert forall|i: int| pattern_len(pattern) <= i < pattern.len() implies blank(
            (#[trigger] pattern[i])@,
        ) by {
            if i < t.len() {
                assert(t[i] == pattern[i]);
            }
        }
    }
}

/// How like two lines are: wholly where they differ in outer white space only, not at
/// all where one is blank, and else by what their distance leaves of the longer one, of
/// which 120 characters count.
pub proof fn law_lines_are_alike_by_their_distance(a: Seq<char>, b: Seq<char>)
    ensures
        trimmed(a) == trimmed(b) ==> similarity(a, b) == (LOW as nat, -23int),
        trimmed(a) != trimmed(b) && (blank(a) || blank(b)) ==> similarity(a, b) == (0nat, 0int),
        trimmed(a) != trimmed(b) && !blank(a) && !blank(b) ==> {
            let x = if trimmed(a).len() > 120 {
                trimmed(a).take(120)
            } else {
                trimmed(a)
            };
            let y = if trimmed(b).len() > 120 {
                trimmed(b).take(120)
            } else {
                trimmed(b)
            };
            let m = if x.len() > y.len() {
                x.len()
            } else {
                y.len()
            };
            similarity(a, b) == rest_of_one(rounded(edit_distance(x, y), m, 0))
        },
{
    lemma_trimmed_blank(a);
    lemma_trimmed_blank(b);
    let (ta, tb) = (trimmed(a), trimmed(b));
    assert(ta.take(ta.len() as int) =~= ta);
    assert(tb.take(tb.len() as int) =~= tb);
}

/// A line of the file speaks for the place at which it would meet the line of the
/// pattern that it equals, as far as places go; blank lines do not speak.
pub proof fn law_equal_lines_speak_for_their_place(
    line: Seq<char>,
    pat: Seq<char>,
    j: int,
    i: int,
    max_start: int,
    s: int,
)
    requires
        0 <= i,
        0 <= j,
        0 <= max_start,
    ensures
        speaks(line, pat, j, i, max_start, s) ==> !blank(pat) && trimmed(line) == trimmed(pat)
            && 0 <= s <= max_start,
        !blank(pat) && trimmed(line) == trimmed(pat) && 0 <= j - i <= max_start ==> (speaks(
            line,
            pat,
            j,
            i,
            max_start,
            s,
        ) <==> s == j - i),
        !blank(pat) && trimmed(line) == trimmed(pat) && j < i ==> (speaks(
            line,
            pat,
            j,
            i,
            max_start,
            s,
        ) <==> s == 0),
        !blank(pat) && trimmed(line) == trimmed(pat) && j - i > max_start ==> (speaks(
            line,
            pat,
            j,
            i,
            max_start,
            s,
        ) <==> s == max_start),
{
}

/// The votes for a place grow with each line that speaks for it, and only with those.
pub proof fn law_votes_are_counted(
    lines: Seq<String>,
    pat: Seq<char>,
    i: int,
    max_start: int,
    s: int,
    n: nat,
)
    requires
        n < lines.len(),
    ensures
        line_votes(lines, pat, i, max_start, s, 0) == 0,
        speaks(lines[n as int]@, pat, n as int, i, max_start, s) ==> line_votes(
            lines,
            pat,
            i,
            max_start,
            s,
            n + 1,
        ) == line_votes(lines, pat, i, max_start, s, n) + 1,
        !speaks(lines[n as int]@, pat, n as int, i, max_start, s) ==> line_votes(
            lines,
            pat,
            i,
            max_start,
            s,
            n + 1,
        ) == line_votes(lines, pat, i, max_start, s, n),
{
}

/// Every line of the pattern counts: the votes for a place are those of all its lines.
pub proof fn law_all_lines_vote(
    lines: Seq<String>,
    pattern: Seq<String>,
    max_start: int,
    s: int,
    n: nat,
)
    requires
        n < pattern.len(),
    ensures
        votes(lines, pattern, max_start, s, 0) == 0,
        votes(lines, pattern, max_start, s, n + 1) == votes(lines, pattern, max_start, s, n)
            + line_votes(lines, pattern[n as int]@, n as int, max_start, s, lines.len()),
{
}

/// The place that is tried first has the most votes, and of such places it is the
/// first; without votes there is none.
pub proof fn law_the_place_with_most_votes_is_tried_first(v: Seq<nat>, n: nat)
    requires
        n <= v.len(),
    ensures
        match best_place(v, None, n) {
            Some(s) => {
                &&& 0 <= s < n
                &&& v[s] > 0
                &&& forall|t: int| 0 <= t < n ==> #[trigger] v[t] <= v[s]
                &&& forall|t: int| 0 <= t < s ==> #[trigger] v[t] < v[s]
            },
            None => forall|t: int| 0 <= t < n ==> #[trigger] v[t] == 0,
        },
    decreases n,
{
    if n > 0 {
        law_the_place_with_most_votes_is_tried_first(v, (n - 1) as nat);
    }
}

/// The places that are tried next come after the last one in the order of votes, and no
/// other place stands between.
pub proof fn law_places_are_tried_in_the_order_of_votes(v: Seq<nat>, last: int, n: nat)
    requires
        n <= v.len(),
        0 <= last < v.len(),
    ensures
        match best_place(v, Some(last), n) {
            Some(s) => {
                &&& 0 <= s < n
                &&& v[s] > 0
                &&& v[s] < v[last] || (v[s] == v[last] && last < s)
                &&& forall|t: int|
                    0 <= t < n && (#[trigger] v[t] < v[last] || (v[t] == v[last] && last < t))
                        ==> v[t] < v[s] || (v[t] == v[s] && s <= t)
            },
            None => forall|t: int|
                0 <= t < n && (#[trigger] v[t] < v[last] || (v[t] == v[last] && last < t)) ==> v[t]
                    == 0,
        },
    decreases n,
{
    if n > 0 {
        law_places_are_tried_in_the_order_of_votes(v, last, (n - 1) as nat);
    }
}

/// Five places are tried at most.
pub proof fn law_few_places_are_tried(v: Seq<nat>, k: nat)
    ensures
        best_places(v, k).len() <= k,
        MAX_CANDIDATE_STARTS == 5,
    decreases k,
{
    if k > 0 {
        law_few_places_are_tried(v, (k - 1) as nat);
    }
}

/// The line that is most like another: none among those compared is more like it, and
/// none behind it is as much.
pub proof fn law_the_likest_line_is_chosen(lines: Seq<String>, anchor: Seq<char>, n: nat)
    requires
        0 < n <= lines.len(),
    ensures
        ({
            let k = likest(lines, anchor, n);
            &&& 0 <= k < n
            &&& forall|j: int|
                0 <= j < n ==> !below(
                    similarity(lines[k]@, anchor),
                    similarity((#[trigger] lines[j])@, anchor),
                )
            &&& forall|j: int|
                k < j < n ==> below(
                    similarity((#[trigger] lines[j])@, anchor),
                    similarity(lines[k]@, anchor),
                )
        }),
    decreases n,
{
    if n > 1 {
        law_the_likest_line_is_chosen(lines, anchor, (n - 1) as nat);
    }
}

/// The first line of a pattern that says something is the one that is looked for where
/// none is found as it stands.
pub proof fn law_the_first_text_is_looked_for(pattern: Seq<String>, i: int)
    requires
        0 <= i < pattern.len(),
        !blank(pattern[i]@),
        forall|j: int| 0 <= j < i ==> blank((#[trigger] pattern[j])@),
    ensures
        first_text(pattern) == pattern[i]@,
    decreases pattern.len(),
{
    if i > 0 {
        let t = pattern.drop_first();
        assert(blank(pattern[0]@));
        assert(t[i - 1] == pattern[i]);
        assert forall|j: int| 0 <= j < i - 1 implies blank((#[trigger] t[j])@) by {
            assert(pattern[j + 1] == t[j]);
        }
        law_the_first_text_is_looked_for(t, i - 1);
    }
}

proof fn lemma_best_scored(
    lines: Seq<String>,
    pattern: Seq<String>,
    places: Seq<int>,
    win: nat,
    n: nat,
)
    requires
        0 < n <= places.len(),
    ensures
        ({
            let best = best_scored(lines, pattern, places, win, n);
            &&& exists|i: int| 0 <= i < n && #[trigger] places[i] == best
            &&& forall|i: int|
                0 <= i < n ==> !below(
                    region_similarity(lines, pattern, best, win),
                    region_similarity(lines, pattern, #[trigger] places[i], win),
                )
        }),
    decreases n,
{
    if n > 1 {
        lemma_best_scored(lines, pattern, places, win, (n - 1) as nat);
        let before = best_scored(lines, pattern, places, win, (n - 1) as nat);
        let best = best_scored(lines, pattern, places, win, n);
        assert(places[n - 1] == places[n - 1]);
        assert forall|i: int| 0 <= i < n implies !below(
            region_similarity(lines, pattern, best, win),
            region_similarity(lines, pattern, #[trigger] places[i], win),
        ) by {
            if i < n - 1 {
                assert(!below(
                    region_similarity(lines, pattern, before, win),
                    region_similarity(lines, pattern, places[i], win),
                ));
            }
        }
    } else {
        assert(places[0] == best_scored(lines, pattern, places, win, n));
    }
}

/// The closest region is one of those that are tried, as long as the pattern or the
/// file, and no other that is tried is more like the pattern.
pub proof fn law_the_closest_region_is_most_alike(lines: Seq<String>, pattern: Seq<String>)
    ensures
        closest(lines, pattern) matches Some((start, len)) ==> {
            &&& candidates(lines, pattern).contains(start)
            &&& len == pattern_len(pattern) || len == lines.len()
            &&& len <= pattern_len(pattern)
            &&& len <= lines.len()
            &&& forall|i: int|
                0 <= i < candidates(lines, pattern).len() ==> !below(
                    region_similarity(lines, pattern, start, len),
                    region_similarity(
                        lines,
                        pattern,
                        #[trigger] candidates(lines, pattern)[i],
                        len,
                    ),
                )
        },
        closest(lines, pattern) is None <==> lines.len() == 0 || pattern_len(pattern) == 0
            || candidates(lines, pattern).len() == 0,
{
    if let Some((start, len)) = closest(lines, pattern) {
        let places = candidates(lines, pattern);
        lemma_best_scored(lines, pattern, places, len, places.len());
        let i = choose|i: int| 0 <= i < places.len() && #[trigger] places[i] == start;
        assert(places.contains(start));
    }
}

/// Without a line as it stands the likest line of a file of at most twenty thousand is
/// tried, if it is like at all.
pub proof fn law_large_files_are_not_searched_line_by_line(
    lines: Seq<String>,
    pattern: Seq<String>,
)
    requires
        lines.len() > 0,
        pattern_len(pattern) > 0,
    ensures
        ({
            let used = pattern_len(pattern);
            let win = if used < lines.len() {
                used as int
            } else {
                lines.len() as int
            };
            let voted = best_places(all_votes(lines, pattern, lines.len() - win, used), 5);
            let j = likest(lines, first_text(pattern), lines.len());
            &&& voted.len() > 0 ==> candidates(lines, pattern) == voted
            &&& voted.len() == 0 && lines.len() > 20_000 ==> candidates(lines, pattern).len() == 0
            &&& voted.len() == 0 && lines.len() <= 20_000 && similarity(
                lines[j]@,
                first_text(pattern),
            ).0 != 0 ==> candidates(lines, pattern) == seq![
                if j < lines.len() - win {
                    j
                } else {
                    lines.len() - win
                },
            ]
        }),
{
}

// ---- what is said ----

proof fn lemma_part(pre: Seq<char>, p: Seq<char>, post: Seq<char>)
    ensures
        has_part(pre + p + post, p),
{
    let s = pre + p + post;
    assert(s.subrange(pre.len() as int, (pre.len() + p.len()) as int) =~= p);
    assert(occurs_at(s, p, pre.len() as int));
}

proof fn lemma_behind(s: Seq<char>, post: Seq<char>, p: Seq<char>)
    requires
        has_part(s, p),
    ensures
        has_part(s + post, p),
{
    let i = choose|i: int| occurs_at(s, p, i);
    assert((s + post).subrange(i, i + p.len()) =~= s.subrange(i, i + p.len()));
    assert(occurs_at(s + post, p, i));
}

/// The lines of a region are shown with their numbers in the file.
pub proof fn law_shown_lines_have_their_numbers(
    lines: Seq<String>,
    start: int,
    k: nat,
    i: int,
)
    requires
        0 <= i < k,
        0 <= start,
        start + k <= lines.len(),
    ensures
        has_part(
            shown_lines(lines, start, k),
            decimal((start + i + 1) as nat) + "\t"@ + lines[start + i]@ + "\n"@,
        ),
    decreases k,
{
    let before = shown_lines(lines, start, (k - 1) as nat);
    let number = decimal((start + k) as nat);
    let last = number + "\t"@ + lines[start + k - 1]@ + "\n"@;
    let p = decimal((start + i + 1) as nat) + "\t"@ + lines[start + i]@ + "\n"@;
    assert(shown_lines(lines, start, k) =~= before + last);
    if i < k - 1 {
        law_shown_lines_have_their_numbers(lines, start, (k - 1) as nat, i);
        lemma_behind(before, last, p);
    } else {
        lemma_part(before, last, Seq::empty());
        assert(before + last + Seq::empty() =~= before + last);
    }
}

/// A region is reported exactly where there is one that is alike by three tenths at
/// least; else it is said that there is none.
pub proof fn law_regions_are_reported_from_three_tenths_on(
    lines: Seq<String>,
    pattern: Seq<String>,
    path: Seq<char>,
    search_start: int,
)
    ensures
        closest(lines, pattern) is None ==> diagnosis(lines, pattern, path, search_start)
            == no_region(path),
        closest(lines, pattern) matches Some((start, len)) ==> {
            let alike = region_similarity(lines, pattern, start, len);
            &&& below(alike, rounded(3, 10, 0)) ==> diagnosis(lines, pattern, path, search_start)
                == no_region(path)
            &&& !below(alike, rounded(3, 10, 0)) ==> diagnosis(lines, pattern, path, search_start)
                == region_text(lines, path, start, len, alike, search_start)
        },
        has_part(no_region(path), path),
{
    lemma_part(
        "No similar region was found in "@,
        path,
        ". Re-read the file to see its current contents."@,
    );
}

proof fn lemma_kept_front(p: Seq<char>, rest: Seq<char>)
    requires
        p.len() > 0,
        !is_white(p.last()),
    ensures
        has_prefix(trim_back(p + rest), p),
    decreases rest.len(),
{
    let s = p + rest;
    if rest.len() == 0 {
        assert(s =~= p);
        assert(p.subrange(0, p.len() as int) =~= p);
    } else {
        assert(s.last() == rest.last());
        assert(s.drop_last() =~= p + rest.drop_last());
        if is_white(s.last()) {
            lemma_kept_front(p, rest.drop_last());
        } else {
            assert(s.subrange(0, p.len() as int) =~= p);
        }
    }
}

/// A report names the file, the lines of the region, counted from one, and how alike it
/// is; and where the region is the pattern itself but stands too early, it says so.
pub proof fn law_reports_name_the_region(
    lines: Seq<String>,
    path: Seq<char>,
    start: int,
    len: nat,
    alike: Digits,
    search_start: int,
)
    ensures
        has_prefix(
            region_text(lines, path, start, len, alike, search_start),
            "Closest match in "@ + path + " at lines "@ + decimal((start + 1) as nat) + "-"@
                + decimal((start + len) as nat) + " (similarity: "@ + tenths_shown(
                tenths_of(hundredfold(alike)) as nat,
            ) + "%):"@,
        ),
        start < search_start && !below(alike, rounded(999, 1000, 0)) ==> has_part(
            region_text(lines, path, start, len, alike, search_start),
            "These lines exist but occur BEFORE the position where the previous hunk matched; hunks must be ordered top-to-bottom within the file."@,
        ),
{
    let p = "Closest match in "@ + path + " at lines "@ + decimal((start + 1) as nat) + "-"@
        + decimal((start + len) as nat) + " (similarity: "@ + tenths_shown(
        tenths_of(hundredfold(alike)) as nat,
    );
    let head = p + "%):\n"@;
    let body = shown_lines(lines, start, smaller(len as int, MAX_DISPLAY_LINES as int) as nat);
    let more = if len > MAX_DISPLAY_LINES {
        "\t… ("@ + decimal((len - MAX_DISPLAY_LINES) as nat) + " more lines)\n"@
    } else {
        Seq::empty()
    };
    let early = !below(alike, rounded(999, 1000, 0)) && start < search_start;
    let note = "These lines exist but occur BEFORE the position where the previous hunk matched; hunks must be ordered top-to-bottom within the file."@;
    let order = if early {
        note
    } else {
        Seq::empty()
    };
    let all = head + body + more + order;
    reveal_strlit("%):\n");
    reveal_strlit("%):");
    let q = p + "%):"@;
    assert("%):"@.last() == ':');
    assert(q.last() == ':');
    let rest = "%):\n"@.skip(3) + body + more + order;
    assert("%):\n"@ =~= "%):"@ + "%):\n"@.skip(3));
    assert(all =~= q + rest);
    lemma_kept_front(q, rest);
    if early {
        reveal_strlit(
            "These lines exist but occur BEFORE the position where the previous hunk matched; hunks must be ordered top-to-bottom within the file.",
        );
        assert(note.last() == '.');
        assert(all.last() == '.');
        assert(trim_back(all) == all);
        lemma_part(head + body + more, note, Seq::empty());
        assert(head + body + more + note + Seq::empty() =~= all);
    }
}

} // verus!

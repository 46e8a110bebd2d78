//! What holds of remembered experience, said of what is asked and what is told.
use vstd::prelude::*;
#[allow(unused_imports)]
use vstd::string::*;

#[allow(unused_imports)]
use crate::memory::experience::{
    ExperienceSearchImpl, MAX_OUTPUT_BYTES, TRUNCATION_NOTICE, answer_from, answer_head,
    answer_text, clean_char, cleaned, evidence_text, experience_fields, experience_heading,
    experience_text, field_text, items_text, list_text, outcome_word, query_error, references_text,
    sanitized, told_count, with_outcome,
};
#[allow(unused_imports)]
use crate::memory::types::{ExperienceOutcomeFilter, ExperienceSearchInput, ExperienceSearchResult};
#[allow(unused_imports)]
use crate::text::{
    blank, byte_len, control, decimal, has_part, has_prefix, occurs_at, smaller, trimmed,
};

verus! {

/// What may be searched for: a query that says something in at most 1024 characters.
pub proof fn law_queries_say_something(query: Seq<char>)
    ensures
        query_error(query) is None <==> query.len() <= 1024 && !blank(query),
{
}

/// Only experience with the outcome that was asked for is told, all of it and in order;
/// without such a wish all is.
pub proof fn law_experience_is_chosen_by_outcome(s: Seq<ExperienceSearchResult>, outcome: bool)
    ensures
        with_outcome(s, Some(outcome)) == s.filter(
            |e: ExperienceSearchResult| e.outcome == outcome,
        ),
        with_outcome(s, None) == s,
    decreases s.len(),
{
    reveal(Seq::filter);
    if s.len() > 0 {
        law_experience_is_chosen_by_outcome(s.drop_last(), outcome);
        assert(s.drop_last().push(s.last()) =~= s);
    }
}

/// The outcome that is asked for is that of the filter: what worked, or what failed.
pub proof fn law_filters_name_the_outcome(
    tool: &ExperienceSearchImpl,
    input: &ExperienceSearchInput,
    r: Option<bool>,
)
    requires
        call_ensures(ExperienceSearchImpl::outcome, (tool, input), r),
    ensures
        input.outcome is None ==> r is None,
        input.outcome == Some(ExperienceOutcomeFilter::Success) ==> r == Some(true),
        input.outcome == Some(ExperienceOutcomeFilter::Failure) ==> r == Some(false),
{
}

/// How many results are asked for: as many as the call says, or the default, and twenty
/// at most.
pub proof fn law_results_are_limited(
    tool: &ExperienceSearchImpl,
    input: &ExperienceSearchInput,
    default: usize,
    r: usize,
)
    requires
        call_ensures(ExperienceSearchImpl::result_limit, (tool, input, default), r),
    ensures
        r <= 20,
        input.max_results matches Some(n) ==> (n <= 20 ==> r == n) && (n > 20 ==> r == 20),
        input.max_results is None ==> (default <= 20 ==> r == default) && (default > 20 ==> r
            == 20),
{
}

/// Text without anything that could mislead is told as it is, where it is not too long,
/// but for its outer white space.
pub proof fn law_plain_text_is_told_as_it_is(s: Seq<char>, max_chars: int)
    requires
        s.len() <= max_chars,
        forall|i: int|
            0 <= i < s.len() ==> {
                let c = #[trigger] s[i];
                c != '<' && c != '>' && c != '[' && c != ']' && c != '`' && !control(c) && !(0x202a
                    <= c as int <= 0x202e) && !(0x2066 <= c as int <= 0x2069)
            },
    ensures
        sanitized(s, max_chars) == trimmed(s),
{
    let kept = s.take(smaller(s.len() as int, max_chars));
    assert(kept =~= s);
    assert(cleaned(s, max_chars) =~= s) by {
        assert forall|i: int| 0 <= i < s.len() implies clean_char(#[trigger] s[i]) == s[i] by {}
    }
}

proof fn lemma_part(pre: Seq<char>, p: Seq<char>, post: Seq<char>)
    ensures
        has_part(pre + p + post, p),
{
    let s = pre + p + post;
    assert(s.subrange(pre.len() as int, (pre.len() + p.len()) as int) =~= p);
    assert(occurs_at(s, p, pre.len() as int));
}

proof fn lemma_behind(s: Seq<char>, post: Seq<char>, p: Seq<char>)
    requires
        has_part(s, p),
    ensures
        has_part(s + post, p),
{
    let i = choose|i: int| occurs_at(s, p, i);
    assert((s + post).subrange(i, i + p.len()) =~= s.subrange(i, i + p.len()));
    assert(occurs_at(s + post, p, i));
}

proof fn lemma_before(pre: Seq<char>, s: Seq<char>, p: Seq<char>)
    requires
        has_part(s, p),
    ensures
        has_part(pre + s, p),
{
    let i = choose|i: int| occurs_at(s, p, i);
    assert((pre + s).subrange(pre.len() + i, pre.len() + i + p.len()) =~= s.subrange(
        i,
        i + p.len(),
    ));
    assert(occurs_at(pre + s, p, pre.len() + i));
}

/// A field that says something is told behind its label.
pub proof fn law_fields_are_told(label: Seq<char>, value: Seq<char>, max_chars: int)
    ensures
        sanitized(value, max_chars).len() > 0 ==> has_part(
            field_text(label, value, max_chars),
            label,
        ) && has_part(field_text(label, value, max_chars), sanitized(value, max_chars)),
        sanitized(value, max_chars).len() == 0 ==> field_text(label, value, max_chars).len() == 0,
{
    let v = sanitized(value, max_chars);
    if v.len() > 0 {
        lemma_part("**"@, label, ":** "@);
        lemma_behind("**"@ + label + ":** "@, v, label);
        lemma_behind("**"@ + label + ":** "@ + v, "\n"@, label);
        lemma_part("**"@ + label + ":** "@, v, "\n"@);
    }
}

proof fn lemma_field(label: Seq<char>, value: Seq<char>, max_chars: int)
    requires
        sanitized(value, max_chars).len() > 0,
    ensures
        has_part(field_text(label, value, max_chars), sanitized(value, max_chars)),
{
    law_fields_are_told(label, value, max_chars);
}

/// Each of the first eight items of a list is told.
pub proof fn law_list_items_are_told(label: Seq<char>, values: Seq<String>, i: int)
    requires
        0 <= i < values.len(),
        i < 8,
        sanitized(values[i]@, 640).len() > 0,
    ensures
        has_part(list_text(label, values), sanitized(values[i]@, 640)),
{
    let n = told_count(values.len(), 8);
    lemma_items(values, n, i);
    let head = "**"@ + label + ":**\n"@;
    let body = items_text(values, n);
    let p = sanitized(values[i]@, 640);
    lemma_before(head, body, p);
    let more = if values.len() > 8 {
        "- ["@ + decimal((values.len() - 8) as nat) + " additional item(s) omitted]\n"@
    } else {
        Seq::empty()
    };
    lemma_behind(head + body, more, p);
}

proof fn lemma_items(values: Seq<String>, k: nat, i: int)
    requires
        0 <= i < k <= values.len(),
        sanitized(values[i]@, 640).len() > 0,
    ensures
        has_part(items_text(values, k), sanitized(values[i]@, 640)),
    decreases k,
{
    let before = items_text(values, (k - 1) as nat);
    let p = sanitized(values[i]@, 640);
    let item = sanitized(values[k - 1]@, 640);
    let line = if item.len() == 0 {
        Seq::empty()
    } else {
        "- "@ + item + "\n"@
    };
    if i < k - 1 {
        lemma_items(values, (k - 1) as nat, i);
        lemma_behind(before, line, p);
    } else {
        lemma_part("- "@, p, "\n"@);
        lemma_before(before, line, p);
    }
}

/// An experience tells its outcome and what it says of itself: its category, its task,
/// its strategy, its lesson and why it failed.
pub proof fn law_experience_tells_its_lesson(e: ExperienceSearchResult, index: nat)
    ensures
        ({
            let t = experience_text(e, index);
            &&& sanitized(e.lesson@, 1200).len() > 0 ==> has_part(t, sanitized(e.lesson@, 1200))
            &&& sanitized(e.strategy@, 1200).len() > 0 ==> has_part(
                t,
                sanitized(e.strategy@, 1200),
            )
            &&& sanitized(e.task_summary@, 640).len() > 0 ==> has_part(
                t,
                sanitized(e.task_summary@, 640),
            )
            &&& sanitized(e.category@, 128).len() > 0 ==> has_part(t, sanitized(e.category@, 128))
            &&& e.failure_reason matches Some(r) ==> (sanitized(r@, 640).len() > 0 ==> has_part(
                t,
                sanitized(r@, 640),
            ))
            &&& has_prefix(
                t,
                "\n### Experience "@ + decimal(index + 1) + " — "@ + (if e.outcome {
                    "success"@
                } else {
                    "failure"@
                }),
            )
        }),
{
    let f1 = field_text("Reference"@, "experience:"@ + sanitized(e.id@, 128), 139);
    let f2 = field_text("Category"@, e.category@, 128);
    let f3 = field_text("Task"@, e.task_summary@, 640);
    let f4 = field_text("Strategy"@, e.strategy@, 1200);
    let f5 = field_text("Lesson"@, e.lesson@, 1200);
    let f6 = match e.failure_reason {
        Some(r) => field_text("Failure reason"@, r@, 640),
        None => Seq::empty(),
    };
    let a2 = f1 + f2;
    let a3 = a2 + f3;
    let a4 = a3 + f4;
    let a5 = a4 + f5;
    assert(experience_fields(e) == a5 + f6);
    if sanitized(e.category@, 128).len() > 0 {
        let p = sanitized(e.category@, 128);
        lemma_field("Category"@, e.category@, 128);
        lemma_before(f1, f2, p);
        lemma_behind(a2, f3, p);
        lemma_behind(a3, f4, p);
        lemma_behind(a4, f5, p);
        lemma_behind(a5, f6, p);
        lemma_whole(e, index, p);
    }
    if sanitized(e.task_summary@, 640).len() > 0 {
        let p = sanitized(e.task_summary@, 640);
        lemma_field("Task"@, e.task_summary@, 640);
        lemma_before(a2, f3, p);
        lemma_behind(a3, f4, p);
        lemma_behind(a4, f5, p);
        lemma_behind(a5, f6, p);
        lemma_whole(e, index, p);
    }
    if sanitized(e.strategy@, 1200).len() > 0 {
        let p = sanitized(e.strategy@, 1200);
        lemma_field("Strategy"@, e.strategy@, 1200);
        lemma_before(a3, f4, p);
        lemma_behind(a4, f5, p);
        lemma_behind(a5, f6, p);
        lemma_whole(e, index, p);
    }
    if sanitized(e.lesson@, 1200).len() > 0 {
        let p = sanitized(e.lesson@, 1200);
        lemma_field("Lesson"@, e.lesson@, 1200);
        lemma_before(a4, f5, p);
        lemma_behind(a5, f6, p);
        lemma_whole(e, index, p);
    }
    if let Some(r) = e.failure_reason {
        let p = sanitized(r@, 640);
        if p.len() > 0 {
            lemma_field("Failure reason"@, r@, 640);
            lemma_before(a5, f6, p);
            lemma_whole(e, index, p);
        }
    }
    lemma_heading(e, index);
}

proof fn lemma_whole(e: ExperienceSearchResult, index: nat, p: Seq<char>)
    requires
        has_part(experience_fields(e), p),
    ensures
        has_part(experience_text(e, index), p),
{
    let b1 = experience_heading(e, index) + experience_fields(e);
    lemma_before(experience_heading(e, index), experience_fields(e), p);
    let r1 = references_text("Source runs"@, "run"@, e.source_run_ids@);
    let r2 = references_text("Source sessions"@, "session"@, e.source_session_ids@);
    let l1 = list_text("What worked"@, e.what_worked@);
    let l2 = list_text("What failed"@, e.what_failed@);
    let l3 = list_text("Tests run"@, e.tests_run@);
    lemma_behind(b1, r1, p);
    lemma_behind(b1 + r1, r2, p);
    lemma_behind(b1 + r1 + r2, l1, p);
    lemma_behind(b1 + r1 + r2 + l1, l2, p);
    lemma_behind(b1 + r1 + r2 + l1 + l2, l3, p);
    lemma_behind(b1 + r1 + r2 + l1 + l2 + l3, evidence_text(e.evidence@), p);
}

proof fn lemma_heading(e: ExperienceSearchResult, index: nat)
    ensures
        has_prefix(
            experience_text(e, index),
            "\n### Experience "@ + decimal(index + 1) + " — "@ + (if e.outcome {
                "success"@
            } else {
                "failure"@
            }),
        ),
{
    let p = "\n### Experience "@ + decimal(index + 1) + " — "@ + outcome_word(e.outcome);
    let h = experience_heading(e, index);
    let t = experience_text(e, index);
    assert(h.subrange(0, p.len() as int) =~= p);
    assert(t.subrange(0, h.len() as int) =~= h) by {
        assert(t.len() >= h.len());
    }
    assert(t.subrange(0, p.len() as int) =~= h.subrange(0, p.len() as int));
}

/// What worked, what failed and which tests were run are told under their own labels.
pub proof fn law_experience_tells_its_lists(e: ExperienceSearchResult, index: nat)
    ensures
        has_part(experience_text(e, index), list_text("What worked"@, e.what_worked@)),
        has_part(experience_text(e, index), list_text("What failed"@, e.what_failed@)),
        has_part(experience_text(e, index), list_text("Tests run"@, e.tests_run@)),
        has_part(experience_text(e, index), evidence_text(e.evidence@)),
        has_part(
            experience_text(e, index),
            references_text("Source runs"@, "run"@, e.source_run_ids@),
        ),
        has_part(
            experience_text(e, index),
            references_text("Source sessions"@, "session"@, e.source_session_ids@),
        ),
{
    let b = experience_heading(e, index) + experience_fields(e);
    let r1 = references_text("Source runs"@, "run"@, e.source_run_ids@);
    let r2 = references_text("Source sessions"@, "session"@, e.source_session_ids@);
    let l1 = list_text("What worked"@, e.what_worked@);
    let l2 = list_text("What failed"@, e.what_failed@);
    let l3 = list_text("Tests run"@, e.tests_run@);
    let ev = evidence_text(e.evidence@);
    let b1 = b + r1;
    let b2 = b1 + r2;
    let b3 = b2 + l1;
    let b4 = b3 + l2;
    let b5 = b4 + l3;
    lemma_part(b, r1, r2);
    lemma_behind(b2, l1, r1);
    lemma_behind(b3, l2, r1);
    lemma_behind(b4, l3, r1);
    lemma_behind(b5, ev, r1);
    lemma_part(b1, r2, l1);
    lemma_behind(b3, l2, r2);
    lemma_behind(b4, l3, r2);
    lemma_behind(b5, ev, r2);
    lemma_part(b2, l1, l2);
    lemma_behind(b4, l3, l1);
    lemma_behind(b5, ev, l1);
    lemma_part(b3, l2, l3);
    lemma_behind(b5, ev, l2);
    lemma_part(b4, l3, ev);
    lemma_part(b5, ev, Seq::empty());
    assert(b5 + ev + Seq::empty() =~= b5 + ev);
}

proof fn lemma_answer_prefix(
    results: Seq<ExperienceSearchResult>,
    index: nat,
    visible: nat,
    before: Seq<char>,
)
    ensures
        before.is_prefix_of(answer_from(results, index, visible, before)),
    decreases visible - index,
{
    if index < visible {
        let text = experience_text(results[index as int], index);
        if byte_len(before) + byte_len(text) + byte_len(TRUNCATION_NOTICE@) <= MAX_OUTPUT_BYTES {
            lemma_answer_prefix(results, (index + 1) as nat, visible, before + text);
        }
    }
}

/// The first experience is told whole where it fits; what follows is told behind it.
pub proof fn law_the_first_experience_is_told(results: Seq<ExperienceSearchResult>)
    requires
        results.len() > 0,
        ({
            let n = if results.len() < 20 {
                results.len()
            } else {
                20
            };
            byte_len(answer_head(n)) + byte_len(experience_text(results[0], 0)) + byte_len(
                TRUNCATION_NOTICE@,
            ) <= 24_576
        }),
    ensures
        has_part(answer_text(results), experience_text(results[0], 0)),
{
    let visible = told_count(results.len(), 20);
    let head = answer_head(visible);
    let text = experience_text(results[0], 0);
    lemma_answer_prefix(results, 1, visible, head + text);
    lemma_step(results, 0, visible, head);
    lemma_started(head, text, answer_from(results, 0, visible, head));
}

proof fn lemma_step(
    results: Seq<ExperienceSearchResult>,
    index: nat,
    visible: nat,
    before: Seq<char>,
)
    requires
        index < visible,
        byte_len(before) + byte_len(experience_text(results[index as int], index)) + byte_len(
            TRUNCATION_NOTICE@,
        ) <= MAX_OUTPUT_BYTES,
    ensures
        answer_from(results, index, visible, before) == answer_from(
            results,
            (index + 1) as nat,
            visible,
            before + experience_text(results[index as int], index),
        ),
{
}

proof fn lemma_started(head: Seq<char>, text: Seq<char>, all: Seq<char>)
    requires
        (head + text).is_prefix_of(all),
    ensures
        has_part(all, text),
{
    let whole = head + text;
    assert(all.subrange(0, whole.len() as int) == whole);
    assert(all.subrange(head.len() as int, whole.len() as int) =~= whole.subrange(
        head.len() as int,
        whole.len() as int,
    ));
    assert(whole.subrange(head.len() as int, whole.len() as int) =~= text);
    assert(occurs_at(all, text, head.len() as int));
}

} // verus!

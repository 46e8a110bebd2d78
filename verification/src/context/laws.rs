//! What holds of the context of a session as a whole, said of its items, its windows
//! and its notes.
use vstd::prelude::*;
#[allow(unused_imports)]
use vstd::string::*;

#[allow(unused_imports)]
use crate::context::history::{
    HistoryItem, ItemQuery, RowView, WindowFile, found, item_id, item_views, items_in,
    law_answers_are_bounded, law_searches_keep_to_the_limit, law_told_items_were_asked_for, picked,
    place, rows_fitting, text_or_empty, told, wanted,
};
#[allow(unused_imports)]
use crate::context::notes::{
    NotePair, bad_part, bad_path_char, digest_all, digest_entry, good_path,
    law_written_note_is_read_back, local_path, note_pairs, note_text, notes_bytes, with_note,
};
#[allow(unused_imports)]
use crate::context::reply::{
    ContextInput, ContextReply, FileRowView, NotesFile, ReplyView, item_row_json, item_rows_json,
    optional_text_json, reply_json,
};
#[allow(unused_imports)]
use crate::context::store::{
    ContextManagementStore, Manifest, SnapshotStep, end_line, expected_reply, file_limit,
    file_list, file_row, first_line, first_place, history_reply, item_query, match_limit,
    matching_lines, new_text, notes_reply, notes_saved, path_prefix, read_reply, recent, refusal,
    row_limit, visited, window_list, write_note,
};
#[allow(unused_imports)]
use crate::context::tools::{
    ContextTool, ItemsInput, ReadItemInput, ReadNoteInput, SearchInput, SearchNotesInput,
    WriteNoteInput,
};
#[allow(unused_imports)]
use crate::json::{json_array, json_object, json_quoted};
#[allow(unused_imports)]
use crate::text::{
    byte_len, control, decimal, has_part, has_prefix, in_list, joined, lines, occurs_at,
    option_view, sliced, split, views,
};
#[allow(unused_imports)]
use crate::tool::{ToolError};

verus! {

// ---- items ----

/// Every item that a window tells of meets the filters that were given: it has the
/// role, the tool and the id that were asked for, and its whole content holds the
/// query of a search. It is told as it stands in the window, from the asked offset on.
pub proof fn law_told_items_meet_the_filters(
    window: Seq<char>,
    items: Seq<HistoryItem>,
    q: ItemQuery,
    row: RowView,
)
    requires
        picked(window, items, q, items.len()).contains(row),
    ensures
        row.window_id == window,
        q.role matches Some(r) ==> row.role == r@,
        q.tool_name matches Some(t) ==> row.tool_name == Some(t@),
        q.item_id matches Some(id) ==> row.item_id == id@,
        exists|n: int|
            {
                &&& 0 <= n < items.len()
                &&& row.role == (#[trigger] items[n]).role@
                &&& row.tool_name == option_view(items[n].tool_name)
                &&& row.item_id == window + ":"@ + decimal(n as nat)
                &&& row.content == sliced(
                    items[n].content@,
                    q.offset_chars as int,
                    q.limit_chars as int,
                )
                &&& q.searches && q.query is Some ==> has_part(items[n].content@, q.query->0@)
            },
{
    let rows = picked(window, items, q, items.len());
    let i = choose|i: int| 0 <= i < rows.len() && rows[i] == row;
    law_told_items_were_asked_for(window, items, q, items.len(), i);
    let n = choose|n: int|
        0 <= n < items.len() && wanted((#[trigger] items[n])@, item_id(window, n as nat), q)
            && rows[i] == told(window, n as nat, items[n]@, q);
    assert(items[n]@.role == items[n].role@);
}

/// Every item of a window that meets all the filters is told.
pub proof fn law_items_that_meet_the_filters_are_told(
    window: Seq<char>,
    items: Seq<HistoryItem>,
    q: ItemQuery,
    n: int,
)
    requires
        0 <= n < items.len(),
        q.role matches Some(r) ==> r@ == items[n].role@,
        q.tool_name matches Some(t) ==> items[n].tool_name is Some && items[n].tool_name->0@ == t@,
        q.item_id matches Some(id) ==> id@ == window + ":"@ + decimal(n as nat),
        q.searches ==> q.query is Some && has_part(items[n].content@, q.query->0@),
    ensures
        picked(window, items, q, items.len()).contains(
            RowView {
                window_id: window,
                item_id: window + ":"@ + decimal(n as nat),
                role: items[n].role@,
                tool_name: option_view(items[n].tool_name),
                content: sliced(
                    items[n].content@,
                    q.offset_chars as int,
                    q.limit_chars as int,
                ),
            },
        ),
{
    let at = if q.recent_first {
        items.len() - 1 - n
    } else {
        n
    };
    lemma_picked(window, items, q, items.len(), at);
}

proof fn lemma_picked(
    window: Seq<char>,
    items: Seq<HistoryItem>,
    q: ItemQuery,
    k: nat,
    at: int,
)
    requires
        k <= items.len(),
        0 <= at < k,
        wanted(
            items[place(at, items.len() as int, q.recent_first)]@,
            item_id(window, place(at, items.len() as int, q.recent_first) as nat),
            q,
        ),
    ensures
        picked(window, items, q, k).contains(
            told(
                window,
                place(at, items.len() as int, q.recent_first) as nat,
                items[place(at, items.len() as int, q.recent_first)]@,
                q,
            ),
        ),
    decreases k,
{
    let n = place(at, items.len() as int, q.recent_first);
    let before = picked(window, items, q, (k - 1) as nat);
    let rows = picked(window, items, q, k);
    if at < k - 1 {
        lemma_picked(window, items, q, (k - 1) as nat, at);
        let i = choose|i: int|
            0 <= i < before.len() && before[i] == told(window, n as nat, items[n]@, q);
        assert(rows[i] == before[i]);
    } else {
        assert(rows[before.len() as int] == told(window, n as nat, items[n]@, q));
    }
}

/// Without filters all items are told, the newest first where that was asked for, and
/// else in order.
pub proof fn law_items_are_told_in_order(
    window: Seq<char>,
    items: Seq<HistoryItem>,
    q: ItemQuery,
    k: nat,
)
    requires
        q.item_id is None,
        q.role is None,
        q.tool_name is None,
        !q.searches,
        k <= items.len(),
    ensures
        picked(window, items, q, k).len() == k,
        forall|i: int|
            0 <= i < k ==> (#[trigger] picked(window, items, q, k)[i]).item_id == window + ":"@
                + decimal(
                if q.recent_first {
                    (items.len() - 1 - i) as nat
                } else {
                    i as nat
                },
            ),
    decreases k,
{
    if k > 0 {
        law_items_are_told_in_order(window, items, q, (k - 1) as nat);
        let before = picked(window, items, q, (k - 1) as nat);
        assert forall|i: int| 0 <= i < k implies (#[trigger] picked(window, items, q, k)[i]).item_id
            == window + ":"@ + decimal(
            if q.recent_first {
                (items.len() - 1 - i) as nat
            } else {
                i as nat
            },
        ) by {
            if i < k - 1 {
                assert(picked(window, items, q, k)[i] == before[i]);
            }
        }
    }
}

/// A search tells items of the windows that it visits and no others, and where it tells
/// fewer than it may, it tells all that those windows give. It fails only where a
/// window that it visits cannot be read.
pub proof fn law_searches_visit_their_windows(
    windows: Seq<String>,
    files: Seq<WindowFile>,
    places: Seq<usize>,
    q: ItemQuery,
)
    requires
        q.limit > 0,
    ensures
        match found(windows, files, places, q, 0, Seq::empty()) {
            Ok(rows) => {
                &&& rows.len() <= q.limit
                &&& forall|row: RowView| #[trigger]
                    rows.contains(row) ==> exists|j: int|
                        {
                            let w = (#[trigger] places[j]) as int;
                            0 <= j < places.len() && picked(
                                windows[w]@,
                                items_in(files[w]),
                                q,
                                items_in(files[w]).len(),
                            ).contains(row)
                        }
                &&& rows.len() < q.limit ==> forall|j: int, row: RowView|
                    0 <= j < places.len() && #[trigger] picked(
                        windows[#[trigger] places[j] as int]@,
                        items_in(files[places[j] as int]),
                        q,
                        items_in(files[places[j] as int]).len(),
                    ).contains(row) ==> rows.contains(row)
            },
            Err(e) => exists|j: int|
                0 <= j < places.len() && (files[(#[trigger] places[j]) as int]
                    matches WindowFile::Broken(reason) && reason@ == e),
        },
{
    law_searches_keep_to_the_limit(windows, files, places, q);
    lemma_found(windows, files, places, q, 0, Seq::empty());
}

proof fn lemma_found(
    windows: Seq<String>,
    files: Seq<WindowFile>,
    places: Seq<usize>,
    q: ItemQuery,
    from: nat,
    before: Seq<RowView>,
)
    requires
        before.len() < q.limit,
    ensures
        match found(windows, files, places, q, from, before) {
            Ok(rows) => {
                &&& forall|row: RowView| #[trigger]
                    rows.contains(row) ==> before.contains(row) || exists|j: int|
                        {
                            let w = (#[trigger] places[j]) as int;
                            from <= j < places.len() && picked(
                                windows[w]@,
                                items_in(files[w]),
                                q,
                                items_in(files[w]).len(),
                            ).contains(row)
                        }
                &&& rows.len() < q.limit ==> forall|row: RowView| #[trigger]
                    before.contains(row) ==> rows.contains(row)
                &&& rows.len() < q.limit ==> forall|j: int, row: RowView|
                    from <= j < places.len() && #[trigger] picked(
                        windows[#[trigger] places[j] as int]@,
                        items_in(files[places[j] as int]),
                        q,
                        items_in(files[places[j] as int]).len(),
                    ).contains(row) ==> rows.contains(row)
            },
            Err(e) => exists|j: int|
                from <= j < places.len() && (files[(#[trigger] places[j]) as int]
                    matches WindowFile::Broken(reason) && reason@ == e),
        },
    decreases places.len() - from,
{
    if from < places.len() {
        let w = places[from as int] as int;
        match files[w] {
            WindowFile::Broken(e) => {
                assert(files[places[from as int] as int] is Broken);
            },
            file => {
                let items = items_in(file);
                let own = picked(windows[w]@, items, q, items.len());
                let all = before + own;
                assert forall|row: RowView| #[trigger] all.contains(row) implies before.contains(
                    row,
                ) || own.contains(row) by {
                    let i = choose|i: int| 0 <= i < all.len() && all[i] == row;
                    if i < before.len() {
                        assert(before[i] == row);
                    } else {
                        assert(own[i - before.len()] == row);
                    }
                }
                assert forall|row: RowView|
                    before.contains(row) || own.contains(row) implies #[trigger] all.contains(
                    row,
                ) by {
                    if before.contains(row) {
                        let i = choose|i: int| 0 <= i < before.len() && before[i] == row;
                        assert(all[i] == row);
                    } else {
                        let i = choose|i: int| 0 <= i < own.len() && own[i] == row;
                        assert(all[before.len() + i] == row);
                    }
                }
                if all.len() >= q.limit {
                    let rows = all.take(q.limit as int);
                    assert forall|row: RowView| #[trigger] rows.contains(row) implies
                        before.contains(row) || exists|j: int|
                        {
                            let v = (#[trigger] places[j]) as int;
                            from <= j < places.len() && picked(
                                windows[v]@,
                                items_in(files[v]),
                                q,
                                items_in(files[v]).len(),
                            ).contains(row)
                        } by {
                        let i = choose|i: int| 0 <= i < rows.len() && rows[i] == row;
                        assert(all[i] == row);
                        assert(all.contains(row));
                        assert(places[from as int] as int == w);
                    }
                } else {
                    lemma_found(windows, files, places, q, from + 1, all);
                    if let Ok(rows) = found(windows, files, places, q, from, before) {
                        assert forall|row: RowView| #[trigger] rows.contains(row) implies
                            before.contains(row) || exists|j: int|
                            {
                                let v = (#[trigger] places[j]) as int;
                                from <= j < places.len() && picked(
                                    windows[v]@,
                                    items_in(files[v]),
                                    q,
                                    items_in(files[v]).len(),
                                ).contains(row)
                            } by {
                            if all.contains(row) {
                                assert(places[from as int] as int == w);
                            }
                        }
                        if rows.len() < q.limit {
                            assert forall|row: RowView| #[trigger] before.contains(row) implies
                                rows.contains(row) by {
                                assert(all.contains(row));
                            }
                            assert forall|j: int, row: RowView|
                                from <= j < places.len() && #[trigger] picked(
                                    windows[#[trigger] places[j] as int]@,
                                    items_in(files[places[j] as int]),
                                    q,
                                    items_in(files[places[j] as int]).len(),
                                ).contains(row) implies rows.contains(row) by {
                                if j == from {
                                    assert(own.contains(row));
                                    assert(all.contains(row));
                                }
                            }
                        }
                    }
                }
            },
        }
    }
}

/// What the history answers meets the request: every item has the role and the tool
/// that were asked for and is the one whose id was named, at most a hundred of them,
/// and of one window where that was named.
pub proof fn law_history_answers_the_request(
    manifest: Manifest,
    files: Seq<WindowFile>,
    operation: Seq<char>,
    input: ContextInput,
    row: RowView,
)
    requires
        files.len() == manifest.windows@.len(),
        history_reply(manifest, files, operation, input) matches Ok(ReplyView::Items { rows, .. })
            && rows.contains(row),
    ensures
        input.role matches Some(r) ==> row.role == r@,
        input.tool_name matches Some(t) ==> row.tool_name == Some(t@),
        input.item_id matches Some(id) ==> row.item_id == id@,
        input.window_id matches Some(w) ==> row.window_id == w@,
        exists|w: int, n: int|
            {
                &&& 0 <= w < files.len()
                &&& files[w] is Items
                &&& 0 <= n < files[w]->Items_0@.len()
                &&& row.window_id == (#[trigger] manifest.windows@[w])@
                &&& row.role == (#[trigger] files[w]->Items_0@[n]).role@
                &&& operation == "history_search_contents"@ && input.query is Some ==> has_part(
                    files[w]->Items_0@[n].content@,
                    input.query->0@,
                )
            },
{
    let q = item_query(operation, input);
    let places = visited(manifest.windows@, input.window_id, recent(input));
    let all = found(manifest.windows@, files, places, q, 0, Seq::empty())->Ok_0;
    law_searches_visit_their_windows(manifest.windows@, files, places, q);
    let fit = rows_fitting(item_rows_json(all), 0, 0);
    let rows = all.take(fit as int);
    let i = choose|i: int| 0 <= i < rows.len() && rows[i] == row;
    law_answers_are_bounded(item_rows_json(all));
    assert(item_rows_json(all).len() == all.len());
    assert(all[i] == row);
    assert(all.contains(row));
    let j = choose|j: int|
        {
            let w = (#[trigger] places[j]) as int;
            0 <= j < places.len() && picked(
                manifest.windows@[w]@,
                items_in(files[w]),
                q,
                items_in(files[w]).len(),
            ).contains(row)
        };
    let w = places[j] as int;
    assert(manifest.windows.len() <= usize::MAX);
    lemma_visited(manifest.windows@, input.window_id, recent(input), j);
    let items = items_in(files[w]);
    law_told_items_meet_the_filters(manifest.windows@[w]@, items, q, row);
    let n = choose|n: int|
        {
            &&& 0 <= n < items.len()
            &&& row.role == (#[trigger] items[n]).role@
            &&& row.tool_name == option_view(items[n].tool_name)
            &&& row.item_id == manifest.windows@[w]@ + ":"@ + decimal(n as nat)
            &&& row.content == sliced(
                items[n].content@,
                q.offset_chars as int,
                q.limit_chars as int,
            )
            &&& q.searches && q.query is Some ==> has_part(items[n].content@, q.query->0@)
        };
    assert(files[w] is Items);
    assert(files[w]->Items_0@[n].role@ == row.role);
}

proof fn lemma_visited(
    windows: Seq<String>,
    window_id: Option<String>,
    recent_first: bool,
    j: int,
)
    requires
        windows.len() <= usize::MAX,
        window_id matches Some(id) ==> in_list(windows, id@),
        0 <= j < visited(windows, window_id, recent_first).len(),
    ensures
        visited(windows, window_id, recent_first)[j] < windows.len(),
        window_id matches Some(id) ==> windows[visited(
            windows,
            window_id,
            recent_first,
        )[j] as int]@ == id@,
{
    if let Some(id) = window_id {
        lemma_first_place(windows, id@);
    }
}

proof fn lemma_first_place(s: Seq<String>, t: Seq<char>)
    requires
        in_list(s, t),
    ensures
        first_place(s, t) < s.len(),
        s[first_place(s, t) as int]@ == t,
        forall|i: int| 0 <= i < first_place(s, t) ==> (#[trigger] s[i])@ != t,
    decreases s.len(),
{
    if s[0]@ != t {
        let i = choose|i: int| 0 <= i < s.len() && (#[trigger] s[i])@ == t;
        let rest = s.drop_first();
        assert(rest[i - 1]@ == t);
        lemma_first_place(rest, t);
        assert forall|j: int| 1 <= j < s.len() implies #[trigger] s[j] == rest[j - 1] by {}
    }
}

/// A history without a named window is read window by window, the newest first unless
/// the request says otherwise.
pub proof fn law_windows_are_visited_in_order(windows: Seq<String>, input: ContextInput)
    requires
        input.window_id is None,
        windows.len() <= usize::MAX,
    ensures
        ({
            let places = visited(windows, input.window_id, recent(input));
            &&& places.len() == windows.len()
            &&& forall|k: int|
                0 <= k < windows.len() ==> (#[trigger] places[k]) == (if input.recent_first == Some(
                    false,
                ) {
                    k
                } else {
                    windows.len() - 1 - k
                })
        }),
{
}

/// How much is told: twenty rows unless the request says otherwise, from one to a
/// hundred; and of each item two thousand characters unless it says otherwise, from one
/// to eight thousand.
pub proof fn law_answers_keep_to_their_limits(operation: Seq<char>, input: ContextInput)
    ensures
        row_limit(input) == (match input.limit {
            None => 20,
            Some(n) => if n < 1 {
                1
            } else if n > 100 {
                100
            } else {
                n as int
            },
        }),
        ({
            let q = item_query(operation, input);
            let asked = match (input.limit_chars, input.max_chars_per_item) {
                (Some(n), _) => n,
                (None, Some(n)) => n,
                (None, None) => 2000,
            };
            &&& q.limit_chars == (if asked < 1 {
                1
            } else if asked > 8000 {
                8000
            } else {
                asked as int
            })
            &&& q.limit == row_limit(input)
            &&& q.offset_chars == (match input.offset_chars {
                Some(n) => n,
                None => 0,
            })
            &&& q.role == input.role
            &&& q.tool_name == input.tool_name
            &&& q.item_id == input.item_id
            &&& q.query == input.query
            &&& q.searches <==> operation == "history_search_contents"@
            &&& q.recent_first <==> input.recent_first != Some(false)
        }),
{
}

/// The list of windows tells of each its id, how many items it has and whether it is the
/// current one, the newest first unless the request says otherwise.
pub proof fn law_windows_are_listed(
    manifest: Manifest,
    files: Seq<WindowFile>,
    input: ContextInput,
    k: int,
)
    requires
        files.len() == manifest.windows@.len(),
        0 <= k < window_list(manifest, files, input).len(),
    ensures
        ({
            let n = manifest.windows@.len() as int;
            let w = if input.recent_first == Some(false) {
                k
            } else {
                n - 1 - k
            };
            let row = window_list(manifest, files, input)[k];
            &&& 0 <= w < n
            &&& row.window_id == manifest.windows@[w]@
            &&& row.current <==> manifest.windows@[w]@ == manifest.current@
            &&& row.item_count == (match files[w] {
                WindowFile::Items(items) => items@.len(),
                _ => 0,
            })
            &&& window_list(manifest, files, input).len() == (if row_limit(input) < n {
                row_limit(input) as int
            } else {
                n
            })
        }),
{
}

// ---- who may ask ----

/// A store that is not enabled answers nothing, nor does one that is asked for another
/// agent; else the operation decides.
pub proof fn law_only_the_own_session_is_answered(
    store: ContextManagementStore,
    operation: Seq<char>,
    input: ContextInput,
    files: Seq<WindowFile>,
    notes: NotesFile,
)
    ensures
        refusal(store, input) is None <==> store.enabled && (input.agent_name is None
            || input.agent_name->0@ == "root"@ || input.agent_name->0@ == "/root"@),
        refusal(store, input) is Some ==> expected_reply(store, operation, input, files, notes)
            is Err,
        refusal(store, input) is None && operation == "get_context_remaining"@ ==> expected_reply(
            store,
            operation,
            input,
            files,
            notes,
        ) == Ok::<ReplyView, Seq<char>>(ReplyView::Remaining(store.remaining)),
        refusal(store, input) is None && operation == "new_context"@ ==> expected_reply(
            store,
            operation,
            input,
            files,
            notes,
        ) == Ok::<ReplyView, Seq<char>>(ReplyView::Accepted),
        refusal(store, input) is None && operation == "history_list_windows"@ ==> expected_reply(
            store,
            operation,
            input,
            files,
            notes,
        ) == Ok::<ReplyView, Seq<char>>(
            ReplyView::Windows(window_list(store.manifest, files, input)),
        ),
        refusal(store, input) is None && (operation == "history_list_items"@ || operation
            == "history_search_contents"@ || operation == "history_read_item"@) ==> expected_reply(
            store,
            operation,
            input,
            files,
            notes,
        ) == history_reply(store.manifest, files, operation, input),
{
    reveal_strlit("get_context_remaining");
    reveal_strlit("new_context");
    reveal_strlit("history_list_windows");
    reveal_strlit("history_list_items");
    reveal_strlit("history_search_contents");
    reveal_strlit("history_read_item");
    assert("get_context_remaining"@.len() == 21 && "new_context"@.len() == 11
        && "history_list_windows"@.len() == 20 && "history_list_items"@.len() == 18
        && "history_search_contents"@.len() == 23 && "history_read_item"@.len() == 17);
}

// ---- notes ----

/// A note is written exactly where its path and its text are given, the path is a good
/// one, and neither the note nor all notes together grow too large.
pub proof fn law_notes_are_written_within_limits(
    appends: bool,
    notes: Seq<NotePair>,
    input: ContextInput,
)
    ensures
        write_note(appends, notes, input) is Ok <==> {
            &&& input.path is Some
            &&& good_path(local_path(input.path->0@))
            &&& input.text is Some
            &&& ({
                let path = local_path(input.path->0@);
                let old_text = note_text(notes, path);
                let text = if appends && old_text is Some {
                    old_text->0 + input.text->0@
                } else {
                    input.text->0@
                };
                byte_len(text) <= 1_000_000 && notes_bytes(with_note(notes, path, text))
                    <= 16_000_000
            })
        },
        write_note(appends, notes, input) matches Ok(after) ==> {
            let path = local_path(input.path->0@);
            &&& !appends ==> note_text(after, path) == Some(input.text->0@)
            &&& appends && note_text(notes, path) is None ==> note_text(after, path) == Some(
                input.text->0@,
            )
            &&& appends && note_text(notes, path) is Some ==> note_text(after, path) == Some(
                note_text(notes, path)->0 + input.text->0@,
            )
        },
{
    if input.path is Some && input.text is Some {
        let path = local_path(input.path->0@);
        let text = new_text(appends, notes, path, input.text->0@);
        if appends && note_text(notes, path) is None {
            assert(""@ + input.text->0@ =~= input.text->0@) by {
                reveal_strlit("");
            }
        }
        law_written_note_is_read_back(notes, path, text, path);
    }
}

/// A note is found under its path: what is given back stands in some note with the
/// path, the first, and where nothing is given back no note has it.
pub proof fn law_notes_are_found_by_path(s: Seq<NotePair>, path: Seq<char>)
    ensures
        match note_text(s, path) {
            Some(t) => exists|i: int|
                0 <= i < s.len() && (#[trigger] s[i]).0 == path && s[i].1 == t && forall|j: int|
                    0 <= j < i ==> (#[trigger] s[j]).0 != path,
            None => forall|j: int| 0 <= j < s.len() ==> (#[trigger] s[j]).0 != path,
        },
    decreases s.len(),
{
    if s.len() > 0 {
        if s[0].0 == path {
            assert(s[0].1 == note_text(s, path)->0);
        } else {
            let t = s.drop_first();
            law_notes_are_found_by_path(t, path);
            assert forall|j: int| 1 <= j < s.len() implies #[trigger] s[j] == t[j - 1] by {}
            if note_text(t, path) is Some {
                let i = choose|i: int|
                    0 <= i < t.len() && (#[trigger] t[i]).0 == path && t[i].1 == note_text(
                        t,
                        path,
                    )->0 && forall|j: int| 0 <= j < i ==> (#[trigger] t[j]).0 != path;
                assert(s[i + 1] == t[i]);
                assert forall|j: int| 0 <= j < i + 1 implies (#[trigger] s[j]).0 != path by {
                    if j > 0 {
                        assert(s[j] == t[j - 1]);
                    }
                }
            }
        }
    }
}

/// The path of a note is what stands behind the directory of the notes, or the path
/// itself; a good one is relative, short, and without parts that lead elsewhere.
pub proof fn law_good_paths_are_relative(path: Seq<char>)
    ensures
        has_prefix(path, "/root/notes/"@) ==> "/root/notes/"@ + local_path(path) == path,
        !has_prefix(path, "/root/notes/"@) ==> local_path(path) == path,
        good_path(path) <==> {
            &&& path.len() > 0
            &&& byte_len(path) <= 512
            &&& forall|i: int|
                0 <= i < path.len() ==> (#[trigger] path[i]) != '\\' && path[i] != ':' && !control(
                    path[i],
                )
            &&& forall|i: int|
                0 <= i < split(path, '/').len() ==> (#[trigger] split(path, '/')[i]) != ""@ && split(
                    path,
                    '/',
                )[i] != "."@ && split(path, '/')[i] != ".."@
        },
{
    if has_prefix(path, "/root/notes/"@) {
        assert("/root/notes/"@ + local_path(path) =~= path);
    }
    if good_path(path) {
        assert forall|i: int| 0 <= i < path.len() implies (#[trigger] path[i]) != '\\' && path[i]
            != ':' && !control(path[i]) by {
            assert(!bad_path_char(path[i]));
        }
        assert forall|i: int| 0 <= i < split(path, '/').len() implies (
        #[trigger] split(path, '/')[i]) != ""@ && split(path, '/')[i] != "."@ && split(path, '/')[i]
            != ".."@ by {
            assert(!bad_part(split(path, '/')[i]));
        }
    }
}

/// Which lines of a note are read: from the first line asked for through the last,
/// counted from one, or from the end where the number is negative; without numbers all
/// of them.
pub proof fn law_lines_are_counted_from_one(input: ContextInput, total: int)
    requires
        0 <= total <= usize::MAX,
    ensures
        input.start_line is None ==> first_line(input, total) == 0,
        input.stop_line is None ==> end_line(input, total) == total,
        input.start_line matches Some(n) ==> {
            &&& 1 <= n <= total ==> first_line(input, total) == n - 1
            &&& -total <= n < 0 ==> first_line(input, total) == total + n
            &&& n > total ==> first_line(input, total) == total
        },
        input.start_line is None ==> (input.stop_line matches Some(n) ==> {
            &&& 1 <= n <= total ==> end_line(input, total) == n
            &&& -total <= n < 0 ==> end_line(input, total) == total + n + 1
        }),
        0 <= first_line(input, total) <= end_line(input, total) <= total,
{
}

/// Reading a note gives its own text: the lines asked for, joined again, with their
/// first number and how many lines there are.
pub proof fn law_notes_are_read_by_lines(notes: Seq<NotePair>, input: ContextInput)
    ensures
        read_reply(notes, input) is Ok <==> input.path is Some && good_path(
            local_path(input.path->0@),
        ) && note_text(notes, local_path(input.path->0@)) is Some,
        read_reply(notes, input) matches Ok(r) ==> (r matches ReplyView::Text {
            path,
            text,
            start_line,
            total_lines,
        } && {
            let ls = lines(note_text(notes, local_path(input.path->0@))->0);
            let all = joined(
                ls.subrange(
                    first_line(input, ls.len() as int),
                    end_line(input, ls.len() as int),
                ),
                "\n"@,
            );
            &&& path == local_path(input.path->0@)
            &&& total_lines == ls.len()
            &&& input.offset_chars is None && input.limit_chars is None && all.len() <= 8000
                ==> text == all
        }),
{
    if read_reply(notes, input) is Ok {
        let ls = lines(note_text(notes, local_path(input.path->0@))->0);
        let all = joined(
            ls.subrange(first_line(input, ls.len() as int), end_line(input, ls.len() as int)),
            "\n"@,
        );
        if all.len() <= 8000 {
            assert(sliced(all, 0, 8000) =~= all);
        }
    }
}

/// A search of a note gives the lines that hold the query, by number and in order, as
/// many as it may.
pub proof fn law_matching_lines_hold_the_query(
    ls: Seq<Seq<char>>,
    query: Seq<char>,
    limit: int,
    k: nat,
)
    requires
        k <= ls.len(),
        limit >= 0,
    ensures
        ({
            let ms = matching_lines(ls, query, limit, k);
            &&& ms.len() <= limit
            &&& forall|i: int|
                0 <= i < ms.len() ==> {
                    let m = #[trigger] ms[i];
                    &&& 1 <= m.0 <= k
                    &&& has_part(ls[m.0 - 1], query)
                    &&& m.1 == sliced(ls[m.0 - 1], 0, 500)
                }
            &&& forall|i: int, j: int|
                0 <= i < j < ms.len() ==> (#[trigger] ms[i]).0 < (#[trigger] ms[j]).0
            &&& ms.len() < limit ==> forall|n: int|
                0 <= n < k && has_part(#[trigger] ls[n], query) ==> exists|i: int|
                    0 <= i < ms.len() && (#[trigger] ms[i]).0 == n + 1
        }),
    decreases k,
{
    if k > 0 {
        law_matching_lines_hold_the_query(ls, query, limit, (k - 1) as nat);
        let before = matching_lines(ls, query, limit, (k - 1) as nat);
        let ms = matching_lines(ls, query, limit, k);
        assert forall|i: int| 0 <= i < before.len() implies #[trigger] ms[i] == before[i] by {}
        if ms.len() < limit {
            assert forall|n: int| 0 <= n < k && has_part(#[trigger] ls[n], query) implies exists|
                i: int,
            | 0 <= i < ms.len() && (#[trigger] ms[i]).0 == n + 1 by {
                if n < k - 1 {
                    let i = choose|i: int|
                        0 <= i < before.len() && (#[trigger] before[i]).0 == n + 1;
                    assert(ms[i].0 == n + 1);
                } else {
                    assert(ms[before.len() as int].0 == n + 1);
                }
            }
        }
    }
}

/// What a listing tells of a note: every note below the prefix, with its path and its
/// size; a search tells of those that have a matching line, and of no other.
pub proof fn law_files_are_told_below_the_prefix(n: NotePair, lists: bool, input: ContextInput)
    ensures
        file_row(n, lists, input) is Some ==> has_prefix(n.0, path_prefix(input)),
        lists && has_prefix(n.0, path_prefix(input)) ==> file_row(n, lists, input) == Some(
            FileRowView::Listed { path: n.0, bytes: byte_len(n.1) },
        ),
        !lists ==> (file_row(n, lists, input) matches Some(row) ==> (row
            matches FileRowView::Matched { path, matches } && path == n.0 && matches.len() > 0)),
        !lists && has_prefix(n.0, path_prefix(input)) && (exists|i: int|
            0 <= i < lines(n.1).len() && has_part(
                #[trigger] lines(n.1)[i],
                text_or_empty(input.query),
            )) ==> file_row(n, lists, input) is Some,
{
    let ls = lines(n.1);
    law_matching_lines_hold_the_query(
        ls,
        text_or_empty(input.query),
        match_limit(input),
        ls.len(),
    );
}

/// The notes that are told are told in their order, as many as may be; fewer than that
/// means all that fit.
pub proof fn law_all_fitting_files_are_told(
    notes: Seq<NotePair>,
    lists: bool,
    input: ContextInput,
    k: nat,
)
    requires
        k <= notes.len(),
    ensures
        ({
            let rows = file_list(notes, lists, input, k);
            &&& rows.len() <= 100
            &&& forall|row: FileRowView| #[trigger]
                rows.contains(row) ==> exists|i: int|
                    0 <= i < k && file_row(#[trigger] notes[i], lists, input) == Some(row)
            &&& rows.len() < file_limit(input) ==> forall|i: int|
                0 <= i < k ==> (file_row(#[trigger] notes[i], lists, input) matches Some(row)
                    ==> rows.contains(row))
        }),
    decreases k,
{
    if k > 0 {
        law_all_fitting_files_are_told(notes, lists, input, (k - 1) as nat);
        let before = file_list(notes, lists, input, (k - 1) as nat);
        let rows = file_list(notes, lists, input, k);
        assert forall|row: FileRowView| #[trigger] rows.contains(row) implies exists|i: int|
            0 <= i < k && file_row(#[trigger] notes[i], lists, input) == Some(row) by {
            let i = choose|i: int| 0 <= i < rows.len() && rows[i] == row;
            if i < before.len() {
                assert(before[i] == row);
                assert(before.contains(row));
            } else {
                assert(file_row(notes[k - 1], lists, input) == Some(row));
            }
        }
        if rows.len() < file_limit(input) {
            assert forall|i: int| 0 <= i < k implies (file_row(
                #[trigger] notes[i],
                lists,
                input,
            ) matches Some(row) ==> rows.contains(row)) by {
                if let Some(row) = file_row(notes[i], lists, input) {
                    if i < k - 1 {
                        assert(before.contains(row));
                        let m = choose|m: int| 0 <= m < before.len() && before[m] == row;
                        assert(rows[m] == row);
                    } else {
                        assert(rows[before.len() as int] == row);
                    }
                }
            }
        }
    }
}

/// How many files and matches are told: twenty files and ten matches of each unless the
/// request says otherwise.
pub proof fn law_file_limits(input: ContextInput)
    ensures
        input.max_results is None && input.max_files is None ==> file_limit(input) == 20,
        input.max_results matches Some(n) ==> (1 <= n <= 100 ==> file_limit(input) == n),
        1 <= file_limit(input) <= 100,
        input.max_matches_per_file is None ==> match_limit(input) == 10,
        input.max_matches_per_file matches Some(n) ==> (1 <= n <= 20 ==> match_limit(input) == n),
        1 <= match_limit(input) <= 20,
        input.prefix is None && input.path_prefix is None ==> path_prefix(input).len() == 0,
{
    reveal_strlit("");
    reveal_strlit("/root/notes/");
}

/// A digest tells every note, its path and its text, as far as there is room.
pub proof fn law_digests_tell_every_note(s: Seq<NotePair>, i: int)
    requires
        0 <= i < s.len(),
    ensures
        has_part(digest_all(s), s[i].0),
        has_part(digest_all(s), s[i].1),
    decreases s.len(),
{
    let before = digest_all(s.drop_last());
    let entry = digest_entry(s.last());
    let all = digest_all(s);
    if i < s.len() - 1 {
        law_digests_tell_every_note(s.drop_last(), i);
        let a = choose|a: int| occurs_at(before, s[i].0, a);
        assert(all.subrange(a, a + s[i].0.len()) =~= before.subrange(a, a + s[i].0.len()));
        assert(occurs_at(all, s[i].0, a));
        let b = choose|b: int| occurs_at(before, s[i].1, b);
        assert(all.subrange(b, b + s[i].1.len()) =~= before.subrange(b, b + s[i].1.len()));
        assert(occurs_at(all, s[i].1, b));
    } else {
        let a = before.len() + "\n["@.len();
        assert(all.subrange(a as int, (a + s[i].0.len()) as int) =~= s[i].0);
        assert(occurs_at(all, s[i].0, a as int));
        let b = a + s[i].0.len() + "]\n"@.len();
        assert(all.subrange(b as int, (b + s[i].1.len()) as int) =~= s[i].1);
        assert(occurs_at(all, s[i].1, b as int));
    }
}

// ---- the archive ----

/// A snapshot of a turn keeps what is archived: the same items change nothing, more
/// items go on in the same window, and items that part from those before open a new
/// window behind all others.
pub proof fn law_snapshots_go_on_or_open_a_window(
    store: ContextManagementStore,
    items: Seq<HistoryItem>,
    archived: Vec<HistoryItem>,
    id: Seq<char>,
    r: Result<SnapshotStep, String>,
)
    requires
        store.snapshot_post(store.generation, items, WindowFile::Items(archived), id, r),
    ensures
        r is Ok,
        r->Ok_0 is Unchanged <==> item_views(archived@) == item_views(items),
        r->Ok_0 matches SnapshotStep::Write { path } ==> {
            &&& path@ == "windows/"@ + store.manifest.current@ + ".json"@
            &&& archived@.len() <= items.len()
            &&& forall|i: int|
                0 <= i < archived@.len() ==> (#[trigger] archived@[i]).content@ == items[i].content@
                    && archived@[i].role@ == items[i].role@
        },
        r->Ok_0 matches SnapshotStep::Rotate { next, path } ==> {
            &&& path@ == "windows/"@ + id + ".json"@
            &&& next.current@ == id
            &&& next.windows@.len() == store.manifest.windows@.len() + 1
            &&& next.windows@.last()@ == id
            &&& !(item_views(archived@).is_prefix_of(item_views(items)))
        },
{
    let before = item_views(archived@);
    let now = item_views(items);
    if r matches Ok(SnapshotStep::Write { path: _ }) {
        assert forall|i: int| 0 <= i < archived@.len() implies (#[trigger] archived@[i]).content@
            == items[i].content@ && archived@[i].role@ == items[i].role@ by {
            assert(before[i] == now[i]);
            assert(before[i] == archived@[i]@);
            assert(now[i] == items[i]@);
        }
    }
    if let Ok(SnapshotStep::Rotate { next, path }) = r {
        let ws = views(next.windows@);
        assert(ws.len() == next.windows@.len());
        assert(ws.last() == next.windows@.last()@);
        assert(views(store.manifest.windows@).len() == store.manifest.windows@.len());
        if before.is_prefix_of(now) {
            assert(before != now);
        }
    }
}

// ---- what tools ask and tell ----

/// What a tool is asked goes to the store as it was asked: the window, the filters, the
/// query and the limits of a call are those of the request.
pub proof fn law_list_calls_are_passed_on(input: ItemsInput, r: ContextInput)
    requires
        call_ensures(ItemsInput::into_context, (input,), r),
    ensures
        r.window_id == input.window_id,
        r.role == input.role,
        r.tool_name == input.tool_name,
        r.limit == input.limit,
        r.recent_first == input.recent_first,
        r.max_chars_per_item == input.max_chars_per_item,
        r.item_id is None,
        r.query is None,
        r.agent_name is None,
{
}

/// The same for a search of the history.
pub proof fn law_search_calls_are_passed_on(input: SearchInput, r: ContextInput)
    requires
        call_ensures(SearchInput::into_context, (input,), r),
    ensures
        r.query == Some(input.query),
        r.window_id == input.window_id,
        r.role == input.role,
        r.tool_name == input.tool_name,
        r.limit == input.limit,
        r.recent_first == input.recent_first,
        r.max_chars_per_item == input.max_chars_per_item,
        r.item_id is None,
{
}

/// The same for reading one item.
pub proof fn law_read_calls_are_passed_on(input: ReadItemInput, r: ContextInput)
    requires
        call_ensures(ReadItemInput::into_context, (input,), r),
    ensures
        r.window_id == Some(input.window_id),
        r.item_id == Some(input.item_id),
        r.offset_chars == input.offset_chars,
        r.limit_chars == input.limit_chars,
        r.role is None,
        r.tool_name is None,
{
}

/// The same for writing a note.
pub proof fn law_write_calls_are_passed_on(input: WriteNoteInput, r: ContextInput)
    requires
        call_ensures(WriteNoteInput::into_context, (input,), r),
    ensures
        r.path == Some(input.path),
        r.text == Some(input.text),
{
}

/// The same for reading a note.
pub proof fn law_note_calls_are_passed_on(input: ReadNoteInput, r: ContextInput)
    requires
        call_ensures(ReadNoteInput::into_context, (input,), r),
    ensures
        r.path == Some(input.path),
        r.start_line == input.start_line,
        r.stop_line == input.stop_line,
        r.offset_chars == input.offset_chars,
        r.limit_chars == input.limit_chars,
{
}

/// The same for a search of the notes.
pub proof fn law_note_searches_are_passed_on(input: SearchNotesInput, r: ContextInput)
    requires
        call_ensures(SearchNotesInput::into_context, (input,), r),
    ensures
        r.query == Some(input.query),
        r.path_prefix == input.path_prefix,
        r.max_files == input.max_files,
        r.max_matches_per_file == input.max_matches_per_file,
        r.prefix is None,
{
}

/// An item is told under the names of its fields, each with its own value.
pub proof fn law_items_are_told_by_field(r: RowView)
    ensures
        exists|fields: Seq<(Seq<char>, Seq<char>)>|
            {
                &&& item_row_json(r) == #[trigger] json_object(fields)
                &&& fields.contains(("window_id"@, json_quoted(r.window_id)))
                &&& fields.contains(("item_id"@, json_quoted(r.item_id)))
                &&& fields.contains(("role"@, json_quoted(r.role)))
                &&& fields.contains(("content"@, json_quoted(r.content)))
                &&& r.tool_name is Some ==> fields.contains(
                    ("tool_name"@, json_quoted(r.tool_name->0)),
                )
                &&& r.tool_name is None ==> fields.contains(("tool_name"@, "null"@))
            },
{
    let fields = seq![
        ("window_id"@, json_quoted(r.window_id)),
        ("item_id"@, json_quoted(r.item_id)),
        ("role"@, json_quoted(r.role)),
        ("tool_name"@, optional_text_json(r.tool_name)),
        ("content"@, json_quoted(r.content)),
    ];
    assert(fields[0] == ("window_id"@, json_quoted(r.window_id)));
    assert(fields[1] == ("item_id"@, json_quoted(r.item_id)));
    assert(fields[2] == ("role"@, json_quoted(r.role)));
    assert(fields[3] == ("tool_name"@, optional_text_json(r.tool_name)));
    assert(fields[4] == ("content"@, json_quoted(r.content)));
    assert(item_row_json(r) == json_object(fields));
}

/// The answer to an operation is told under its own names.
pub proof fn law_answers_are_told_by_field(
    path: Seq<char>,
    text: Seq<char>,
    start_line: int,
    total_lines: nat,
    rows: Seq<RowView>,
    truncated: bool,
    left: u64,
)
    ensures
        reply_json(ReplyView::Remaining(left)) == json_object(
            seq![("tokens_left"@, decimal(left as nat))],
        ),
        reply_json(ReplyView::Text { path, text, start_line, total_lines }) == json_object(
            seq![
                ("path"@, json_quoted(path)),
                ("text"@, json_quoted(text)),
                ("start_line"@, decimal(start_line as nat)),
                ("total_lines"@, decimal(total_lines)),
            ],
        ),
        reply_json(ReplyView::Items { rows, truncated }) == json_object(
            seq![
                ("items"@, json_array(rows.map_values(|r: RowView| item_row_json(r)))),
                (
                    "truncated"@,
                    if truncated {
                        "true"@
                    } else {
                        "false"@
                    },
                ),
            ],
        ),
{
}

/// A tool answers what the store answered, or says why it did not.
pub proof fn law_tools_answer_for_the_store(
    tool: ContextTool,
    reply: Option<Result<ContextReply, String>>,
    r: Result<ContextReply, ToolError>,
)
    requires
        call_ensures(ContextTool::answer, (tool, reply), r),
    ensures
        r is Ok <==> reply is Some && reply->0 is Ok,
        r matches Ok(a) ==> reply == Some(Ok::<ContextReply, String>(a)),
        reply matches Some(Err(e)) ==> (r matches Err(t) && t.message@ == e@),
{
    if let Err(t) = r {
        assert(t@.message == t.message@);
    }
}

/// What each operation on the notes does: two write, one of them behind what is there,
/// and the others change nothing. A note that was written is told by its path.
pub proof fn law_notes_operations_do_what_they_name(
    notes: NotesFile,
    operation: Seq<char>,
    input: ContextInput,
)
    ensures
        notes matches NotesFile::Broken(e) ==> notes_reply(notes, operation, input) == Err::<
            ReplyView,
            Seq<char>,
        >(e@) && notes_saved(notes, operation, input) is None,
        operation != "notes_write_file"@ && operation != "notes_append_to_file"@ ==> notes_saved(
            notes,
            operation,
            input,
        ) is None,
        notes matches NotesFile::Notes(v) ==> {
            let pairs = note_pairs(v@);
            let path = local_path(input.path->0@);
            &&& operation == "notes_write_file"@ || operation == "notes_append_to_file"@ ==> {
                &&& notes_reply(notes, operation, input) is Ok <==> notes_saved(
                    notes,
                    operation,
                    input,
                ) is Some
                &&& notes_reply(notes, operation, input) matches Ok(r) ==> (r matches ReplyView::Saved {
                    path: told,
                } && told == path)
            }
            &&& operation == "notes_write_file"@ ==> (notes_saved(
                notes,
                operation,
                input,
            ) matches Some(after) ==> note_text(after, path) == Some(input.text->0@))
            &&& operation == "notes_append_to_file"@ ==> (notes_saved(
                notes,
                operation,
                input,
            ) matches Some(after) ==> note_text(after, path) == Some(
                (match note_text(pairs, path) {
                    Some(t) => t,
                    None => Seq::empty(),
                }) + input.text->0@,
            ))
            &&& operation == "notes_read_file"@ ==> (notes_reply(notes, operation, input) matches Ok(
                r,
            ) ==> (r matches ReplyView::Text { path: told, .. } && told == path && note_text(
                pairs,
                path,
            ) is Some))
            &&& operation == "notes_list_files_by_prefix"@ || operation == "notes_search_contents"@
                ==> (notes_reply(notes, operation, input) matches Ok(r) && r is Files)
        },
{
    reveal_strlit("notes_write_file");
    reveal_strlit("notes_append_to_file");
    reveal_strlit("notes_read_file");
    reveal_strlit("notes_list_files_by_prefix");
    reveal_strlit("notes_search_contents");
    assert("notes_write_file"@.len() == 16 && "notes_append_to_file"@.len() == 20
        && "notes_read_file"@.len() == 15 && "notes_list_files_by_prefix"@.len() == 26
        && "notes_search_contents"@.len() == 21);
    if let NotesFile::Notes(v) = notes {
        let pairs = note_pairs(v@);
        law_notes_are_written_within_limits(operation == "notes_append_to_file"@, pairs, input);
        law_notes_are_read_by_lines(pairs, input);
        assert(Seq::<char>::empty() + input.text->0@ =~= input.text->0@);
    }
}

/// A new window stands behind all that were there and is the current one.
pub proof fn law_new_windows_are_current(
    store: &ContextManagementStore,
    id: String,
    r: Manifest,
)
    requires
        call_ensures(ContextManagementStore::rotated_to, (store, id), r),
    ensures
        r.current@ == id@,
        r.windows@.len() == store.manifest.windows@.len() + 1,
        r.windows@.last()@ == id@,
        forall|i: int|
            0 <= i < store.manifest.windows@.len() ==> (#[trigger] r.windows@[i])@
                == store.manifest.windows@[i]@,
{
    let a = views(r.windows@);
    let b = views(store.manifest.windows@);
    assert(a.len() == r.windows@.len() && b.len() == store.manifest.windows@.len());
    assert(a.last() == r.windows@.last()@);
    assert forall|i: int| 0 <= i < store.manifest.windows@.len() implies (
    #[trigger] r.windows@[i])@ == store.manifest.windows@[i]@ by {
        assert(a[i] == b[i]);
        assert(a[i] == r.windows@[i]@);
    }
}

/// A window is opened for the turn that asked for it, and not for a later one.
pub proof fn law_windows_are_opened_in_their_turn(
    store: &ContextManagementStore,
    generation: u64,
    r: Result<Manifest, String>,
)
    requires
        call_ensures(ContextManagementStore::rotate_for_generation, (store, generation), r),
    ensures
        r is Ok <==> generation == store.generation,
        r matches Ok(next) ==> next.windows@.len() == store.manifest.windows@.len() + 1
            && next.windows@.last()@ == next.current@,
{
    if let Ok(next) = r {
        let a = views(next.windows@);
        assert(a.len() == next.windows@.len());
        assert(views(store.manifest.windows@).len() == store.manifest.windows@.len());
        assert(a.last() == next.windows@.last()@);
    }
}

} // verus!

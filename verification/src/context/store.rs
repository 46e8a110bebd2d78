//! The store of context windows and notes: what a session may do with them.
use vstd::prelude::*;
#[allow(unused_imports)]
use vstd::string::*;

#[allow(unused_imports)]
use crate::context::history::{
    HistoryItem, ItemQuery, WindowFile, begins_with, bounded_rows, clamp, clamped, found, item_id,
    item_views, items_in, number_or, or_empty, place, row_views, rows_fitting, search_windows,
    text_or_empty,
};
#[allow(unused_imports)]
use crate::context::notes::{
    BAD_PATH, DIGEST_CHARS, MAX_NOTE_BYTES, MAX_SESSION_BYTES, Note, NotePair, digest_all,
    find_note, good_path, law_written_note_is_read_back, local_note_path, local_path, note_digest,
    note_key, note_pairs, note_text, notes_bytes, notes_too_large, put_note, with_note,
};
#[allow(unused_imports)]
use crate::context::reply::{
    ContextInput, ContextReply, FileRow, FileRowView, LineMatch, LineView, NotesFile, ReplyView,
    WindowRow, WindowRowView, file_rows_json, file_views, files_json, item_rows_json, items_json,
    line_views, window_views,
};
#[allow(unused_imports)]
use crate::ids::{is_uuid, random_id, uuid_text};
#[allow(unused_imports)]
use crate::text::{
    add_text, byte_count, byte_len, cat2, cat3, contains_text, copy_list, copy_option, has_part,
    has_prefix, in_list, join, joined, lemma_in_list, lines, list_holds, same_text, slice_chars,
    sliced, smaller, split_lines, starts_with, text_set, views,
};

verus! {

/// The windows of a session, oldest first, and the current one.
#[derive(Debug)]
pub struct Manifest {
    pub current: String,
    pub windows: Vec<String>,
}

impl Manifest {
    /// The current window is among the windows, and each has a good id.
    pub open spec fn wf(&self) -> bool {
        &&& in_list(self.windows@, self.current@)
        &&& forall|i: int| 0 <= i < self.windows@.len() ==> uuid_text((#[trigger] self.windows@[i])@)
    }

    /// One window, which is current.
    pub fn starting(id: String) -> (r: Manifest)
        requires
            uuid_text(id@),
        ensures
            r.wf(),
            r.current@ == id@,
            views(r.windows@) == seq![id@],
    {
        let windows: Vec<String> = vec![id.clone()];
        proof {
            assert(windows@[0]@ == id@);
            assert(views(windows@) =~= seq![id@]);
        }
        Manifest { current: id, windows }
    }
}

/// The store of a session.
#[derive(Debug)]
pub struct ContextManagementStore {
    pub manifest: Manifest,
    pub enabled: bool,
    /// A new window will start.
    pub pending: bool,
    /// How many tokens are left.
    pub remaining: u64,
    pub reminder_sent: bool,
    pub fallback_sent: bool,
    /// The calls whose values are private.
    pub private_calls: Vec<String>,
    /// The turn.
    pub generation: u64,
}

/// What an operation comes to: its answer, and the notes to save before it is
/// given.
#[derive(Debug)]
pub struct ContextStep {
    pub reply: Result<ContextReply, String>,
    pub saved: Option<Vec<Note>>,
}

// ---- windows ----

/// Where a text first stands in a list.
pub open spec fn first_place(s: Seq<String>, t: Seq<char>) -> nat
    decreases s.len(),
{
    if s.len() == 0 || s[0]@ == t {
        0
    } else {
        1 + first_place(s.drop_first(), t)
    }
}

/// The windows to walk: one, or all.
pub open spec fn visited(windows: Seq<String>, window_id: Option<String>, recent_first: bool) -> Seq<
    usize,
> {
    match window_id {
        Some(id) => seq![first_place(windows, id@) as usize],
        None => Seq::new(
            windows.len(),
            |k: int| place(k, windows.len() as int, recent_first) as usize,
        ),
    }
}

fn place_of(windows: &Vec<String>, id: &str) -> (r: Option<usize>)
    ensures
        match r {
            Some(i) => i < windows@.len() && i == first_place(windows@, id@) && in_list(
                windows@,
                id@,
            ),
            None => !in_list(windows@, id@),
        },
{
    let mut i: usize = 0;
    proof {
        assert(windows@.skip(0) =~= windows@);
    }
    while i < windows.len()
        invariant
            i <= windows@.len(),
            first_place(windows@, id@) == i + first_place(windows@.skip(i as int), id@),
            forall|j: int| 0 <= j < i ==> (#[trigger] windows@[j])@ != id@,
        decreases windows.len() - i,
    {
        proof {
            assert(windows@.skip(i as int)[0] == windows@[i as int]);
            assert(windows@.skip(i as int).drop_first() =~= windows@.skip(i + 1));
        }
        if same_text(windows[i].as_str(), id) {
            return Some(i);
        }
        i += 1;
    }
    None
}

fn all_places(n: usize, recent_first: bool) -> (r: Vec<usize>)
    ensures
        r@ == Seq::new(n as nat, |k: int| place(k, n as int, recent_first) as usize),
{
    let mut out: Vec<usize> = Vec::new();
    let mut k: usize = 0;
    while k < n
        invariant
            k <= n,
            out@.len() == k,
            forall|j: int| 0 <= j < k ==> (#[trigger] out@[j]) == place(j, n as int, recent_first),
        decreases n - k,
    {
        let p: usize = if recent_first {
            n - 1 - k
        } else {
            k
        };
        out.push(p);
        k += 1;
    }
    proof {
        assert(out@ =~= Seq::new(n as nat, |k: int| place(k, n as int, recent_first) as usize));
    }
    out
}

/// The flag that asks for recent things first; they come first unless it is
/// off.
pub open spec fn recent(input: ContextInput) -> bool {
    match input.recent_first {
        Some(b) => b,
        None => true,
    }
}

/// How many rows an answer may have.
pub open spec fn row_limit(input: ContextInput) -> usize {
    clamped(number_or(input.limit, 20) as int, 1, 100) as usize
}

/// The list of windows.
pub open spec fn window_list(
    manifest: Manifest,
    files: Seq<WindowFile>,
    input: ContextInput,
) -> Seq<WindowRowView> {
    let n = manifest.windows@.len() as int;
    Seq::new(
        smaller(row_limit(input) as int, n) as nat,
        |k: int|
            {
                let w = place(k, n, recent(input));
                WindowRowView {
                    window_id: manifest.windows@[w]@,
                    item_count: items_in(files[w]).len(),
                    current: manifest.windows@[w]@ == manifest.current@,
                }
            },
    )
}

/// Which items an operation asks for.
pub open spec fn item_query(operation: Seq<char>, input: ContextInput) -> ItemQuery {
    ItemQuery {
        item_id: input.item_id,
        role: input.role,
        tool_name: input.tool_name,
        searches: operation == "history_search_contents"@,
        query: input.query,
        offset_chars: number_or(input.offset_chars, 0),
        limit_chars: clamped(
            (match input.limit_chars {
                Some(n) => n,
                None => number_or(input.max_chars_per_item, 2000),
            }) as int,
            1,
            8_000,
        ) as usize,
        limit: row_limit(input),
        recent_first: recent(input),
    }
}

/// The answer about items of the history.
pub open spec fn history_reply(
    manifest: Manifest,
    files: Seq<WindowFile>,
    operation: Seq<char>,
    input: ContextInput,
) -> Result<ReplyView, Seq<char>> {
    if input.window_id is Some && !in_list(manifest.windows@, input.window_id->0@) {
        Ok(ReplyView::NoItems)
    } else {
        match found(
            manifest.windows@,
            files,
            visited(manifest.windows@, input.window_id, recent(input)),
            item_query(operation, input),
            0,
            Seq::empty(),
        ) {
            Ok(rows) => {
                let fit = rows_fitting(item_rows_json(rows), 0, 0);
                Ok(ReplyView::Items { rows: rows.take(fit as int), truncated: fit < rows.len() })
            },
            Err(e) => Err(e),
        }
    }
}

// ---- notes ----

/// Where a line number stands: negative ones count from the end, and zero
/// stands past every line.
pub open spec fn line_place(n: i64, total: int) -> int {
    if n < 0 {
        if total + n < 0 {
            0
        } else {
            total + n
        }
    } else if n == 0 {
        u64::MAX as int
    } else {
        n - 1
    }
}

/// The first line to read.
pub open spec fn first_line(input: ContextInput, total: int) -> int {
    smaller(
        line_place(
            match input.start_line {
                Some(n) => n,
                None => 1,
            },
            total,
        ),
        total,
    )
}

/// The line to stop before.
pub open spec fn end_line(input: ContextInput, total: int) -> int {
    let end = match input.stop_line {
        Some(n) => smaller(line_place(n, total) + 1, total),
        None => total,
    };
    if end < first_line(input, total) {
        first_line(input, total)
    } else {
        end
    }
}

/// The lines of a note that hold the query, among the first `k`; the first few
/// of them.
pub open spec fn matching_lines(ls: Seq<Seq<char>>, query: Seq<char>, limit: int, k: nat) -> Seq<
    LineView,
>
    decreases k,
{
    if k == 0 {
        Seq::empty()
    } else {
        let before = matching_lines(ls, query, limit, (k - 1) as nat);
        if before.len() < limit && has_part(ls[k - 1], query) {
            before.push((k, sliced(ls[k - 1], 0, 500)))
        } else {
            before
        }
    }
}

/// The prefix of the paths that are asked for.
pub open spec fn path_prefix(input: ContextInput) -> Seq<char> {
    local_path(
        match input.prefix {
            Some(p) => p@,
            None => text_or_empty(input.path_prefix),
        },
    )
}

/// How many lines of a note an answer may show.
pub open spec fn match_limit(input: ContextInput) -> int {
    clamped(number_or(input.max_matches_per_file, 10) as int, 1, 20)
}

/// How many notes an answer may list.
pub open spec fn file_limit(input: ContextInput) -> int {
    clamped(
        (match input.max_results {
            Some(n) => n,
            None => number_or(input.max_files, 20),
        }) as int,
        1,
        100,
    )
}

/// How a note is listed, if it is.
pub open spec fn file_row(n: NotePair, lists: bool, input: ContextInput) -> Option<FileRowView> {
    let ls = lines(n.1);
    let matches = matching_lines(ls, text_or_empty(input.query), match_limit(input), ls.len());
    if !has_prefix(n.0, path_prefix(input)) {
        None
    } else if lists {
        Some(FileRowView::Listed { path: n.0, bytes: byte_len(n.1) })
    } else if matches.len() > 0 {
        Some(FileRowView::Matched { path: n.0, matches })
    } else {
        None
    }
}

/// The notes that are listed, among the first `k`; the first few of them.
pub open spec fn file_list(notes: Seq<NotePair>, lists: bool, input: ContextInput, k: nat) -> Seq<
    FileRowView,
>
    decreases k,
{
    if k == 0 {
        Seq::empty()
    } else {
        let before = file_list(notes, lists, input, (k - 1) as nat);
        let row = file_row(notes[k - 1], lists, input);
        if before.len() < file_limit(input) && row is Some {
            before.push(row->0)
        } else {
            before
        }
    }
}

/// The text that a note is to hold.
pub open spec fn new_text(appends: bool, notes: Seq<NotePair>, path: Seq<char>, text: Seq<char>) -> Seq<
    char,
> {
    if appends {
        (match note_text(notes, path) {
            Some(t) => t,
            None => ""@,
        }) + text
    } else {
        text
    }
}

/// What writing a note leaves, or why it is refused.
pub open spec fn write_note(appends: bool, notes: Seq<NotePair>, input: ContextInput) -> Result<
    Seq<NotePair>,
    Seq<char>,
> {
    if input.path is None {
        Err("path is required"@)
    } else if !good_path(local_path(input.path->0@)) {
        Err(BAD_PATH@)
    } else if input.text is None {
        Err("text is required"@)
    } else {
        let path = local_path(input.path->0@);
        let text = new_text(appends, notes, path, input.text->0@);
        let after = with_note(notes, path, text);
        if byte_len(text) > MAX_NOTE_BYTES {
            Err("Notes are limited to 1000000 UTF-8 bytes per file"@)
        } else if notes_bytes(after) > MAX_SESSION_BYTES {
            Err("Session notes exceed 16000000 bytes"@)
        } else {
            Ok(after)
        }
    }
}

/// The answer to reading a note.
pub open spec fn read_reply(notes: Seq<NotePair>, input: ContextInput) -> Result<
    ReplyView,
    Seq<char>,
> {
    if input.path is None {
        Err("path is required"@)
    } else if !good_path(local_path(input.path->0@)) {
        Err(BAD_PATH@)
    } else {
        let path = local_path(input.path->0@);
        match note_text(notes, path) {
            None => Err("Note not found"@),
            Some(t) => {
                let ls = lines(t);
                let total = ls.len() as int;
                let first = first_line(input, total);
                Ok(
                    ReplyView::Text {
                        path,
                        text: sliced(
                            joined(ls.subrange(first, end_line(input, total)), "\n"@),
                            number_or(input.offset_chars, 0) as int,
                            clamped(number_or(input.limit_chars, 8000) as int, 1, 8000),
                        ),
                        start_line: smaller(first + 1, usize::MAX as int),
                        total_lines: ls.len(),
                    },
                )
            },
        }
    }
}

/// The operation writes a note.
pub open spec fn writes(operation: Seq<char>) -> bool {
    operation == "notes_write_file"@ || operation == "notes_append_to_file"@
}

/// The answer about notes.
pub open spec fn notes_reply(notes: NotesFile, operation: Seq<char>, input: ContextInput) -> Result<
    ReplyView,
    Seq<char>,
> {
    match notes {
        NotesFile::Broken(e) => Err(e@),
        NotesFile::Notes(v) => {
            let pairs = note_pairs(v@);
            if writes(operation) {
                match write_note(operation == "notes_append_to_file"@, pairs, input) {
                    Ok(_) => Ok(ReplyView::Saved { path: local_path(input.path->0@) }),
                    Err(e) => Err(e),
                }
            } else if operation == "notes_read_file"@ {
                read_reply(pairs, input)
            } else if operation == "notes_list_files_by_prefix"@ || operation
                == "notes_search_contents"@ {
                let rows = file_list(
                    pairs,
                    operation == "notes_list_files_by_prefix"@,
                    input,
                    pairs.len(),
                );
                let fit = rows_fitting(file_rows_json(rows), 0, 0);
                Ok(ReplyView::Files { rows: rows.take(fit as int), truncated: fit < rows.len() })
            } else {
                Err("Unknown notes operation"@)
            }
        },
    }
}

/// The notes that an operation leaves to be saved, if it does.
pub open spec fn notes_saved(notes: NotesFile, operation: Seq<char>, input: ContextInput) -> Option<
    Seq<NotePair>,
> {
    match notes {
        NotesFile::Notes(v) if writes(operation) => match write_note(
            operation == "notes_append_to_file"@,
            note_pairs(v@),
            input,
        ) {
            Ok(after) => Some(after),
            Err(_) => None,
        },
        _ => None,
    }
}

// ---- operations ----

/// The operation speaks of items of the history.
pub open spec fn reads_history(operation: Seq<char>) -> bool {
    operation == "history_list_items"@ || operation == "history_search_contents"@ || operation
        == "history_read_item"@
}

/// Why an operation is refused whatever it is, if it is.
pub open spec fn refusal(store: ContextManagementStore, input: ContextInput) -> Option<Seq<char>> {
    if !store.enabled {
        Some("Experimental context management is unavailable on this route"@)
    } else if input.agent_name is Some && input.agent_name->0@ != "/root"@
        && input.agent_name->0@ != "root"@ {
        Some("History and notes are local to this session"@)
    } else {
        None
    }
}

/// The answer to an operation.
pub open spec fn expected_reply(
    store: ContextManagementStore,
    operation: Seq<char>,
    input: ContextInput,
    files: Seq<WindowFile>,
    notes: NotesFile,
) -> Result<ReplyView, Seq<char>> {
    if refusal(store, input) is Some {
        Err(refusal(store, input)->0)
    } else if operation == "new_context"@ {
        Ok(ReplyView::Accepted)
    } else if operation == "get_context_remaining"@ {
        Ok(ReplyView::Remaining(store.remaining))
    } else if operation == "history_list_windows"@ {
        Ok(ReplyView::Windows(window_list(store.manifest, files, input)))
    } else if reads_history(operation) {
        history_reply(store.manifest, files, operation, input)
    } else if has_prefix(operation, "notes_"@) {
        notes_reply(notes, operation, input)
    } else {
        Err("Unknown context operation"@)
    }
}

/// The operation speaks of notes.
pub open spec fn about_notes(operation: Seq<char>) -> bool {
    &&& operation != "new_context"@
    &&& operation != "get_context_remaining"@
    &&& operation != "history_list_windows"@
    &&& !reads_history(operation)
    &&& has_prefix(operation, "notes_"@)
}

fn refused(e: &str) -> (r: Result<ContextReply, String>)
    ensures
        r is Err,
        r->Err_0@ == e@,
{
    Err(e.to_owned())
}

fn list_windows(manifest: &Manifest, files: &Vec<WindowFile>, input: &ContextInput) -> (r: Vec<
    WindowRow,
>)
    requires
        files@.len() == manifest.windows@.len(),
    ensures
        window_views(r@) == window_list(*manifest, files@, *input),
{
    let n: usize = manifest.windows.len();
    let recent_first: bool = input.recent_first.unwrap_or(true);
    let limit: usize = clamp(input.limit.unwrap_or(20), 1, 100);
    let mut out: Vec<WindowRow> = Vec::new();
    let mut k: usize = 0;
    while k < n && k < limit
        invariant
            n == manifest.windows@.len() == files@.len(),
            k <= n,
            k <= limit,
            limit == row_limit(*input),
            recent_first == recent(*input),
            out@.len() == k,
            forall|j: int|
                0 <= j < k ==> (#[trigger] out@[j])@ == window_list(*manifest, files@, *input)[j],
        decreases n - k,
    {
        let w: usize = if recent_first {
            n - 1 - k
        } else {
            k
        };
        let id: &String = &manifest.windows[w];
        let item_count: usize = match &files[w] {
            WindowFile::Items(items) => items.len(),
            WindowFile::Missing => 0,
            WindowFile::Broken(_) => 0,
        };
        out.push(
            WindowRow {
                window_id: id.clone(),
                item_count,
                current: same_text(id.as_str(), manifest.current.as_str()),
            },
        );
        k += 1;
    }
    proof {
        assert(window_views(out@) =~= window_list(*manifest, files@, *input));
    }
    out
}

fn read_items(manifest: &Manifest, files: &Vec<WindowFile>, operation: &str, input: &ContextInput) -> (r:
    Result<ContextReply, String>)
    requires
        files@.len() == manifest.windows@.len(),
    ensures
        match (r, history_reply(*manifest, files@, operation@, *input)) {
            (Ok(a), Ok(b)) => a@ == b,
            (Err(a), Err(b)) => a@ == b,
            _ => false,
        },
{
    let recent_first: bool = input.recent_first.unwrap_or(true);
    let places: Vec<usize> = match &input.window_id {
        Some(id) => match place_of(&manifest.windows, id.as_str()) {
            Some(i) => vec![i],
            None => {
                return Ok(ContextReply::NoItems);
            },
        },
        None => all_places(manifest.windows.len(), recent_first),
    };
    let limit_chars: usize = match input.limit_chars {
        Some(n) => n,
        None => input.max_chars_per_item.unwrap_or(2000),
    };
    let query: ItemQuery = ItemQuery {
        item_id: copy_option(&input.item_id),
        role: copy_option(&input.role),
        tool_name: copy_option(&input.tool_name),
        searches: same_text(operation, "history_search_contents"),
        query: copy_option(&input.query),
        offset_chars: input.offset_chars.unwrap_or(0),
        limit_chars: clamp(limit_chars, 1, 8_000),
        limit: clamp(input.limit.unwrap_or(20), 1, 100),
        recent_first,
    };
    proof {
        assert(query == item_query(operation@, *input));
        assert(places@ =~= visited(manifest.windows@, input.window_id, recent(*input)));
    }
    match search_windows(&manifest.windows, files, &places, &query) {
        Ok(mut rows) => {
            let fit: usize = bounded_rows(&items_json(&rows));
            let truncated: bool = fit < rows.len();
            proof {
                assert(row_views(rows@.subrange(0, fit as int)) =~= row_views(rows@).take(
                    fit as int,
                ));
            }
            rows.truncate(fit);
            Ok(ContextReply::Items { rows, truncated })
        },
        Err(e) => Err(e),
    }
}

fn line_index(n: i64, total: usize) -> (r: usize)
    ensures
        r == smaller(line_place(n, total as int), total as int),
{
    if n < 0 {
        let back: u64 = if n == i64::MIN {
            9_223_372_036_854_775_808
        } else {
            (-n) as u64
        };
        if back >= total as u64 {
            0
        } else {
            total - back as usize
        }
    } else if n == 0 {
        total
    } else {
        let index: u64 = (n - 1) as u64;
        if index < total as u64 {
            index as usize
        } else {
            total
        }
    }
}

fn read_note(notes: &Vec<Note>, input: &ContextInput) -> (r: Result<ContextReply, String>)
    ensures
        match (r, read_reply(note_pairs(notes@), *input)) {
            (Ok(a), Ok(b)) => a@ == b,
            (Err(a), Err(b)) => a@ == b,
            _ => false,
        },
{
    let path: &String = match &input.path {
        Some(p) => p,
        None => {
            return refused("path is required");
        },
    };
    let key: String = match note_key(path.as_str()) {
        Ok(k) => k,
        Err(e) => {
            return Err(e);
        },
    };
    match find_note(notes, key.as_str()) {
        None => refused("Note not found"),
        Some(i) => {
            let all: Vec<String> = split_lines(notes[i].text.as_str());
            let total: usize = all.len();
            let start: usize = line_index(input.start_line.unwrap_or(1), total);
            let mut end: usize = match input.stop_line {
                Some(n) => {
                    let last: usize = line_index(n, total);
                    if last < total {
                        last + 1
                    } else {
                        total
                    }
                },
                None => total,
            };
            if end < start {
                end = start;
            }
            proof {
                assert(lines(notes@[i as int].text@).len() == views(all@).len());
                assert(start == first_line(*input, total as int));
                assert(end == end_line(*input, total as int));
            }
            let mut part: Vec<String> = Vec::new();
            let mut k: usize = start;
            while k < end
                invariant
                    start <= k <= end <= total == all@.len(),
                    part@.len() == k - start,
                    forall|j: int| 0 <= j < k - start ==> (#[trigger] part@[j])@ == all@[start + j]@,
                decreases end - k,
            {
                part.push(all[k].clone());
                k += 1;
            }
            proof {
                assert(views(part@) =~= views(all@).subrange(start as int, end as int));
            }
            let text: String = slice_chars(
                join(&part, "\n").as_str(),
                input.offset_chars.unwrap_or(0),
                clamp(input.limit_chars.unwrap_or(8000), 1, 8000),
            );
            Ok(ContextReply::Text { path: key, text, start_line: start.saturating_add(1), total_lines: total })
        },
    }
}

fn find_lines(text: &str, query: &str, limit: usize) -> (r: Vec<LineMatch>)
    ensures
        line_views(r@) == matching_lines(lines(text@), query@, limit as int, lines(text@).len()),
{
    let all: Vec<String> = split_lines(text);
    let ghost ls = lines(text@);
    let mut out: Vec<LineMatch> = Vec::new();
    let mut k: usize = 0;
    proof {
        assert(line_views(out@) =~= Seq::<LineView>::empty());
    }
    while k < all.len()
        invariant
            k <= all@.len(),
            views(all@) == ls,
            line_views(out@) == matching_lines(ls, query@, limit as int, k as nat),
        decreases all.len() - k,
    {
        proof {
            assert(ls[k as int] == all@[k as int]@);
            assert(line_views(out@).len() == out@.len());
        }
        if out.len() < limit && contains_text(all[k].as_str(), query) {
            let ghost held = out@;
            let m: LineMatch = LineMatch {
                line: k + 1,
                text: slice_chars(all[k].as_str(), 0, 500),
            };
            out.push(m);
            proof {
                assert(line_views(out@) =~= line_views(held).push((m.line as nat, m.text@)));
            }
        }
        k += 1;
    }
    proof {
        assert(ls.len() == all@.len());
    }
    out
}

fn list_notes(notes: &Vec<Note>, lists: bool, input: &ContextInput) -> (r: ContextReply)
    ensures
        ({
            let pairs = note_pairs(notes@);
            let rows = file_list(pairs, lists, *input, pairs.len());
            let fit = rows_fitting(file_rows_json(rows), 0, 0);
            r@ == (ReplyView::Files { rows: rows.take(fit as int), truncated: fit < rows.len() })
        }),
{
    let ghost pairs = note_pairs(notes@);
    let given: &str = match &input.prefix {
        Some(p) => p.as_str(),
        None => or_empty(&input.path_prefix),
    };
    let prefix: &str = local_note_path(given);
    let query: &str = or_empty(&input.query);
    let per_file: usize = clamp(input.max_matches_per_file.unwrap_or(10), 1, 20);
    let max_files: usize = match input.max_results {
        Some(n) => n,
        None => input.max_files.unwrap_or(20),
    };
    let limit: usize = clamp(max_files, 1, 100);
    let mut rows: Vec<FileRow> = Vec::new();
    let mut k: usize = 0;
    proof {
        assert(file_views(rows@) =~= Seq::<FileRowView>::empty());
    }
    while k < notes.len()
        invariant
            k <= notes@.len(),
            pairs == note_pairs(notes@),
            prefix@ == path_prefix(*input),
            query@ == text_or_empty(input.query),
            per_file == match_limit(*input),
            limit == file_limit(*input),
            file_views(rows@) == file_list(pairs, lists, *input, k as nat),
        decreases notes.len() - k,
    {
        proof {
            assert(pairs[k as int] == (notes@[k as int].path@, notes@[k as int].text@));
            assert(file_views(rows@).len() == rows@.len());
        }
        if rows.len() < limit && starts_with(notes[k].path.as_str(), prefix) {
            let ghost held = rows@;
            if lists {
                let row: FileRow = FileRow::Listed {
                    path: notes[k].path.clone(),
                    bytes: byte_count(notes[k].text.as_str()),
                };
                rows.push(row);
                proof {
                    assert(file_views(rows@) =~= file_views(held).push(row@));
                }
            } else {
                let matches: Vec<LineMatch> = find_lines(notes[k].text.as_str(), query, per_file);
                proof {
                    assert(line_views(matches@).len() == matches@.len());
                }
                if matches.len() > 0 {
                    let row: FileRow = FileRow::Matched { path: notes[k].path.clone(), matches };
                    rows.push(row);
                    proof {
                        assert(file_views(rows@) =~= file_views(held).push(row@));
                    }
                }
            }
        }
        k += 1;
    }
    let fit: usize = bounded_rows(&files_json(&rows));
    let truncated: bool = fit < rows.len();
    proof {
        assert(pairs.len() == notes@.len());
        assert(file_views(rows@).len() == rows@.len());
        assert(file_views(rows@.subrange(0, fit as int)) =~= file_views(rows@).take(fit as int));
    }
    rows.truncate(fit);
    ContextReply::Files { rows, truncated }
}

fn save_note(mut notes: Vec<Note>, appends: bool, input: &ContextInput) -> (r: ContextStep)
    ensures
        match write_note(appends, note_pairs(notes@), *input) {
            Ok(after) => {
                &&& r.reply is Ok
                &&& r.reply->Ok_0@ == (ReplyView::Saved { path: local_path(input.path->0@) })
                &&& r.saved is Some
                &&& note_pairs(r.saved->0@) == after
            },
            Err(e) => r.reply is Err && r.reply->Err_0@ == e && r.saved is None,
        },
{
    let path: &String = match &input.path {
        Some(p) => p,
        None => {
            return ContextStep { reply: refused("path is required"), saved: None };
        },
    };
    let key: String = match note_key(path.as_str()) {
        Ok(k) => k,
        Err(e) => {
            return ContextStep { reply: Err(e), saved: None };
        },
    };
    let text: &String = match &input.text {
        Some(t) => t,
        None => {
            return ContextStep { reply: refused("text is required"), saved: None };
        },
    };
    let value: String = if appends {
        let old_text: &str = match find_note(&notes, key.as_str()) {
            Some(i) => notes[i].text.as_str(),
            None => "",
        };
        cat2(old_text, text.as_str())
    } else {
        text.clone()
    };
    if byte_count(value.as_str()) > MAX_NOTE_BYTES {
        return ContextStep {
            reply: refused("Notes are limited to 1000000 UTF-8 bytes per file"),
            saved: None,
        };
    }
    put_note(&mut notes, key.as_str(), value);
    if notes_too_large(&notes) {
        return ContextStep { reply: refused("Session notes exceed 16000000 bytes"), saved: None };
    }
    ContextStep { reply: Ok(ContextReply::Saved { path: key }), saved: Some(notes) }
}

fn use_notes(notes: NotesFile, operation: &str, input: &ContextInput) -> (r: ContextStep)
    ensures
        match (r.reply, notes_reply(notes, operation@, *input)) {
            (Ok(a), Ok(b)) => a@ == b,
            (Err(a), Err(b)) => a@ == b,
            _ => false,
        },
        match (r.saved, notes_saved(notes, operation@, *input)) {
            (Some(v), Some(p)) => note_pairs(v@) == p,
            (None, None) => true,
            _ => false,
        },
{
    match notes {
        NotesFile::Broken(e) => ContextStep { reply: Err(e), saved: None },
        NotesFile::Notes(v) => {
            if same_text(operation, "notes_write_file") || same_text(
                operation,
                "notes_append_to_file",
            ) {
                save_note(v, same_text(operation, "notes_append_to_file"), input)
            } else if same_text(operation, "notes_read_file") {
                ContextStep { reply: read_note(&v, input), saved: None }
            } else if same_text(operation, "notes_list_files_by_prefix") || same_text(
                operation,
                "notes_search_contents",
            ) {
                let lists: bool = same_text(operation, "notes_list_files_by_prefix");
                ContextStep { reply: Ok(list_notes(&v, lists, input)), saved: None }
            } else {
                ContextStep { reply: refused("Unknown notes operation"), saved: None }
            }
        },
    }
}

/// What a snapshot of the history comes to.
#[derive(Debug)]
pub enum SnapshotStep {
    /// The window holds the items.
    Unchanged,
    /// The items go to the current window.
    Write { path: String },
    /// The items part from those of the current window: the manifest is saved
    /// and adopted, then the items go to its new window.
    Rotate { next: Manifest, path: String },
}

/// Where the items of a window stand.
pub open spec fn window_file(id: Seq<char>) -> Seq<char> {
    "windows/"@ + id + ".json"@
}

impl ContextManagementStore {
    /// The manifest is good.
    pub open spec fn wf(&self) -> bool {
        self.manifest.wf()
    }

    /// Opens the store with the manifest that was found; without one a first
    /// window starts.
    pub fn open(stored: Option<Manifest>) -> (r: Result<ContextManagementStore, String>)
        ensures
            match r {
                Ok(s) => {
                    &&& s.wf()
                    &&& stored matches Some(m) ==> s.manifest == m
                    &&& stored is None ==> s.manifest.windows@.len() == 1
                    &&& !s.enabled && !s.pending && !s.reminder_sent && !s.fallback_sent
                    &&& s.remaining == 0 && s.generation == 0
                    &&& s.private_calls@.len() == 0
                },
                Err(e) => stored is Some && !stored->0.wf() && e@
                    == "Invalid context window manifest"@,
            },
    {
        let manifest: Manifest = match stored {
            Some(m) => {
                let mut i: usize = 0;
                while i < m.windows.len()
                    invariant
                        i <= m.windows@.len(),
                        stored == Some(m),
                        forall|j: int|
                            0 <= j < i ==> uuid_text((#[trigger] m.windows@[j])@),
                    decreases m.windows.len() - i,
                {
                    if !is_uuid(m.windows[i].as_str()) {
                        proof {
                            assert(!uuid_text(m.windows@[i as int]@));
                        }
                        return Err("Invalid context window manifest".to_owned());
                    }
                    i += 1;
                }
                if !list_holds(&m.windows, m.current.as_str()) {
                    return Err("Invalid context window manifest".to_owned());
                }
                m
            },
            None => Manifest::starting(random_id()),
        };
        proof {
            assert(views(manifest.windows@).len() == manifest.windows@.len());
        }
        Ok(
            ContextManagementStore {
                manifest,
                enabled: false,
                pending: false,
                remaining: 0,
                reminder_sent: false,
                fallback_sent: false,
                private_calls: Vec::new(),
                generation: 0,
            },
        )
    }

    /// Turns the store on or off; off, no new window starts.
    pub fn set_enabled(&mut self, enabled: bool)
        ensures
            *final(self) == (ContextManagementStore {
                enabled,
                pending: enabled && old(self).pending,
                ..*old(self)
            }),
    {
        self.enabled = enabled;
        if !enabled {
            self.pending = false;
        }
    }

    /// Whether the store is on.
    pub fn enabled(&self) -> (r: bool)
        ensures
            r == self.enabled,
    {
        self.enabled
    }

    /// Whether a new window will start.
    pub fn pending(&self) -> (r: bool)
        ensures
            r == self.pending,
    {
        self.pending
    }

    /// No new window will start.
    pub fn cancel_pending(&mut self)
        ensures
            *final(self) == (ContextManagementStore { pending: false, ..*old(self) }),
    {
        self.pending = false;
    }

    /// A turn begins: what an earlier turn asked for is off.
    pub fn begin_turn(&mut self)
        ensures
            *final(self) == (ContextManagementStore {
                generation: if old(self).generation == u64::MAX {
                    0
                } else {
                    (old(self).generation + 1) as u64
                },
                pending: false,
                ..*old(self)
            }),
    {
        self.generation = self.generation.wrapping_add(1);
        self.cancel_pending();
    }

    /// The turn.
    pub fn generation(&self) -> (r: u64)
        ensures
            r == self.generation,
    {
        self.generation
    }

    /// Sets how many tokens are left.
    pub fn set_remaining(&mut self, tokens: u64)
        ensures
            *final(self) == (ContextManagementStore { remaining: tokens, ..*old(self) }),
    {
        self.remaining = tokens;
    }

    /// How many tokens are left.
    pub fn remaining(&self) -> (r: u64)
        ensures
            r == self.remaining,
    {
        self.remaining
    }

    /// Claims the reminder of this window; only the first claim succeeds.
    pub fn claim_reminder(&mut self) -> (r: bool)
        ensures
            r == !old(self).reminder_sent,
            *final(self) == (ContextManagementStore { reminder_sent: true, ..*old(self) }),
    {
        let first: bool = !self.reminder_sent;
        self.reminder_sent = true;
        first
    }

    /// Claims the fallback of this window; only the first claim succeeds.
    pub fn claim_fallback(&mut self) -> (r: bool)
        ensures
            r == !old(self).fallback_sent,
            *final(self) == (ContextManagementStore { fallback_sent: true, ..*old(self) }),
    {
        let first: bool = !self.fallback_sent;
        self.fallback_sent = true;
        first
    }

    /// The current window.
    pub fn window_id(&self) -> (r: String)
        ensures
            r@ == self.manifest.current@,
    {
        self.manifest.current.clone()
    }

    /// The beginning of the notes, for a session that goes on elsewhere.
    pub fn note_digest(&self, notes: &NotesFile) -> (r: Result<String, String>)
        ensures
            match *notes {
                NotesFile::Notes(v) => r is Ok && r->Ok_0@ == sliced(
                    digest_all(note_pairs(v@)),
                    0,
                    DIGEST_CHARS as int,
                ),
                NotesFile::Broken(e) => r is Err && r->Err_0@ == e@,
            },
    {
        match notes {
            NotesFile::Notes(v) => Ok(note_digest(v)),
            NotesFile::Broken(e) => Err(e.clone()),
        }
    }

    /// Marks a call as private.
    pub fn hide_call(&mut self, id: &str)
        ensures
            *final(self) == (ContextManagementStore {
                private_calls: final(self).private_calls,
                ..*old(self)
            }),
            text_set(final(self).private_calls@) == text_set(old(self).private_calls@).insert(id@),
    {
        add_text(&mut self.private_calls, id);
    }

    /// Whether a call is private.
    pub fn call_is_hidden(&self, id: &str) -> (r: bool)
        ensures
            r == text_set(self.private_calls@).contains(id@),
    {
        proof {
            lemma_in_list(self.private_calls@, id@);
        }
        list_holds(&self.private_calls, id)
    }

    /// Where the items of a window stand.
    pub fn window_path(&self, id: &str) -> (r: Result<String, String>)
        ensures
            match r {
                Ok(p) => uuid_text(id@) && p@ == window_file(id@),
                Err(e) => !uuid_text(id@) && e@ == "Unknown context window"@,
            },
    {
        if !is_uuid(id) {
            return Err("Unknown context window".to_owned());
        }
        Ok(cat3("windows/", id, ".json"))
    }

    /// The windows with a new one, which is current.
    pub fn rotated_to(&self, id: String) -> (r: Manifest)
        requires
            self.wf(),
            uuid_text(id@),
        ensures
            r.wf(),
            r.current@ == id@,
            views(r.windows@) == views(self.manifest.windows@).push(id@),
    {
        let mut windows: Vec<String> = copy_list(&self.manifest.windows);
        let ghost held = windows@;
        windows.push(id.clone());
        proof {
            assert(views(windows@) =~= views(held).push(id@));
            assert(windows@[held.len() as int]@ == id@);
            assert forall|i: int| 0 <= i < windows@.len() implies uuid_text(
                (#[trigger] windows@[i])@,
            ) by {
                if i < held.len() {
                    assert(views(held)[i] == views(self.manifest.windows@)[i]);
                    assert(uuid_text(self.manifest.windows@[i]@));
                }
            }
        }
        Manifest { current: id, windows }
    }

    /// Plans a snapshot of the history in this turn.
    pub fn snapshot(&self, items: &[HistoryItem], previous: &WindowFile) -> (r: Result<
        SnapshotStep,
        String,
    >)
        requires
            self.wf(),
        ensures
            exists|id: Seq<char>|
                uuid_text(id) && #[trigger] self.snapshot_post(
                    self.generation,
                    items@,
                    *previous,
                    id,
                    r,
                ),
    {
        self.snapshot_for_generation(self.generation, items, previous)
    }

    /// What a plan for a snapshot is: the items that extend those of the current
    /// window go there, and others to a new window, so that no archived item is
    /// lost. `id` is for the new window.
    pub open spec fn snapshot_post(
        &self,
        generation: u64,
        items: Seq<HistoryItem>,
        previous: WindowFile,
        id: Seq<char>,
        r: Result<SnapshotStep, String>,
    ) -> bool {
        if generation != self.generation {
            r is Err && r->Err_0@ == "Context archive belongs to an earlier turn"@
        } else {
            match previous {
                WindowFile::Broken(e) => r is Err && r->Err_0@ == e@,
                WindowFile::Missing => {
                    &&& r matches Ok(SnapshotStep::Write { path }) && path@ == window_file(
                        self.manifest.current@,
                    )
                },
                WindowFile::Items(old_items) => {
                    let before = item_views(old_items@);
                    let now = item_views(items);
                    if before == now {
                        r matches Ok(SnapshotStep::Unchanged)
                    } else if before.is_prefix_of(now) {
                        r matches Ok(SnapshotStep::Write { path }) && path@ == window_file(
                            self.manifest.current@,
                        )
                    } else {
                        r matches Ok(SnapshotStep::Rotate { next, path }) && next.wf()
                            && next.current@ == id && views(next.windows@) == views(
                            self.manifest.windows@,
                        ).push(id) && path@ == window_file(id)
                    }
                },
            }
        }
    }

    /// Plans a snapshot of the history that a turn made.
    pub fn snapshot_for_generation(
        &self,
        generation: u64,
        items: &[HistoryItem],
        previous: &WindowFile,
    ) -> (r: Result<SnapshotStep, String>)
        requires
            self.wf(),
        ensures
            exists|id: Seq<char>|
                uuid_text(id) && #[trigger] self.snapshot_post(
                    generation,
                    items@,
                    *previous,
                    id,
                    r,
                ),
    {
        self.snapshot_to(generation, items, previous, random_id())
    }

    /// Plans a snapshot of the history that a turn made. `id` is for a new
    /// window, should one be needed.
    pub fn snapshot_to(
        &self,
        generation: u64,
        items: &[HistoryItem],
        previous: &WindowFile,
        id: String,
    ) -> (r: Result<SnapshotStep, String>)
        requires
            self.wf(),
            uuid_text(id@),
        ensures
            self.snapshot_post(generation, items@, *previous, id@, r),
    {
        if generation != self.generation {
            return Err("Context archive belongs to an earlier turn".to_owned());
        }
        match previous {
            WindowFile::Broken(e) => Err(e.clone()),
            WindowFile::Missing => Ok(
                SnapshotStep::Write { path: cat3("windows/", self.manifest.current.as_str(), ".json") },
            ),
            WindowFile::Items(old_items) => {
                let extends: bool = begins_with(items, old_items.as_slice());
                proof {
                    let before = item_views(old_items@);
                    let now = item_views(items@);
                    if extends && before.len() == now.len() {
                        assert(now.subrange(0, before.len() as int) =~= now);
                    }
                    if before == now {
                        assert(now.subrange(0, before.len() as int) =~= now);
                    }
                }
                if extends && items.len() == old_items.len() {
                    Ok(SnapshotStep::Unchanged)
                } else if extends {
                    Ok(
                        SnapshotStep::Write {
                            path: cat3("windows/", self.manifest.current.as_str(), ".json"),
                        },
                    )
                } else {
                    let next: Manifest = self.rotated_to(id);
                    let path: String = cat3("windows/", next.current.as_str(), ".json");
                    Ok(SnapshotStep::Rotate { next, path })
                }
            },
        }
    }

    /// Plans a new window in this turn.
    pub fn rotate(&self) -> (r: Result<Manifest, String>)
        requires
            self.wf(),
        ensures
            r matches Ok(next) && next.wf() && views(next.windows@) == views(
                self.manifest.windows@,
            ).push(next.current@),
    {
        self.rotate_for_generation(self.generation)
    }

    /// Plans the new window that a turn asked for.
    pub fn rotate_for_generation(&self, generation: u64) -> (r: Result<Manifest, String>)
        requires
            self.wf(),
        ensures
            match r {
                Ok(next) => {
                    &&& generation == self.generation
                    &&& next.wf()
                    &&& views(next.windows@) == views(self.manifest.windows@).push(next.current@)
                },
                Err(e) => generation != self.generation && e@
                    == "Context rotation belongs to an earlier turn"@,
            },
    {
        if generation != self.generation {
            return Err("Context rotation belongs to an earlier turn".to_owned());
        }
        Ok(self.rotated_to(random_id()))
    }

    /// Adopts a manifest that was saved: its window begins afresh.
    pub fn adopt(&mut self, next: Manifest)
        ensures
            *final(self) == (ContextManagementStore {
                manifest: next,
                pending: false,
                reminder_sent: false,
                fallback_sent: false,
                ..*old(self)
            }),
    {
        self.manifest = next;
        self.pending = false;
        self.reminder_sent = false;
        self.fallback_sent = false;
    }

    /// Carries out an operation on the files of the windows and of the notes.
    pub fn operate(
        &mut self,
        operation: &str,
        input: &ContextInput,
        files: &Vec<WindowFile>,
        notes: NotesFile,
    ) -> (r: ContextStep)
        requires
            files@.len() == old(self).manifest.windows@.len(),
        ensures
            *final(self) == (ContextManagementStore {
                pending: old(self).pending || (refusal(*old(self), *input) is None && operation@
                    == "new_context"@),
                ..*old(self)
            }),
            match (r.reply, expected_reply(*old(self), operation@, *input, files@, notes)) {
                (Ok(a), Ok(b)) => a@ == b,
                (Err(a), Err(b)) => a@ == b,
                _ => false,
            },
            match (
                r.saved,
                if refusal(*old(self), *input) is None && about_notes(operation@) {
                    notes_saved(notes, operation@, *input)
                } else {
                    None
                },
            ) {
                (Some(v), Some(p)) => note_pairs(v@) == p,
                (None, None) => true,
                _ => false,
            },
    {
        if !self.enabled {
            return ContextStep {
                reply: refused("Experimental context management is unavailable on this route"),
                saved: None,
            };
        }
        if let Some(name) = &input.agent_name {
            if !same_text(name.as_str(), "/root") && !same_text(name.as_str(), "root") {
                return ContextStep {
                    reply: refused("History and notes are local to this session"),
                    saved: None,
                };
            }
        }
        if same_text(operation, "new_context") {
            self.pending = true;
            return ContextStep { reply: Ok(ContextReply::Accepted), saved: None };
        }
        if same_text(operation, "get_context_remaining") {
            return ContextStep { reply: Ok(ContextReply::Remaining(self.remaining)), saved: None };
        }
        if same_text(operation, "history_list_windows") {
            return ContextStep {
                reply: Ok(ContextReply::Windows(list_windows(&self.manifest, files, input))),
                saved: None,
            };
        }
        if same_text(operation, "history_list_items") || same_text(
            operation,
            "history_search_contents",
        ) || same_text(operation, "history_read_item") {
            return ContextStep {
                reply: read_items(&self.manifest, files, operation, input),
                saved: None,
            };
        }
        if starts_with(operation, "notes_") {
            return use_notes(notes, operation, input);
        }
        ContextStep { reply: refused("Unknown context operation"), saved: None }
    }
}

// ---- laws ----

/// While the store is off, every operation is refused, and nothing is saved.
pub proof fn law_disabled_store_refuses(
    store: ContextManagementStore,
    operation: Seq<char>,
    input: ContextInput,
    files: Seq<WindowFile>,
    notes: NotesFile,
)
    requires
        !store.enabled,
    ensures
        expected_reply(store, operation, input, files, notes) is Err,
        refusal(store, input) is Some,
{
}

/// A path that leads out of the notes is never written, whatever the text.
pub proof fn law_bad_paths_are_refused(appends: bool, notes: Seq<NotePair>, input: ContextInput)
    requires
        input.path is Some,
        !good_path(local_path(input.path->0@)),
    ensures
        write_note(appends, notes, input) is Err,
        read_reply(notes, input) is Err,
{
}

/// What a write saves, a read under the same path gives back: all lines, up to
/// the limit of an answer.
pub proof fn law_saved_note_is_read_back(
    notes: Seq<NotePair>,
    written: ContextInput,
    asked: ContextInput,
)
    requires
        write_note(false, notes, written) is Ok,
        asked.path == written.path,
        asked.start_line is None,
        asked.stop_line is None,
        asked.offset_chars is None,
        asked.limit_chars is None,
    ensures
        read_reply(write_note(false, notes, written)->Ok_0, asked) == Ok::<ReplyView, Seq<char>>(
            ReplyView::Text {
                path: local_path(written.path->0@),
                text: sliced(joined(lines(written.text->0@), "\n"@), 0, 8000),
                start_line: 1,
                total_lines: lines(written.text->0@).len(),
            },
        ),
{
    let path = local_path(written.path->0@);
    law_written_note_is_read_back(notes, path, written.text->0@, path);
    let ls = lines(written.text->0@);
    assert(ls.subrange(0, ls.len() as int) =~= ls);
}

/// Appending leaves the old text in front of the new one, and other notes as
/// they were.
pub proof fn law_append_keeps_text(notes: Seq<NotePair>, input: ContextInput, other: Seq<char>)
    requires
        write_note(true, notes, input) is Ok,
    ensures
        ({
            let path = local_path(input.path->0@);
            let after = write_note(true, notes, input)->Ok_0;
            &&& note_text(notes, path) matches Some(t) ==> note_text(after, path) == Some(
                t + input.text->0@,
            )
            &&& other != path ==> note_text(after, other) == note_text(notes, other)
        }),
{
    let path = local_path(input.path->0@);
    law_written_note_is_read_back(
        notes,
        path,
        new_text(true, notes, path, input.text->0@),
        other,
    );
}

/// A snapshot never overwrites archived items: those that a window holds stay
/// at the front of what is written there.
pub proof fn law_snapshots_keep_archived_items(
    store: ContextManagementStore,
    items: Seq<HistoryItem>,
    archived: Vec<HistoryItem>,
    id: Seq<char>,
    r: Result<SnapshotStep, String>,
)
    requires
        store.snapshot_post(store.generation, items, WindowFile::Items(archived), id, r),
        r matches Ok(SnapshotStep::Write { path: _ }),
    ensures
        item_views(archived@).is_prefix_of(item_views(items)),
{
}

/// What an earlier turn asked for is refused.
pub proof fn law_earlier_turns_change_nothing(
    store: ContextManagementStore,
    generation: u64,
    items: Seq<HistoryItem>,
    previous: WindowFile,
    id: Seq<char>,
    r: Result<SnapshotStep, String>,
)
    requires
        generation != store.generation,
        store.snapshot_post(generation, items, previous, id, r),
    ensures
        r is Err,
{
}

/// A window under an id that was not in use becomes current in place of the one
/// that was, and every earlier window stays.
pub proof fn law_rotation_opens_another_window(
    store: ContextManagementStore,
    next: Manifest,
    id: Seq<char>,
    earlier: Seq<char>,
)
    requires
        store.wf(),
        !in_list(store.manifest.windows@, id),
        next.current@ == id,
        views(next.windows@) == views(store.manifest.windows@).push(id),
        in_list(store.manifest.windows@, earlier),
    ensures
        next.current@ != store.manifest.current@,
        in_list(next.windows@, earlier),
{
    lemma_in_list(store.manifest.windows@, earlier);
    lemma_in_list(next.windows@, earlier);
    let held = views(store.manifest.windows@);
    let k = choose|k: int| 0 <= k < held.len() && held[k] == earlier;
    assert(views(next.windows@)[k] == earlier);
}

} // verus!

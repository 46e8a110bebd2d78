//! What a session asks of its context windows and notes, and what it is answered.
use vstd::prelude::*;
#[allow(unused_imports)]
use vstd::string::*;

#[allow(unused_imports)]
use crate::context::history::{ItemRow, RowView, item_id, row_views};
#[allow(unused_imports)]
use crate::context::notes::{Note};
#[allow(unused_imports)]
use crate::json::{
    JsonValue, array_json, bool_text, field, field_views, json_array, json_object, json_quoted,
    object_json, quote_json, value_views,
};
#[allow(unused_imports)]
use crate::text::{decimal, option_view};

verus! {

/// What an operation is asked with.
#[derive(Debug)]
pub struct ContextInput {
    pub agent_name: Option<String>,
    pub window_id: Option<String>,
    pub item_id: Option<String>,
    pub role: Option<String>,
    pub tool_name: Option<String>,
    pub query: Option<String>,
    pub limit: Option<usize>,
    pub recent_first: Option<bool>,
    pub max_chars_per_item: Option<usize>,
    pub offset_chars: Option<usize>,
    pub limit_chars: Option<usize>,
    pub path: Option<String>,
    pub text: Option<String>,
    pub prefix: Option<String>,
    pub path_prefix: Option<String>,
    pub start_line: Option<i64>,
    pub stop_line: Option<i64>,
    pub max_results: Option<usize>,
    pub max_files: Option<usize>,
    pub max_matches_per_file: Option<usize>,
}

/// Nothing is given.
pub open spec fn no_input() -> ContextInput {
    ContextInput {
        agent_name: None,
        window_id: None,
        item_id: None,
        role: None,
        tool_name: None,
        query: None,
        limit: None,
        recent_first: None,
        max_chars_per_item: None,
        offset_chars: None,
        limit_chars: None,
        path: None,
        text: None,
        prefix: None,
        path_prefix: None,
        start_line: None,
        stop_line: None,
        max_results: None,
        max_files: None,
        max_matches_per_file: None,
    }
}

impl Default for ContextInput {
    fn default() -> (r: ContextInput)
        ensures
            r == no_input(),
    {
        ContextInput {
            agent_name: None,
            window_id: None,
            item_id: None,
            role: None,
            tool_name: None,
            query: None,
            limit: None,
            recent_first: None,
            max_chars_per_item: None,
            offset_chars: None,
            limit_chars: None,
            path: None,
            text: None,
            prefix: None,
            path_prefix: None,
            start_line: None,
            stop_line: None,
            max_results: None,
            max_files: None,
            max_matches_per_file: None,
        }
    }
}

/// What the file of the notes gives.
#[derive(Debug)]
pub enum NotesFile {
    /// The notes; none where there is no file.
    Notes(Vec<Note>),
    /// The file cannot be read.
    Broken(String),
}

/// A window as it is listed.
#[derive(Debug, Clone, PartialEq, Eq)]
pub struct WindowRow {
    pub window_id: String,
    pub item_count: usize,
    pub current: bool,
}

/// A line of a note that holds what was asked for.
#[derive(Debug, Clone, PartialEq, Eq)]
pub struct LineMatch {
    pub line: usize,
    pub text: String,
}

/// A note as it is listed.
#[derive(Debug, Clone, PartialEq, Eq)]
pub enum FileRow {
    Listed { path: String, bytes: usize },
    Matched { path: String, matches: Vec<LineMatch> },
}

/// What an operation answers.
#[derive(Debug)]
pub enum ContextReply {
    /// A new window will start.
    Accepted,
    Remaining(u64),
    Windows(Vec<WindowRow>),
    /// The window is unknown.
    NoItems,
    Items { rows: Vec<ItemRow>, truncated: bool },
    Saved { path: String },
    Text { path: String, text: String, start_line: usize, total_lines: usize },
    Files { rows: Vec<FileRow>, truncated: bool },
}

/// What a listed window holds.
#[verifier::ext_equal]
pub struct WindowRowView {
    pub window_id: Seq<char>,
    pub item_count: nat,
    pub current: bool,
}

/// What a matching line holds.
pub type LineView = (nat, Seq<char>);

/// What a listed note holds.
#[verifier::ext_equal]
pub enum FileRowView {
    Listed { path: Seq<char>, bytes: nat },
    Matched { path: Seq<char>, matches: Seq<LineView> },
}

/// What an answer holds.
#[verifier::ext_equal]
pub enum ReplyView {
    Accepted,
    Remaining(u64),
    Windows(Seq<WindowRowView>),
    NoItems,
    Items { rows: Seq<RowView>, truncated: bool },
    Saved { path: Seq<char> },
    Text { path: Seq<char>, text: Seq<char>, start_line: int, total_lines: nat },
    Files { rows: Seq<FileRowView>, truncated: bool },
}

impl View for WindowRow {
    type V = WindowRowView;

    open spec fn view(&self) -> WindowRowView {
        WindowRowView {
            window_id: self.window_id@,
            item_count: self.item_count as nat,
            current: self.current,
        }
    }
}

/// What some matching lines hold.
pub open spec fn line_views(s: Seq<LineMatch>) -> Seq<LineView> {
    s.map_values(|m: LineMatch| (m.line as nat, m.text@))
}

impl View for FileRow {
    type V = FileRowView;

    open spec fn view(&self) -> FileRowView {
        match *self {
            FileRow::Listed { path, bytes } => FileRowView::Listed {
                path: path@,
                bytes: bytes as nat,
            },
            FileRow::Matched { path, matches } => FileRowView::Matched {
                path: path@,
                matches: line_views(matches@),
            },
        }
    }
}

/// What some listed windows hold.
pub open spec fn window_views(s: Seq<WindowRow>) -> Seq<WindowRowView> {
    s.map_values(|r: WindowRow| r@)
}

/// What some listed notes hold.
pub open spec fn file_views(s: Seq<FileRow>) -> Seq<FileRowView> {
    s.map_values(|r: FileRow| r@)
}

impl View for ContextReply {
    type V = ReplyView;

    open spec fn view(&self) -> ReplyView {
        match *self {
            ContextReply::Accepted => ReplyView::Accepted,
            ContextReply::Remaining(n) => ReplyView::Remaining(n),
            ContextReply::Windows(rows) => ReplyView::Windows(window_views(rows@)),
            ContextReply::NoItems => ReplyView::NoItems,
            ContextReply::Items { rows, truncated } => ReplyView::Items {
                rows: row_views(rows@),
                truncated,
            },
            ContextReply::Saved { path } => ReplyView::Saved { path: path@ },
            ContextReply::Text { path, text, start_line, total_lines } => ReplyView::Text {
                path: path@,
                text: text@,
                start_line: start_line as int,
                total_lines: total_lines as nat,
            },
            ContextReply::Files { rows, truncated } => ReplyView::Files {
                rows: file_views(rows@),
                truncated,
            },
        }
    }
}

// ---- answers as JSON ----

/// The value of an optional text.
pub open spec fn optional_text_json(s: Option<Seq<char>>) -> Seq<char> {
    match s {
        Some(t) => json_quoted(t),
        None => "null"@,
    }
}

fn optional_json(s: &Option<String>) -> (r: JsonValue)
    ensures
        r@ == optional_text_json(option_view(*s)),
{
    match s {
        Some(t) => quote_json(t.as_str()),
        None => JsonValue::null(),
    }
}

/// The value of a told item.
pub open spec fn item_row_json(r: RowView) -> Seq<char> {
    json_object(
        seq![
            ("window_id"@, json_quoted(r.window_id)),
            ("item_id"@, json_quoted(r.item_id)),
            ("role"@, json_quoted(r.role)),
            ("tool_name"@, optional_text_json(r.tool_name)),
            ("content"@, json_quoted(r.content)),
        ],
    )
}

fn item_json(r: &ItemRow) -> (v: JsonValue)
    ensures
        v@ == item_row_json(r@),
{
    let fields: Vec<(String, JsonValue)> = vec![
        field("window_id", quote_json(r.window_id.as_str())),
        field("item_id", quote_json(r.item_id.as_str())),
        field("role", quote_json(r.role.as_str())),
        field("tool_name", optional_json(&r.tool_name)),
        field("content", quote_json(r.content.as_str())),
    ];
    proof {
        assert(field_views(fields@) =~= seq![
            ("window_id"@, json_quoted(r@.window_id)),
            ("item_id"@, json_quoted(r@.item_id)),
            ("role"@, json_quoted(r@.role)),
            ("tool_name"@, optional_text_json(r@.tool_name)),
            ("content"@, json_quoted(r@.content)),
        ]);
    }
    object_json(&fields)
}

/// The value of a matching line.
pub open spec fn line_json(m: LineView) -> Seq<char> {
    json_object(seq![("line"@, decimal(m.0)), ("text"@, json_quoted(m.1))])
}

/// The value of a listed note.
pub open spec fn file_row_json(r: FileRowView) -> Seq<char> {
    match r {
        FileRowView::Listed { path, bytes } => json_object(
            seq![("path"@, json_quoted(path)), ("bytes"@, decimal(bytes))],
        ),
        FileRowView::Matched { path, matches } => json_object(
            seq![
                ("path"@, json_quoted(path)),
                ("matches"@, json_array(matches.map_values(|m: LineView| line_json(m)))),
            ],
        ),
    }
}

fn lines_json(matches: &Vec<LineMatch>) -> (v: JsonValue)
    ensures
        v@ == json_array(line_views(matches@).map_values(|m: LineView| line_json(m))),
{
    let mut out: Vec<JsonValue> = Vec::new();
    let mut i: usize = 0;
    while i < matches.len()
        invariant
            i <= matches@.len(),
            out@.len() == i,
            forall|j: int| 0 <= j < i ==> (#[trigger] out@[j])@ == line_json(
                line_views(matches@)[j],
            ),
        decreases matches.len() - i,
    {
        let fields: Vec<(String, JsonValue)> = vec![
            field("line", JsonValue::of_number(matches[i].line as u64)),
            field("text", quote_json(matches[i].text.as_str())),
        ];
        proof {
            assert(field_views(fields@) =~= seq![
                ("line"@, decimal(matches@[i as int].line as nat)),
                ("text"@, json_quoted(matches@[i as int].text@)),
            ]);
        }
        out.push(object_json(&fields));
        i += 1;
    }
    proof {
        assert(value_views(out@) =~= line_views(matches@).map_values(|m: LineView| line_json(m)));
    }
    array_json(&out)
}

fn file_json(r: &FileRow) -> (v: JsonValue)
    ensures
        v@ == file_row_json(r@),
{
    match r {
        FileRow::Listed { path, bytes } => {
            let fields: Vec<(String, JsonValue)> = vec![
                field("path", quote_json(path.as_str())),
                field("bytes", JsonValue::of_number(*bytes as u64)),
            ];
            proof {
                assert(field_views(fields@) =~= seq![
                    ("path"@, json_quoted(path@)),
                    ("bytes"@, decimal(*bytes as nat)),
                ]);
            }
            object_json(&fields)
        },
        FileRow::Matched { path, matches } => {
            let fields: Vec<(String, JsonValue)> = vec![
                field("path", quote_json(path.as_str())),
                field("matches", lines_json(matches)),
            ];
            proof {
                assert(field_views(fields@) =~= seq![
                    ("path"@, json_quoted(path@)),
                    (
                        "matches"@,
                        json_array(line_views(matches@).map_values(|m: LineView| line_json(m))),
                    ),
                ]);
            }
            object_json(&fields)
        },
    }
}

/// The values of some told items.
pub open spec fn item_rows_json(s: Seq<RowView>) -> Seq<Seq<char>> {
    s.map_values(|r: RowView| item_row_json(r))
}

/// The values of some listed notes.
pub open spec fn file_rows_json(s: Seq<FileRowView>) -> Seq<Seq<char>> {
    s.map_values(|r: FileRowView| file_row_json(r))
}

/// The value of a listed window.
pub open spec fn window_row_json(r: WindowRowView) -> Seq<char> {
    json_object(
        seq![
            ("window_id"@, json_quoted(r.window_id)),
            ("item_count"@, decimal(r.item_count)),
            ("current"@, bool_text(r.current)),
        ],
    )
}

/// The values of some told items.
pub fn items_json(rows: &Vec<ItemRow>) -> (v: Vec<JsonValue>)
    ensures
        value_views(v@) == item_rows_json(row_views(rows@)),
{
    let mut out: Vec<JsonValue> = Vec::new();
    let mut i: usize = 0;
    while i < rows.len()
        invariant
            i <= rows@.len(),
            out@.len() == i,
            forall|j: int| 0 <= j < i ==> (#[trigger] out@[j])@ == item_row_json(rows@[j]@),
        decreases rows.len() - i,
    {
        out.push(item_json(&rows[i]));
        i += 1;
    }
    proof {
        assert(value_views(out@) =~= item_rows_json(row_views(rows@)));
    }
    out
}

/// The values of some listed notes.
pub fn files_json(rows: &Vec<FileRow>) -> (v: Vec<JsonValue>)
    ensures
        value_views(v@) == file_rows_json(file_views(rows@)),
{
    let mut out: Vec<JsonValue> = Vec::new();
    let mut i: usize = 0;
    while i < rows.len()
        invariant
            i <= rows@.len(),
            out@.len() == i,
            forall|j: int| 0 <= j < i ==> (#[trigger] out@[j])@ == file_row_json(rows@[j]@),
        decreases rows.len() - i,
    {
        out.push(file_json(&rows[i]));
        i += 1;
    }
    proof {
        assert(value_views(out@) =~= file_rows_json(file_views(rows@)));
    }
    out
}

fn windows_json(rows: &Vec<WindowRow>) -> (v: Vec<JsonValue>)
    ensures
        value_views(v@) == window_views(rows@).map_values(|r: WindowRowView| window_row_json(r)),
{
    let mut out: Vec<JsonValue> = Vec::new();
    let mut i: usize = 0;
    while i < rows.len()
        invariant
            i <= rows@.len(),
            out@.len() == i,
            forall|j: int| 0 <= j < i ==> (#[trigger] out@[j])@ == window_row_json(rows@[j]@),
        decreases rows.len() - i,
    {
        let fields: Vec<(String, JsonValue)> = vec![
            field("window_id", quote_json(rows[i].window_id.as_str())),
            field("item_count", JsonValue::of_number(rows[i].item_count as u64)),
            field("current", JsonValue::of_bool(rows[i].current)),
        ];
        proof {
            assert(field_views(fields@) =~= seq![
                ("window_id"@, json_quoted(rows@[i as int].window_id@)),
                ("item_count"@, decimal(rows@[i as int].item_count as nat)),
                ("current"@, bool_text(rows@[i as int].current)),
            ]);
        }
        out.push(object_json(&fields));
        i += 1;
    }
    proof {
        assert(value_views(out@) =~= window_views(rows@).map_values(
            |r: WindowRowView| window_row_json(r),
        ));
    }
    out
}

/// The value of an answer.
pub open spec fn reply_json(r: ReplyView) -> Seq<char> {
    match r {
        ReplyView::Accepted => json_object(
            seq![("accepted"@, "true"@), ("starts_after_current_tool_batch"@, "true"@)],
        ),
        ReplyView::Remaining(n) => json_object(seq![("tokens_left"@, decimal(n as nat))]),
        ReplyView::Windows(rows) => json_object(
            seq![
                (
                    "windows"@,
                    json_array(rows.map_values(|r: WindowRowView| window_row_json(r))),
                ),
            ],
        ),
        ReplyView::NoItems => json_object(seq![("items"@, json_array(Seq::empty()))]),
        ReplyView::Items { rows, truncated } => json_object(
            seq![
                ("items"@, json_array(item_rows_json(rows))),
                ("truncated"@, bool_text(truncated)),
            ],
        ),
        ReplyView::Saved { path } => json_object(
            seq![("path"@, json_quoted(path)), ("saved"@, "true"@)],
        ),
        ReplyView::Text { path, text, start_line, total_lines } => json_object(
            seq![
                ("path"@, json_quoted(path)),
                ("text"@, json_quoted(text)),
                ("start_line"@, decimal(start_line as nat)),
                ("total_lines"@, decimal(total_lines)),
            ],
        ),
        ReplyView::Files { rows, truncated } => json_object(
            seq![
                ("files"@, json_array(file_rows_json(rows))),
                ("truncated"@, bool_text(truncated)),
            ],
        ),
    }
}

impl ContextReply {
    /// The value of the answer.
    pub fn to_json(&self) -> (r: JsonValue)
        ensures
            r@ == reply_json(self@),
    {
        match self {
            ContextReply::Accepted => {
                let fields: Vec<(String, JsonValue)> = vec![
                    field("accepted", JsonValue::of("true")),
                    field("starts_after_current_tool_batch", JsonValue::of("true")),
                ];
                proof {
                    assert(field_views(fields@) =~= seq![
                        ("accepted"@, "true"@),
                        ("starts_after_current_tool_batch"@, "true"@),
                    ]);
                }
                object_json(&fields)
            },
            ContextReply::Remaining(n) => {
                let fields: Vec<(String, JsonValue)> = vec![
                    field("tokens_left", JsonValue::of_number(*n)),
                ];
                proof {
                    assert(field_views(fields@) =~= seq![("tokens_left"@, decimal(*n as nat))]);
                }
                object_json(&fields)
            },
            ContextReply::Windows(rows) => {
                let fields: Vec<(String, JsonValue)> = vec![
                    field("windows", array_json(&windows_json(rows))),
                ];
                proof {
                    assert(field_views(fields@) =~= seq![
                        (
                            "windows"@,
                            json_array(
                                window_views(rows@).map_values(
                                    |r: WindowRowView| window_row_json(r),
                                ),
                            ),
                        ),
                    ]);
                }
                object_json(&fields)
            },
            ContextReply::NoItems => {
                let none: Vec<JsonValue> = Vec::new();
                let fields: Vec<(String, JsonValue)> = vec![field("items", array_json(&none))];
                proof {
                    assert(value_views(none@) =~= Seq::<Seq<char>>::empty());
                    assert(field_views(fields@) =~= seq![("items"@, json_array(Seq::empty()))]);
                }
                object_json(&fields)
            },
            ContextReply::Items { rows, truncated } => {
                let fields: Vec<(String, JsonValue)> = vec![
                    field("items", array_json(&items_json(rows))),
                    field("truncated", JsonValue::of_bool(*truncated)),
                ];
                proof {
                    assert(field_views(fields@) =~= seq![
                        ("items"@, json_array(item_rows_json(row_views(rows@)))),
                        ("truncated"@, bool_text(*truncated)),
                    ]);
                }
                object_json(&fields)
            },
            ContextReply::Saved { path } => {
                let fields: Vec<(String, JsonValue)> = vec![
                    field("path", quote_json(path.as_str())),
                    field("saved", JsonValue::of("true")),
                ];
                proof {
                    assert(field_views(fields@) =~= seq![
                        ("path"@, json_quoted(path@)),
                        ("saved"@, "true"@),
                    ]);
                }
                object_json(&fields)
            },
            ContextReply::Text { path, text, start_line, total_lines } => {
                let fields: Vec<(String, JsonValue)> = vec![
                    field("path", quote_json(path.as_str())),
                    field("text", quote_json(text.as_str())),
                    field("start_line", JsonValue::of_number(*start_line as u64)),
                    field("total_lines", JsonValue::of_number(*total_lines as u64)),
                ];
                proof {
                    assert(field_views(fields@) =~= seq![
                        ("path"@, json_quoted(path@)),
                        ("text"@, json_quoted(text@)),
                        ("start_line"@, decimal(*start_line as nat)),
                        ("total_lines"@, decimal(*total_lines as nat)),
                    ]);
                }
                object_json(&fields)
            },
            ContextReply::Files { rows, truncated } => {
                let fields: Vec<(String, JsonValue)> = vec![
                    field("files", array_json(&files_json(rows))),
                    field("truncated", JsonValue::of_bool(*truncated)),
                ];
                proof {
                    assert(field_views(fields@) =~= seq![
                        ("files"@, json_array(file_rows_json(file_views(rows@)))),
                        ("truncated"@, bool_text(*truncated)),
                    ]);
                }
                object_json(&fields)
            },
        }
    }
}

} // verus!

//! The history of a session, window by window.
use vstd::prelude::*;
#[allow(unused_imports)]
use vstd::string::*;

#[allow(unused_imports)]
use crate::json::{JsonValue, value_views};
#[allow(unused_imports)]
use crate::text::{
    byte_count, byte_len, cat3, contains_text, copy_option, decimal, decimal_text, has_part,
    option_view, same_text, slice_chars, sliced,
};

verus! {

/// How many bytes the rows of an answer may take.
pub const MAX_ROW_BYTES: usize = 60_000;

/// An item of the history.
#[derive(Debug, Clone, PartialEq, Eq)]
pub struct HistoryItem {
    pub role: String,
    pub content: String,
    pub tool_name: Option<String>,
}

/// What an item holds.
#[verifier::ext_equal]
pub struct ItemView {
    pub role: Seq<char>,
    pub content: Seq<char>,
    pub tool_name: Option<Seq<char>>,
}

impl View for HistoryItem {
    type V = ItemView;

    open spec fn view(&self) -> ItemView {
        ItemView {
            role: self.role@,
            content: self.content@,
            tool_name: option_view(self.tool_name),
        }
    }
}

/// What some items hold.
pub open spec fn item_views(s: Seq<HistoryItem>) -> Seq<ItemView> {
    s.map_values(|i: HistoryItem| i@)
}

fn same_option(a: &Option<String>, b: &Option<String>) -> (r: bool)
    ensures
        r == (option_view(*a) == option_view(*b)),
{
    match (a, b) {
        (Some(x), Some(y)) => same_text(x.as_str(), y.as_str()),
        (None, None) => true,
        _ => false,
    }
}

/// Whether some items begin with others.
pub fn begins_with(items: &[HistoryItem], first: &[HistoryItem]) -> (r: bool)
    ensures
        r == item_views(first@).is_prefix_of(item_views(items@)),
{
    if first.len() > items.len() {
        return false;
    }
    let mut i: usize = 0;
    while i < first.len()
        invariant
            i <= first@.len() <= items@.len(),
            forall|j: int| 0 <= j < i ==> (#[trigger] first@[j])@ == items@[j]@,
        decreases first.len() - i,
    {
        let a: &HistoryItem = &items[i];
        let b: &HistoryItem = &first[i];
        if !(same_text(a.role.as_str(), b.role.as_str()) && same_text(
            a.content.as_str(),
            b.content.as_str(),
        ) && same_option(&a.tool_name, &b.tool_name)) {
            proof {
                assert(item_views(first@)[i as int] != item_views(items@)[i as int]);
                if item_views(first@).is_prefix_of(item_views(items@)) {
                    assert(item_views(items@).subrange(0, first@.len() as int)[i as int]
                        == item_views(items@)[i as int]);
                }
            }
            return false;
        }
        i += 1;
    }
    proof {
        assert(item_views(first@) =~= item_views(items@).subrange(0, first@.len() as int));
    }
    true
}

/// What the file of a window gives.
#[derive(Debug)]
pub enum WindowFile {
    /// There is no file.
    Missing,
    Items(Vec<HistoryItem>),
    /// The file cannot be read.
    Broken(String),
}

// ---- choosing items ----

/// A number within bounds.
pub open spec fn clamped(n: int, low: int, high: int) -> int {
    if n < low {
        low
    } else if n > high {
        high
    } else {
        n
    }
}

/// Brings a number within bounds.
pub fn clamp(n: usize, low: usize, high: usize) -> (r: usize)
    ensures
        r == clamped(n as int, low as int, high as int),
{
    if n < low {
        low
    } else if n > high {
        high
    } else {
        n
    }
}

/// An optional number, or another.
pub open spec fn number_or(n: Option<usize>, other: usize) -> usize {
    match n {
        Some(v) => v,
        None => other,
    }
}

/// Which items are asked for, and how much of each.
#[derive(Debug)]
pub struct ItemQuery {
    pub item_id: Option<String>,
    pub role: Option<String>,
    pub tool_name: Option<String>,
    /// Whether the content must hold the query.
    pub searches: bool,
    pub query: Option<String>,
    pub offset_chars: usize,
    pub limit_chars: usize,
    pub limit: usize,
    pub recent_first: bool,
}

/// An item as it is told.
#[derive(Debug, Clone, PartialEq, Eq)]
pub struct ItemRow {
    pub window_id: String,
    pub item_id: String,
    pub role: String,
    pub tool_name: Option<String>,
    pub content: String,
}

/// What a told item holds.
#[verifier::ext_equal]
pub struct RowView {
    pub window_id: Seq<char>,
    pub item_id: Seq<char>,
    pub role: Seq<char>,
    pub tool_name: Option<Seq<char>>,
    pub content: Seq<char>,
}

impl View for ItemRow {
    type V = RowView;

    open spec fn view(&self) -> RowView {
        RowView {
            window_id: self.window_id@,
            item_id: self.item_id@,
            role: self.role@,
            tool_name: option_view(self.tool_name),
            content: self.content@,
        }
    }
}

/// What some told items hold.
pub open spec fn row_views(s: Seq<ItemRow>) -> Seq<RowView> {
    s.map_values(|r: ItemRow| r@)
}

/// The id of an item: its window and its place there.
pub open spec fn item_id(window: Seq<char>, index: nat) -> Seq<char> {
    window + ":"@ + decimal(index)
}

/// An optional text, or the empty one.
pub open spec fn text_or_empty(s: Option<String>) -> Seq<char> {
    match s {
        Some(t) => t@,
        None => ""@,
    }
}

/// An optional text, or the empty one.
pub fn or_empty(s: &Option<String>) -> (r: &str)
    ensures
        r@ == text_or_empty(*s),
{
    match s {
        Some(t) => t.as_str(),
        None => "",
    }
}

/// An item is asked for.
pub open spec fn wanted(item: ItemView, id: Seq<char>, q: ItemQuery) -> bool {
    &&& q.item_id matches Some(i) ==> i@ == id
    &&& q.role matches Some(r) ==> r@ == item.role
    &&& q.tool_name matches Some(t) ==> item.tool_name == Some(t@)
    &&& q.searches ==> has_part(item.content, text_or_empty(q.query))
}

/// An item as it is told.
pub open spec fn told(window: Seq<char>, index: nat, item: ItemView, q: ItemQuery) -> RowView {
    RowView {
        window_id: window,
        item_id: item_id(window, index),
        role: item.role,
        tool_name: item.tool_name,
        content: sliced(item.content, q.offset_chars as int, q.limit_chars as int),
    }
}

/// The `k`th of `n` places, from the front or from the back.
pub open spec fn place(k: int, n: int, recent_first: bool) -> int {
    if recent_first {
        n - 1 - k
    } else {
        k
    }
}

/// The items asked for among the first `k` of a window, in the order in which
/// the window is walked.
pub open spec fn picked(window: Seq<char>, items: Seq<HistoryItem>, q: ItemQuery, k: nat) -> Seq<
    RowView,
>
    decreases k,
{
    if k == 0 {
        Seq::empty()
    } else {
        let before = picked(window, items, q, (k - 1) as nat);
        let index = place(k - 1, items.len() as int, q.recent_first);
        if wanted(items[index]@, item_id(window, index as nat), q) {
            before.push(told(window, index as nat, items[index]@, q))
        } else {
            before
        }
    }
}

/// The items of a file.
pub open spec fn items_in(file: WindowFile) -> Seq<HistoryItem> {
    match file {
        WindowFile::Items(items) => items@,
        _ => Seq::empty(),
    }
}

/// The items asked for in the windows at some places, from the `j`th place on,
/// after those that were found before. The walk ends at the limit, or at a file
/// that cannot be read.
pub open spec fn found(
    windows: Seq<String>,
    files: Seq<WindowFile>,
    places: Seq<usize>,
    q: ItemQuery,
    j: nat,
    before: Seq<RowView>,
) -> Result<Seq<RowView>, Seq<char>>
    decreases places.len() - j,
{
    if j >= places.len() {
        Ok(before)
    } else {
        let w = places[j as int] as int;
        match files[w] {
            WindowFile::Broken(e) => Err(e@),
            file => {
                let items = items_in(file);
                let all = before + picked(windows[w]@, items, q, items.len());
                if all.len() >= q.limit {
                    Ok(all.take(q.limit as int))
                } else {
                    found(windows, files, places, q, (j + 1) as nat, all)
                }
            },
        }
    }
}

fn is_wanted(item: &HistoryItem, id: &str, q: &ItemQuery) -> (r: bool)
    ensures
        r == wanted(item@, id@, *q),
{
    if let Some(i) = &q.item_id {
        if !same_text(i.as_str(), id) {
            return false;
        }
    }
    if let Some(role) = &q.role {
        if !same_text(role.as_str(), item.role.as_str()) {
            return false;
        }
    }
    if let Some(name) = &q.tool_name {
        match &item.tool_name {
            Some(t) => {
                if !same_text(t.as_str(), name.as_str()) {
                    return false;
                }
            },
            None => {
                return false;
            },
        }
    }
    !q.searches || contains_text(item.content.as_str(), or_empty(&q.query))
}

proof fn lemma_picked_grows(window: Seq<char>, items: Seq<HistoryItem>, q: ItemQuery, k: nat, n: nat)
    requires
        k <= n,
    ensures
        picked(window, items, q, k).is_prefix_of(picked(window, items, q, n)),
    decreases n - k,
{
    if k < n {
        lemma_picked_grows(window, items, q, k, (n - 1) as nat);
        let a = picked(window, items, q, k);
        let b = picked(window, items, q, (n - 1) as nat);
        let c = picked(window, items, q, n);
        assert(c.subrange(0, a.len() as int) =~= b.subrange(0, a.len() as int));
    } else {
        let a = picked(window, items, q, k);
        assert(a.subrange(0, a.len() as int) =~= a);
    }
}

/// Adds the items asked for in a window to those found before, up to the limit.
/// Says whether the limit is reached.
fn search_window(window: &str, items: &Vec<HistoryItem>, q: &ItemQuery, rows: &mut Vec<ItemRow>) -> (r:
    bool)
    requires
        old(rows)@.len() < q.limit,
    ensures
        ({
            let all = row_views(old(rows)@) + picked(window@, items@, *q, items@.len());
            if all.len() >= q.limit {
                r && row_views(final(rows)@) == all.take(q.limit as int)
            } else {
                !r && row_views(final(rows)@) == all
            }
        }),
{
    let ghost before = row_views(rows@);
    let n: usize = items.len();
    let mut k: usize = 0;
    proof {
        assert(before + picked(window@, items@, *q, 0) =~= before);
    }
    while k < n
        invariant
            k <= n == items@.len(),
            rows@.len() < q.limit,
            before == row_views(old(rows)@),
            row_views(rows@) == before + picked(window@, items@, *q, k as nat),
        decreases n - k,
    {
        let index: usize = if q.recent_first {
            n - 1 - k
        } else {
            k
        };
        let item: &HistoryItem = &items[index];
        let id: String = cat3(window, ":", decimal_text(index as u64).as_str());
        proof {
            assert(index == place(k as int, items@.len() as int, q.recent_first));
            assert(picked(window@, items@, *q, (k + 1) as nat) == (if wanted(
                item@,
                id@,
                *q,
            ) {
                picked(window@, items@, *q, k as nat).push(
                    told(window@, index as nat, item@, *q),
                )
            } else {
                picked(window@, items@, *q, k as nat)
            }));
        }
        if is_wanted(item, id.as_str(), q) {
            let ghost held = rows@;
            let row: ItemRow = ItemRow {
                window_id: window.to_owned(),
                item_id: id,
                role: item.role.clone(),
                tool_name: copy_option(&item.tool_name),
                content: slice_chars(item.content.as_str(), q.offset_chars, q.limit_chars),
            };
            rows.push(row);
            proof {
                assert(row@ == told(window@, index as nat, item@, *q));
                assert(row_views(rows@) =~= row_views(held).push(row@));
                assert(row_views(rows@) =~= before + picked(window@, items@, *q, (k + 1) as nat));
            }
            if rows.len() >= q.limit {
                proof {
                    lemma_picked_grows(window@, items@, *q, (k + 1) as nat, items@.len());
                    let part = picked(window@, items@, *q, (k + 1) as nat);
                    let whole = picked(window@, items@, *q, items@.len());
                    assert(whole.subrange(0, part.len() as int) == part);
                    assert(before + part =~= (before + whole).take(q.limit as int));
                }
                return true;
            }
        }
        k += 1;
    }
    false
}

/// The items asked for in the windows at some places.
pub fn search_windows(
    windows: &Vec<String>,
    files: &Vec<WindowFile>,
    places: &Vec<usize>,
    q: &ItemQuery,
) -> (r: Result<Vec<ItemRow>, String>)
    requires
        files@.len() == windows@.len(),
        forall|j: int| 0 <= j < places@.len() ==> (#[trigger] places@[j]) < windows@.len(),
        q.limit > 0,
    ensures
        match (r, found(windows@, files@, places@, *q, 0, Seq::empty())) {
            (Ok(rows), Ok(expected)) => row_views(rows@) == expected,
            (Err(e), Err(expected)) => e@ == expected,
            _ => false,
        },
{
    let mut rows: Vec<ItemRow> = Vec::new();
    let mut j: usize = 0;
    proof {
        assert(row_views(rows@) =~= Seq::<RowView>::empty());
    }
    while j < places.len()
        invariant
            j <= places@.len(),
            files@.len() == windows@.len(),
            forall|i: int| 0 <= i < places@.len() ==> (#[trigger] places@[i]) < windows@.len(),
            rows@.len() < q.limit,
            found(windows@, files@, places@, *q, 0, Seq::empty()) == found(
                windows@,
                files@,
                places@,
                *q,
                j as nat,
                row_views(rows@),
            ),
        decreases places.len() - j,
    {
        let w: usize = places[j];
        match &files[w] {
            WindowFile::Broken(e) => {
                return Err(e.clone());
            },
            WindowFile::Missing => {
                proof {
                    assert(row_views(rows@) + picked(
                        windows@[w as int]@,
                        Seq::empty(),
                        *q,
                        0,
                    ) =~= row_views(rows@));
                }
            },
            WindowFile::Items(items) => {
                if search_window(windows[w].as_str(), items, q, &mut rows) {
                    return Ok(rows);
                }
            },
        }
        j += 1;
    }
    Ok(rows)
}

// ---- bounding an answer ----

/// How many of the rows from the `k`th on fit, after some bytes; those before
/// count too.
pub open spec fn rows_fitting(rows: Seq<Seq<char>>, k: nat, bytes: nat) -> nat
    decreases rows.len() - k,
{
    if k >= rows.len() {
        rows.len()
    } else if bytes + byte_len(rows[k as int]) > MAX_ROW_BYTES {
        k
    } else {
        rows_fitting(rows, (k + 1) as nat, bytes + byte_len(rows[k as int]))
    }
}

/// How many rows fit into an answer.
pub fn bounded_rows(rows: &Vec<JsonValue>) -> (r: usize)
    ensures
        r == rows_fitting(value_views(rows@), 0, 0),
        r <= rows@.len(),
{
    let ghost all = value_views(rows@);
    let mut bytes: usize = 0;
    let mut k: usize = 0;
    while k < rows.len()
        invariant
            k <= rows@.len(),
            all == value_views(rows@),
            bytes <= MAX_ROW_BYTES,
            rows_fitting(all, 0, 0) == rows_fitting(all, k as nat, bytes as nat),
        decreases rows.len() - k,
    {
        let size: usize = byte_count(rows[k].text.as_str());
        proof {
            assert(all[k as int] == rows@[k as int].text@);
        }
        if size > MAX_ROW_BYTES - bytes {
            return k;
        }
        bytes += size;
        k += 1;
    }
    k
}

/// How many bytes some rows take.
pub open spec fn rows_bytes(rows: Seq<Seq<char>>) -> nat
    decreases rows.len(),
{
    if rows.len() == 0 {
        0
    } else {
        rows_bytes(rows.drop_last()) + byte_len(rows.last())
    }
}

proof fn lemma_fitting_rows(rows: Seq<Seq<char>>, k: nat)
    requires
        k <= rows.len(),
        rows_bytes(rows.take(k as int)) <= MAX_ROW_BYTES,
    ensures
        k <= rows_fitting(rows, k, rows_bytes(rows.take(k as int))) <= rows.len(),
        rows_bytes(
            rows.take(rows_fitting(rows, k, rows_bytes(rows.take(k as int))) as int),
        ) <= MAX_ROW_BYTES,
    decreases rows.len() - k,
{
    if k < rows.len() {
        let bytes = rows_bytes(rows.take(k as int));
        assert(rows.take(k as int + 1).drop_last() =~= rows.take(k as int));
        if bytes + byte_len(rows[k as int]) <= MAX_ROW_BYTES {
            lemma_fitting_rows(rows, (k + 1) as nat);
        }
    }
}

/// The rows of an answer never take more bytes than an answer may.
pub proof fn law_answers_are_bounded(rows: Seq<Seq<char>>)
    ensures
        rows_fitting(rows, 0, 0) <= rows.len(),
        rows_bytes(rows.take(rows_fitting(rows, 0, 0) as int)) <= MAX_ROW_BYTES,
{
    assert(rows_bytes(rows.take(0)) == 0);
    lemma_fitting_rows(rows, 0);
}

proof fn lemma_found_len(
    windows: Seq<String>,
    files: Seq<WindowFile>,
    places: Seq<usize>,
    q: ItemQuery,
    j: nat,
    before: Seq<RowView>,
)
    requires
        before.len() < q.limit,
    ensures
        found(windows, files, places, q, j, before) matches Ok(rows) ==> rows.len() <= q.limit,
    decreases places.len() - j,
{
    if j < places.len() {
        let w = places[j as int] as int;
        let items = items_in(files[w]);
        let all = before + picked(windows[w]@, items, q, items.len());
        if !(files[w] is Broken) && all.len() < q.limit {
            lemma_found_len(windows, files, places, q, (j + 1) as nat, all);
        }
    }
}

/// A search never tells more items than it may.
pub proof fn law_searches_keep_to_the_limit(
    windows: Seq<String>,
    files: Seq<WindowFile>,
    places: Seq<usize>,
    q: ItemQuery,
)
    requires
        q.limit > 0,
    ensures
        found(windows, files, places, q, 0, Seq::empty()) matches Ok(rows) ==> rows.len()
            <= q.limit,
{
    lemma_found_len(windows, files, places, q, 0, Seq::empty());
}

/// Every item that a window gives is one that was asked for.
pub proof fn law_told_items_were_asked_for(
    window: Seq<char>,
    items: Seq<HistoryItem>,
    q: ItemQuery,
    k: nat,
    i: int,
)
    requires
        k <= items.len(),
        0 <= i < picked(window, items, q, k).len(),
    ensures
        exists|n: int|
            0 <= n < items.len() && wanted(
                (#[trigger] items[n])@,
                item_id(window, n as nat),
                q,
            ) && picked(window, items, q, k)[i] == told(window, n as nat, items[n]@, q),
    decreases k,
{
    let before = picked(window, items, q, (k - 1) as nat);
    let index = place(k - 1, items.len() as int, q.recent_first);
    if i < before.len() {
        law_told_items_were_asked_for(window, items, q, (k - 1) as nat, i);
    } else {
        assert(wanted(items[index]@, item_id(window, index as nat), q));
    }
}

} // verus!

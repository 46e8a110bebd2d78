//! What is read from an answer of the Responses API.
use async_openai::types::responses as rs;
use vstd::prelude::*;
#[allow(unused_imports)]
use vstd::string::*;

#[allow(unused_imports)]
use crate::tool::{ErrorView, ToolError, execution_error, unauthorized};
#[allow(unused_imports)]
use crate::json::{JsonValue, field_of, json_field, json_string, string_of};
#[allow(unused_imports)]
use crate::headers::{pair_views};
#[allow(unused_imports)]
use crate::text::{cat2, cat4, in_list, list_holds, option_view, same_text, views};

verus! {

/// An annotation of a text.
#[derive(Debug, Clone)]
pub enum Annotation {
    /// A citation of a page, as a JSON object.
    UrlCitation(JsonValue),
    Other,
}

/// A part of a message.
#[derive(Debug, Clone)]
pub enum MessageContent {
    OutputText(Vec<Annotation>),
    Other,
}

/// An item of an answer.
#[derive(Debug, Clone)]
pub enum OutputItem {
    Message(Vec<MessageContent>),
    Other,
}

/// An answer of the Responses API.
#[derive(Debug, Clone)]
pub struct SearchResponse {
    /// The text of all messages, if there is any.
    pub text: Option<String>,
    pub output: Vec<OutputItem>,
}

/// What a part of a message holds: its annotations, those of other kinds as
/// none.
pub enum ContentView {
    OutputText(Seq<Option<Seq<char>>>),
    Other,
}

/// What an item holds.
pub enum OutputView {
    Message(Seq<ContentView>),
    Other,
}

/// What an answer holds.
pub struct ResponseView {
    pub text: Option<Seq<char>>,
    pub output: Seq<OutputView>,
}

impl View for Annotation {
    type V = Option<Seq<char>>;

    open spec fn view(&self) -> Option<Seq<char>> {
        match *self {
            Annotation::UrlCitation(v) => Some(v@),
            Annotation::Other => None,
        }
    }
}

impl View for MessageContent {
    type V = ContentView;

    open spec fn view(&self) -> ContentView {
        match *self {
            MessageContent::OutputText(v) => ContentView::OutputText(
                annotation_views(v@),
            ),
            MessageContent::Other => ContentView::Other,
        }
    }
}

impl View for OutputItem {
    type V = OutputView;

    open spec fn view(&self) -> OutputView {
        match *self {
            OutputItem::Message(v) => OutputView::Message(content_views(v@)),
            OutputItem::Other => OutputView::Other,
        }
    }
}

impl View for SearchResponse {
    type V = ResponseView;

    open spec fn view(&self) -> ResponseView {
        ResponseView {
            text: option_view(self.text),
            output: output_views(self.output@),
        }
    }
}

/// The answer that `async_openai` reads from some bytes, or why it reads none.
pub uninterp spec fn response_read(bytes: Seq<u8>) -> Result<ResponseView, Seq<char>>;

/// Calls `serde_json::from_slice` for an `async_openai` `Response` and moves its
/// parts; `Response::output_text` gives the text. The result is a function of
/// the bytes alone.
#[verifier::external_body]
fn read_response(bytes: &Vec<u8>) -> (r: Result<SearchResponse, String>)
    ensures
        match (r, response_read(bytes@)) {
            (Ok(a), Ok(b)) => a@ == b,
            (Err(a), Err(b)) => a@ == b,
            _ => false,
        },
{
    let r: rs::Response = serde_json::from_slice(bytes).map_err(|e| e.to_string())?;
    let output = r.output.iter().map(|i| match i {
        rs::OutputItem::Message(m) => OutputItem::Message(m.content.iter().map(|c| match c {
            rs::OutputMessageContent::OutputText(t) => MessageContent::OutputText(
                t.annotations.iter().map(|a| match a {
                    rs::Annotation::UrlCitation(u) => Annotation::UrlCitation(
                        JsonValue { text: serde_json::to_string(u).unwrap_or_default() }),
                    _ => Annotation::Other,
                }).collect()),
            _ => MessageContent::Other,
        }).collect()),
        _ => OutputItem::Other,
    }).collect();
    Ok(SearchResponse { text: r.output_text(), output })
}

// ---- citations ----

/// The title and the address of a citation, as far as it has them.
pub type CitationView = (Option<Seq<char>>, Option<Seq<char>>);

/// A citation of a page.
pub type Citation = (Option<String>, Option<String>);

/// What a citation holds.
pub open spec fn citation_view(c: Citation) -> CitationView {
    (option_view(c.0), option_view(c.1))
}

/// What some citations hold.
pub open spec fn citation_views(s: Seq<Citation>) -> Seq<CitationView> {
    s.map_values(|c: Citation| citation_view(c))
}

/// The text under a name of an object, if there is one.
pub open spec fn text_field(v: Seq<char>, name: Seq<char>) -> Option<Seq<char>> {
    match json_field(v, name) {
        Some(f) => json_string(f),
        None => None,
    }
}

fn read_text_field(v: &JsonValue, name: &str) -> (r: Option<String>)
    ensures
        option_view(r) == text_field(v@, name@),
{
    match field_of(v, name) {
        Some(f) => string_of(&f),
        None => None,
    }
}

/// The citations among the first `k` annotations.
pub open spec fn annotation_citations(s: Seq<Option<Seq<char>>>, k: nat) -> Seq<CitationView>
    decreases k,
{
    if k == 0 {
        Seq::empty()
    } else {
        let before = annotation_citations(s, (k - 1) as nat);
        match s[k - 1] {
            Some(v) => before.push((text_field(v, "title"@), text_field(v, "url"@))),
            None => before,
        }
    }
}

/// The citations among the first `k` parts of a message.
pub open spec fn content_citations(s: Seq<ContentView>, k: nat) -> Seq<CitationView>
    decreases k,
{
    if k == 0 {
        Seq::empty()
    } else {
        let before = content_citations(s, (k - 1) as nat);
        match s[k - 1] {
            ContentView::OutputText(v) => before + annotation_citations(v, v.len()),
            ContentView::Other => before,
        }
    }
}

/// The citations among the first `k` items of an answer.
pub open spec fn item_citations(s: Seq<OutputView>, k: nat) -> Seq<CitationView>
    decreases k,
{
    if k == 0 {
        Seq::empty()
    } else {
        let before = item_citations(s, (k - 1) as nat);
        match s[k - 1] {
            OutputView::Message(v) => before + content_citations(v, v.len()),
            OutputView::Other => before,
        }
    }
}

/// The citations of an answer, in order.
pub open spec fn citations_of(r: ResponseView) -> Seq<CitationView> {
    item_citations(r.output, r.output.len())
}

/// What some annotations hold.
pub open spec fn annotation_views(s: Seq<Annotation>) -> Seq<Option<Seq<char>>> {
    s.map_values(|a: Annotation| a@)
}

/// What some parts of a message hold.
pub open spec fn content_views(s: Seq<MessageContent>) -> Seq<ContentView> {
    s.map_values(|c: MessageContent| c@)
}

/// What some items hold.
pub open spec fn output_views(s: Seq<OutputItem>) -> Seq<OutputView> {
    s.map_values(|i: OutputItem| i@)
}

fn add_annotations(annotations: &Vec<Annotation>, out: &mut Vec<Citation>)
    ensures
        citation_views(final(out)@) == citation_views(old(out)@) + annotation_citations(
            annotation_views(annotations@),
            annotations@.len(),
        ),
{
    let ghost before = citation_views(out@);
    let mut k: usize = 0;
    proof {
        assert(before + annotation_citations(annotation_views(annotations@), 0) =~= before);
    }
    while k < annotations.len()
        invariant
            k <= annotations@.len(),
            citation_views(out@) == before + annotation_citations(
                annotation_views(annotations@),
                k as nat,
            ),
        decreases annotations.len() - k,
    {
        let ghost held = out@;
        match &annotations[k] {
            Annotation::UrlCitation(v) => {
                let c: Citation = (read_text_field(v, "title"), read_text_field(v, "url"));
                out.push(c);
                proof {
                    assert(citation_views(out@) =~= citation_views(held).push(citation_view(c)));
                    assert(citation_views(out@) =~= before + annotation_citations(
                        annotation_views(annotations@),
                        (k + 1) as nat,
                    ));
                }
            },
            Annotation::Other => {},
        }
        k += 1;
    }
}

fn add_contents(contents: &Vec<MessageContent>, out: &mut Vec<Citation>)
    ensures
        citation_views(final(out)@) == citation_views(old(out)@) + content_citations(
            content_views(contents@),
            contents@.len(),
        ),
{
    let ghost before = citation_views(out@);
    let mut k: usize = 0;
    proof {
        assert(before + content_citations(content_views(contents@), 0) =~= before);
    }
    while k < contents.len()
        invariant
            k <= contents@.len(),
            citation_views(out@) == before + content_citations(content_views(contents@), k as nat),
        decreases contents.len() - k,
    {
        match &contents[k] {
            MessageContent::OutputText(v) => {
                add_annotations(v, out);
                proof {
                    assert(citation_views(out@) =~= before + content_citations(
                        content_views(contents@),
                        (k + 1) as nat,
                    ));
                }
            },
            MessageContent::Other => {},
        }
        k += 1;
    }
}

fn all_citations(response: &SearchResponse) -> (r: Vec<Citation>)
    ensures
        citation_views(r@) == citations_of(response@),
{
    let mut out: Vec<Citation> = Vec::new();
    let mut k: usize = 0;
    proof {
        assert(citation_views(out@) =~= Seq::<CitationView>::empty());
    }
    while k < response.output.len()
        invariant
            k <= response.output@.len(),
            citation_views(out@) == item_citations(output_views(response.output@), k as nat),
        decreases response.output.len() - k,
    {
        match &response.output[k] {
            OutputItem::Message(v) => {
                add_contents(v, &mut out);
            },
            OutputItem::Other => {},
        }
        k += 1;
    }
    out
}

/// The addresses of some citations, each once, in order of first appearance.
pub open spec fn distinct_urls(s: Seq<CitationView>) -> Seq<Seq<char>>
    decreases s.len(),
{
    if s.len() == 0 {
        Seq::empty()
    } else {
        let before = distinct_urls(s.drop_last());
        match s.last().1 {
            Some(url) => if before.contains(url) {
                before
            } else {
                before.push(url)
            },
            None => before,
        }
    }
}

/// Reads the addresses that an answer cites, each once, in order of first
/// appearance.
pub fn extract_citations(response: &SearchResponse) -> (r: Vec<String>)
    ensures
        views(r@) == distinct_urls(citations_of(response@)),
{
    let all: Vec<Citation> = all_citations(response);
    let ghost cs = citation_views(all@);
    let mut out: Vec<String> = Vec::new();
    let mut i: usize = 0;
    proof {
        assert(views(out@) =~= distinct_urls(cs.take(0)));
    }
    while i < all.len()
        invariant
            i <= all@.len(),
            cs == citation_views(all@),
            views(out@) == distinct_urls(cs.take(i as int)),
        decreases all.len() - i,
    {
        let ghost held = out@;
        proof {
            assert(cs.take(i as int + 1).drop_last() =~= cs.take(i as int));
            assert(cs[i as int] == citation_view(all@[i as int]));
        }
        if let Some(url) = &all[i].1 {
            let known: bool = list_holds(&out, url.as_str());
            proof {
                lemma_in_views(out@, url@);
            }
            if !known {
                out.push(url.clone());
                proof {
                    assert(views(out@) =~= views(held).push(url@));
                }
            }
        }
        i += 1;
    }
    proof {
        assert(cs.take(i as int) =~= cs);
    }
    out
}

/// A text stands in a list exactly where it stands among what the list holds.
pub proof fn lemma_in_views(list: Seq<String>, s: Seq<char>)
    ensures
        in_list(list, s) == views(list).contains(s),
{
    if in_list(list, s) {
        let i = choose|i: int| 0 <= i < list.len() && (#[trigger] list[i])@ == s;
        assert(views(list)[i] == s);
    }
    if views(list).contains(s) {
        let i = choose|i: int| 0 <= i < views(list).len() && views(list)[i] == s;
        assert(list[i]@ == s);
    }
}

/// Some pair has an address.
pub open spec fn has_url(s: Seq<(Seq<char>, Seq<char>)>, url: Seq<char>) -> bool {
    exists|i: int| 0 <= i < s.len() && (#[trigger] s[i]).1 == url
}

/// The titles and addresses of some citations, each address once, in order of
/// first appearance; without those that have no address. A missing title is
/// empty.
pub open spec fn distinct_pairs(s: Seq<CitationView>) -> Seq<(Seq<char>, Seq<char>)>
    decreases s.len(),
{
    if s.len() == 0 {
        Seq::empty()
    } else {
        let before = distinct_pairs(s.drop_last());
        match s.last().1 {
            Some(url) => if url.len() == 0 || has_url(before, url) {
                before
            } else {
                before.push(
                    (
                        match s.last().0 {
                            Some(t) => t,
                            None => ""@,
                        },
                        url,
                    ),
                )
            },
            None => before,
        }
    }
}

/// Whether some pair has an address.
pub fn knows_url(pairs: &Vec<(String, String)>, url: &str) -> (r: bool)
    ensures
        r == has_url(pair_views(pairs@), url@),
{
    let mut i: usize = 0;
    while i < pairs.len()
        invariant
            i <= pairs@.len(),
            forall|j: int| 0 <= j < i ==> (#[trigger] pairs@[j]).1@ != url@,
        decreases pairs.len() - i,
    {
        if same_text(pairs[i].1.as_str(), url) {
            proof {
                assert(pair_views(pairs@)[i as int].1 == url@);
            }
            return true;
        }
        i += 1;
    }
    proof {
        assert forall|j: int| 0 <= j < pair_views(pairs@).len() implies (
        #[trigger] pair_views(pairs@)[j]).1 != url@ by {
            assert(pairs@[j].1@ != url@);
        }
    }
    false
}

/// Reads the titles and addresses that an answer cites, each address once, in
/// order of first appearance.
pub fn extract_citation_pairs(response: &SearchResponse) -> (r: Vec<(String, String)>)
    ensures
        pair_views(r@) == distinct_pairs(citations_of(response@)),
{
    let all: Vec<Citation> = all_citations(response);
    let ghost cs = citation_views(all@);
    let mut out: Vec<(String, String)> = Vec::new();
    let mut i: usize = 0;
    proof {
        assert(pair_views(out@) =~= distinct_pairs(cs.take(0)));
    }
    while i < all.len()
        invariant
            i <= all@.len(),
            cs == citation_views(all@),
            pair_views(out@) == distinct_pairs(cs.take(i as int)),
        decreases all.len() - i,
    {
        let ghost held = out@;
        proof {
            assert(cs.take(i as int + 1).drop_last() =~= cs.take(i as int));
            assert(cs[i as int] == citation_view(all@[i as int]));
        }
        if let Some(url) = &all[i].1 {
            if !url.as_str().is_empty() && !knows_url(&out, url.as_str()) {
                let title: String = match &all[i].0 {
                    Some(t) => t.clone(),
                    None => "".to_owned(),
                };
                let pair: (String, String) = (title, url.clone());
                out.push(pair);
                proof {
                    assert(pair_views(out@) =~= pair_views(held).push((pair.0@, pair.1@)));
                }
            }
        }
        i += 1;
    }
    proof {
        assert(cs.take(i as int) =~= cs);
    }
    out
}

// ---- answers ----

/// The text of an answer, or that nothing was found.
pub open spec fn content_of(text: Option<Seq<char>>) -> Seq<char> {
    match text {
        Some(t) => t,
        None => "No search results found."@,
    }
}

/// The text and the cited addresses of an answer.
pub fn search_results(response: SearchResponse) -> (r: (String, Vec<String>))
    ensures
        r.0@ == content_of(option_view(response.text)),
        views(r.1@) == distinct_urls(citations_of(response@)),
{
    let citations: Vec<String> = extract_citations(&response);
    let content: String = match response.text {
        Some(t) => t,
        None => "No search results found.".to_owned(),
    };
    (content, citations)
}

/// The text and the cited titles and addresses of an answer.
pub fn titled_results(response: SearchResponse) -> (r: (String, Vec<(String, String)>))
    ensures
        r.0@ == content_of(option_view(response.text)),
        pair_views(r.1@) == distinct_pairs(citations_of(response@)),
{
    let pairs: Vec<(String, String)> = extract_citation_pairs(&response);
    let content: String = match response.text {
        Some(t) => t,
        None => "No search results found.".to_owned(),
    };
    (content, pairs)
}

/// What came back of a request.
#[derive(Debug)]
pub enum HttpReply {
    /// The request did not go through.
    Unsent { error: String },
    /// The status is no success. The body may have been unreadable.
    Refused { status: u16, status_text: String, body: Option<String> },
    /// The body could not be read.
    Unreadable { error: String },
    /// The body.
    Body(Vec<u8>),
}

/// The body of a refusal as it is told.
pub open spec fn told_body(body: Option<String>) -> Seq<char> {
    match body {
        Some(b) => b@,
        None => "Failed to read error body"@,
    }
}

/// The answer in a reply, or why a tool has none.
pub open spec fn answer_in(tool: Seq<char>, reply: HttpReply) -> Result<ResponseView, ErrorView> {
    match reply {
        HttpReply::Unsent { error } => Err(
            execution_error(tool, "HTTP request failed: "@ + error@),
        ),
        HttpReply::Refused { status, status_text, body } => Err(
            if status == 401 {
                unauthorized(
                    tool,
                    401,
                    "Responses API returned 401 Unauthorized: "@ + told_body(body),
                )
            } else {
                execution_error(
                    tool,
                    "Responses API returned "@ + status_text@ + ": "@ + told_body(body),
                )
            },
        ),
        HttpReply::Unreadable { error } => Err(
            execution_error(tool, "Failed to read response body: "@ + error@),
        ),
        HttpReply::Body(bytes) => match response_read(bytes@) {
            Ok(r) => Ok(r),
            Err(e) => Err(execution_error(tool, "Failed to parse response: "@ + e)),
        },
    }
}

/// Reads the answer in a reply.
pub fn read_answer(tool: &str, reply: HttpReply) -> (r: Result<SearchResponse, ToolError>)
    ensures
        match (r, answer_in(tool@, reply)) {
            (Ok(a), Ok(b)) => a@ == b,
            (Err(a), Err(b)) => a@ == b,
            _ => false,
        },
{
    match reply {
        HttpReply::Unsent { error } => Err(
            ToolError::execution(tool, cat2("HTTP request failed: ", error.as_str()).as_str()),
        ),
        HttpReply::Refused { status, status_text, body } => {
            let body: String = match body {
                Some(b) => b,
                None => "Failed to read error body".to_owned(),
            };
            if status == 401 {
                let message: String = cat2(
                    "Responses API returned 401 Unauthorized: ",
                    body.as_str(),
                );
                Err(ToolError::unauthorized(tool, 401, message.as_str()))
            } else {
                let message: String = cat4(
                    "Responses API returned ",
                    status_text.as_str(),
                    ": ",
                    body.as_str(),
                );
                Err(ToolError::execution(tool, message.as_str()))
            }
        },
        HttpReply::Unreadable { error } => Err(
            ToolError::execution(
                tool,
                cat2("Failed to read response body: ", error.as_str()).as_str(),
            ),
        ),
        HttpReply::Body(bytes) => match read_response(&bytes) {
            Ok(r) => Ok(r),
            Err(e) => Err(
                ToolError::execution(
                    tool,
                    cat2("Failed to parse response: ", e.as_str()).as_str(),
                ),
            ),
        },
    }
}

// ---- laws ----

/// No address is cited twice.
pub proof fn law_citations_are_distinct(s: Seq<CitationView>, i: int, j: int)
    requires
        0 <= i < j < distinct_urls(s).len(),
    ensures
        distinct_urls(s)[i] != distinct_urls(s)[j],
    decreases s.len(),
{
    if s.len() > 0 {
        let before = distinct_urls(s.drop_last());
        if j < before.len() {
            law_citations_are_distinct(s.drop_last(), i, j);
        } else {
            assert(before.contains(before[i]));
        }
    }
}

/// Every cited address is told.
pub proof fn law_citations_are_complete(s: Seq<CitationView>, i: int)
    requires
        0 <= i < s.len(),
        s[i].1 is Some,
    ensures
        distinct_urls(s).contains(s[i].1->0),
    decreases s.len(),
{
    let before = distinct_urls(s.drop_last());
    let all = distinct_urls(s);
    if i < s.len() - 1 {
        law_citations_are_complete(s.drop_last(), i);
        assert(s.drop_last()[i] == s[i]);
        let k = choose|k: int| 0 <= k < before.len() && before[k] == s[i].1->0;
        assert(all[k] == s[i].1->0);
    } else if !before.contains(s[i].1->0) {
        assert(all[before.len() as int] == s[i].1->0);
    }
}

/// No address is told twice with its title, and none is empty.
pub proof fn law_titled_citations_are_distinct(s: Seq<CitationView>, i: int, j: int)
    requires
        0 <= i < j < distinct_pairs(s).len(),
    ensures
        distinct_pairs(s)[i].1 != distinct_pairs(s)[j].1,
        distinct_pairs(s)[j].1.len() > 0,
    decreases s.len(),
{
    if s.len() > 0 {
        let before = distinct_pairs(s.drop_last());
        if j < before.len() {
            law_titled_citations_are_distinct(s.drop_last(), i, j);
        } else {
            assert(!has_url(before, s.last().1->0));
            assert(before[i].1 != s.last().1->0);
        }
    }
}

} // verus!

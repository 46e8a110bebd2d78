//! What holds of web search, said of what is asked and what is read from the answers.
use vstd::prelude::*;
#[allow(unused_imports)]
use vstd::string::*;

#[allow(unused_imports)]
use crate::headers::{header_map, header_name, header_value, without_slashes};
#[allow(unused_imports)]
use crate::text::{decimal, has_part, has_prefix, occurs_at, option_view};
#[allow(unused_imports)]
use crate::tool::{ErrorView, ToolError, execution_error, unauthorized};
#[allow(unused_imports)]
use crate::web_search::client::{
    WebSearchClient, base_headers, client_for, client_headers, extra_headers,
};
#[allow(unused_imports)]
use crate::web_search::perplexity::{
    PerplexitySearchRequest, PerplexitySearchResult, date_of, page_pairs, page_text, pages_text,
    perplexity_request, status_error,
};
#[allow(unused_imports)]
use crate::web_search::response::{
    CitationView, ContentView, HttpReply, OutputView, ResponseView, annotation_citations,
    answer_in, citations_of, content_citations, content_of, distinct_pairs, distinct_urls, has_url,
    item_citations, law_citations_are_complete, response_read, text_field, told_body,
};
#[allow(unused_imports)]
use crate::web_search::search::{
    HostedTool, PerplexityReply, ResponsesRequest, SearchReply, SearchRequest, told_pairs,
    told_urls,
};
#[allow(unused_imports)]
use crate::web_search::types::{ConfigView, without_secrets};

verus! {

// ---- requests ----

/// A search asks for what was searched: the query of the call, the domains that it
/// allows, and the model of the client.
pub proof fn law_searches_ask_the_query(
    client: &WebSearchClient,
    query: &str,
    allowed_domains: Option<Vec<String>>,
    r: SearchRequest,
)
    requires
        call_ensures(WebSearchClient::search_request, (client, query, allowed_domains), r),
    ensures
        client.backend is Responses ==> (r matches SearchRequest::Responses(request)
            && request.input@ == query@ && request.model@ == client.model@ && !request.store && (
        request.tool matches HostedTool::WebSearch { allowed_domains: domains } && domains
            == allowed_domains)),
        client.backend is Perplexity ==> (r matches SearchRequest::Perplexity(request)
            && request.query@ == query@ && request.search_domain_filter == allowed_domains
            && request.max_results == 10),
{
}

/// A search on X asks the query, and only a backend that has it can be asked.
pub proof fn law_x_searches_ask_the_query(
    client: &WebSearchClient,
    query: &str,
    r: Result<ResponsesRequest, ToolError>,
)
    requires
        call_ensures(WebSearchClient::x_search_request, (client, query), r),
    ensures
        r is Ok <==> client.backend is Responses,
        r matches Ok(request) ==> request.input@ == query@ && request.model@ == client.model@
            && request.tool is XSearch && !request.store,
{
}

/// Requests go to the backend's own path below the base.
pub proof fn law_requests_go_to_the_backend(client: &WebSearchClient, r: String)
    requires
        call_ensures(WebSearchClient::url, (client,), r),
    ensures
        client.backend is Responses ==> r@ == without_slashes(client.base_url@) + "/responses"@,
        client.backend is Perplexity ==> r@ == without_slashes(client.base_url@) + "/search"@,
{
}

/// A live key signs the request where there is one, and else the key of the client.
pub proof fn law_live_keys_go_first(
    client: &WebSearchClient,
    bearer: Option<&str>,
    r: Option<String>,
)
    requires
        call_ensures(WebSearchClient::authorization, (client, bearer), r),
    ensures
        bearer matches Some(key) ==> option_view(r) == Some("Bearer "@ + key@),
        bearer is None && header_map(client.headers).contains_key("authorization"@)
            ==> option_view(r) == Some(header_map(client.headers)["authorization"@]),
{
}

// ---- citations ----

/// Every page that an answer cites is found: each citation in the text of each message.
pub proof fn law_every_citation_is_read(
    r: ResponseView,
    i: int,
    j: int,
    k: int,
    v: Seq<ContentView>,
    a: Seq<Option<Seq<char>>>,
    x: Seq<char>,
)
    requires
        0 <= i < r.output.len(),
        r.output[i] == OutputView::Message(v),
        0 <= j < v.len(),
        v[j] == ContentView::OutputText(a),
        0 <= k < a.len(),
        a[k] == Some(x),
    ensures
        citations_of(r).contains((text_field(x, "title"@), text_field(x, "url"@))),
{
    lemma_annotations(a, a.len(), k, x);
    lemma_contents(v, v.len(), j, a, (text_field(x, "title"@), text_field(x, "url"@)));
    lemma_outputs(
        r.output,
        r.output.len(),
        i,
        v,
        (text_field(x, "title"@), text_field(x, "url"@)),
    );
}

proof fn lemma_annotations(a: Seq<Option<Seq<char>>>, n: nat, k: int, x: Seq<char>)
    requires
        0 <= k < n <= a.len(),
        a[k] == Some(x),
    ensures
        annotation_citations(a, n).contains((text_field(x, "title"@), text_field(x, "url"@))),
    decreases n,
{
    let c = (text_field(x, "title"@), text_field(x, "url"@));
    let before = annotation_citations(a, (n - 1) as nat);
    let after = annotation_citations(a, n);
    if k < n - 1 {
        lemma_annotations(a, (n - 1) as nat, k, x);
        let m = choose|m: int| 0 <= m < before.len() && before[m] == c;
        assert(after[m] == c);
    } else {
        assert(after[before.len() as int] == c);
    }
}

proof fn lemma_contents(
    v: Seq<ContentView>,
    n: nat,
    j: int,
    a: Seq<Option<Seq<char>>>,
    c: CitationView,
)
    requires
        0 <= j < n <= v.len(),
        v[j] == ContentView::OutputText(a),
        annotation_citations(a, a.len()).contains(c),
    ensures
        content_citations(v, n).contains(c),
    decreases n,
{
    let before = content_citations(v, (n - 1) as nat);
    let after = content_citations(v, n);
    if j < n - 1 {
        lemma_contents(v, (n - 1) as nat, j, a, c);
        let m = choose|m: int| 0 <= m < before.len() && before[m] == c;
        assert(after[m] == c);
    } else {
        let own = annotation_citations(a, a.len());
        let m = choose|m: int| 0 <= m < own.len() && own[m] == c;
        assert(after[before.len() + m] == c);
    }
}

proof fn lemma_outputs(
    s: Seq<OutputView>,
    n: nat,
    i: int,
    v: Seq<ContentView>,
    c: CitationView,
)
    requires
        0 <= i < n <= s.len(),
        s[i] == OutputView::Message(v),
        content_citations(v, v.len()).contains(c),
    ensures
        item_citations(s, n).contains(c),
    decreases n,
{
    let before = item_citations(s, (n - 1) as nat);
    let after = item_citations(s, n);
    if i < n - 1 {
        lemma_outputs(s, (n - 1) as nat, i, v, c);
        let m = choose|m: int| 0 <= m < before.len() && before[m] == c;
        assert(after[m] == c);
    } else {
        let own = content_citations(v, v.len());
        let m = choose|m: int| 0 <= m < own.len() && own[m] == c;
        assert(after[before.len() + m] == c);
    }
}

/// The addresses that are told are those that were cited.
pub proof fn law_told_addresses_were_cited(s: Seq<CitationView>, url: Seq<char>)
    ensures
        distinct_urls(s).contains(url) <==> exists|i: int|
            0 <= i < s.len() && (#[trigger] s[i]).1 == Some(url),
    decreases s.len(),
{
    if s.len() > 0 {
        let t = s.drop_last();
        law_told_addresses_were_cited(t, url);
        let before = distinct_urls(t);
        let after = distinct_urls(s);
        if exists|i: int| 0 <= i < s.len() && (#[trigger] s[i]).1 == Some(url) {
            let i = choose|i: int| 0 <= i < s.len() && (#[trigger] s[i]).1 == Some(url);
            law_citations_are_complete(s, i);
        }
        if after.contains(url) {
            let m = choose|m: int| 0 <= m < after.len() && after[m] == url;
            if m < before.len() {
                assert(before[m] == url);
                let i = choose|i: int| 0 <= i < t.len() && (#[trigger] t[i]).1 == Some(url);
                assert(s[i].1 == Some(url));
            } else {
                assert(s[s.len() - 1].1 == Some(url));
            }
        }
    }
}

/// Each cited address is told once with the title that it was first cited with.
pub proof fn law_addresses_keep_their_first_title(s: Seq<CitationView>, i: int)
    requires
        0 <= i < s.len(),
        s[i].1 is Some,
        s[i].1->0.len() > 0,
        forall|j: int| 0 <= j < i ==> (#[trigger] s[j]).1 != s[i].1,
    ensures
        distinct_pairs(s).contains(
            (
                match s[i].0 {
                    Some(t) => t,
                    None => ""@,
                },
                s[i].1->0,
            ),
        ),
    decreases s.len(),
{
    let t = s.drop_last();
    let before = distinct_pairs(t);
    let after = distinct_pairs(s);
    let pair = (
        match s[i].0 {
            Some(t) => t,
            None => ""@,
        },
        s[i].1->0,
    );
    if i < t.len() {
        assert forall|j: int| 0 <= j < i implies (#[trigger] t[j]).1 != t[i].1 by {
            assert(s[j] == t[j]);
        }
        law_addresses_keep_their_first_title(t, i);
        let m = choose|m: int| 0 <= m < before.len() && before[m] == pair;
        assert(after[m] == pair);
    } else {
        if has_url(before, pair.1) {
            let m = choose|m: int| 0 <= m < before.len() && (#[trigger] before[m]).1 == pair.1;
            lemma_pair_was_cited(t, m);
            let j = choose|j: int| 0 <= j < t.len() && (#[trigger] t[j]).1 == Some(before[m].1);
            assert(s[j] == t[j]);
        }
        assert(after[before.len() as int] == pair);
    }
}

proof fn lemma_pair_was_cited(s: Seq<CitationView>, m: int)
    requires
        0 <= m < distinct_pairs(s).len(),
    ensures
        exists|j: int| 0 <= j < s.len() && (#[trigger] s[j]).1 == Some(distinct_pairs(s)[m].1),
    decreases s.len(),
{
    let t = s.drop_last();
    let before = distinct_pairs(t);
    if m < before.len() {
        lemma_pair_was_cited(t, m);
        let j = choose|j: int| 0 <= j < t.len() && (#[trigger] t[j]).1 == Some(before[m].1);
        assert(s[j].1 == Some(before[m].1));
    } else {
        assert(s[s.len() - 1].1 == Some(distinct_pairs(s)[m].1));
    }
}

// ---- answers ----

/// An answer is what the service said: what its body reads as, and an error for
/// everything else, with the reason.
pub proof fn law_answers_are_read_from_the_body(tool: Seq<char>, reply: HttpReply)
    ensures
        answer_in(tool, reply) is Ok <==> (reply matches HttpReply::Body(bytes) && response_read(
            bytes@,
        ) is Ok),
        reply matches HttpReply::Body(bytes) ==> (response_read(bytes@) matches Ok(r) ==> answer_in(
            tool,
            reply,
        ) == Ok::<ResponseView, ErrorView>(r)),
        reply matches HttpReply::Refused { status, .. } ==> (status == 401 ==> answer_in(tool, reply)
            == Err::<ResponseView, ErrorView>(
            unauthorized(
                tool,
                401,
                "Responses API returned 401 Unauthorized: "@ + told_body(reply->body),
            ),
        )),
        forall|text: Option<Seq<char>>|
            text is Some ==> #[trigger] content_of(text) == text->0,
        forall|text: Option<Seq<char>>|
            text is None ==> #[trigger] content_of(text) == "No search results found."@,
{
}

/// What is told of a search: the text of the answer, and the addresses that it cites,
/// each once.
pub proof fn law_searches_tell_the_answer(reply: SearchReply)
    ensures
        reply matches SearchReply::Responses(http) ==> (answer_in("web_search"@, http) matches Ok(r)
            ==> (told_urls(reply) matches Ok((text, urls)) && (r.text is Some ==> text == r.text->0)
            && urls == distinct_urls(citations_of(r)))),
        reply matches SearchReply::Responses(http) ==> (answer_in("web_search"@, http) is Err
            <==> told_urls(reply) is Err),
        reply matches SearchReply::Perplexity(PerplexityReply::Pages(pages)) ==> (told_urls(reply)
            is Ok <==> pages@.len() > 0),
        reply matches SearchReply::Perplexity(PerplexityReply::Failed(f)) ==> told_urls(reply)
            is Err,
        told_urls(reply) matches Ok((text, urls)) ==> (told_pairs(reply) matches Ok((same, pairs))
            && same == text),
{
}

/// How a refusal is told: a wrong key, a limit, a bad request and a service that is down
/// are told apart by their status.
pub proof fn law_refusals_are_told_by_status(status: u16, had_filter: bool)
    ensures
        status == 401 || status == 403 ==> status_error(status, had_filter) == unauthorized(
            "web_search"@,
            status,
            "Perplexity web search authentication failed. Check the API key."@,
        ),
        status == 429 ==> status_error(status, had_filter) == execution_error(
            "web_search"@,
            "Perplexity web search is rate limited. Try again later."@,
        ),
        (status == 400 || status == 422) && had_filter ==> status_error(status, had_filter)
            == execution_error(
            "web_search"@,
            "Perplexity web search rejected the allowed_domains filter."@,
        ),
        (status == 400 || status == 422) && !had_filter ==> status_error(status, had_filter)
            == execution_error("web_search"@, "Perplexity web search rejected the request."@),
        500 <= status <= 599 ==> status_error(status, had_filter) == execution_error(
            "web_search"@,
            "Perplexity web search is temporarily unavailable."@,
        ),
{
}

// ---- pages ----

proof fn lemma_part(pre: Seq<char>, p: Seq<char>, post: Seq<char>)
    ensures
        has_part(pre + p + post, p),
{
    let s = pre + p + post;
    assert(s.subrange(pre.len() as int, (pre.len() + p.len()) as int) =~= p);
    assert(occurs_at(s, p, pre.len() as int));
}

proof fn lemma_behind(s: Seq<char>, post: Seq<char>, p: Seq<char>)
    requires
        has_part(s, p),
    ensures
        has_part(s + post, p),
{
    let i = choose|i: int| occurs_at(s, p, i);
    assert((s + post).subrange(i, i + p.len()) =~= s.subrange(i, i + p.len()));
    assert(occurs_at(s + post, p, i));
}

/// A page is told with its title, its address, its date and its snippet.
pub proof fn law_pages_are_told_whole(p: PerplexitySearchResult, index: nat)
    ensures
        has_part(page_text(p, index), "\nURL: "@ + p.url@),
        has_part(page_text(p, index), p.title@),
        has_part(page_text(p, index), "\nSnippet: "@ + p.snippet@),
        has_part(page_text(p, index), "\nDate: "@ + date_of(p)),
        p.date matches Some(d) ==> date_of(p) == d@,
        p.date is None ==> (p.last_updated matches Some(d) ==> date_of(p) == d@),
        has_prefix(page_text(p, index), "\n"@ + decimal(index + 1) + ". "@),
{
    let n = "\n"@ + decimal(index + 1) + ". "@;
    let s1 = n + p.title@;
    let s2 = s1 + "\nURL: "@;
    let s3 = s2 + p.url@;
    let s4 = s3 + "\nDate: "@;
    let s5 = s4 + date_of(p);
    let s6 = s5 + "\nSnippet: "@;
    let s7 = s6 + p.snippet@;
    let t = page_text(p, index);
    assert(t == s7 + "\n"@);
    assert(t.subrange(0, n.len() as int) =~= n);
    lemma_part(n, p.title@, "\nURL: "@);
    lemma_behind(s2, p.url@, p.title@);
    lemma_behind(s3, "\nDate: "@, p.title@);
    lemma_behind(s4, date_of(p), p.title@);
    lemma_behind(s5, "\nSnippet: "@, p.title@);
    lemma_behind(s6, p.snippet@, p.title@);
    lemma_behind(s7, "\n"@, p.title@);
    let u = "\nURL: "@ + p.url@;
    lemma_part(s1, u, "\nDate: "@);
    assert(s1 + u + "\nDate: "@ =~= s4);
    lemma_behind(s4, date_of(p), u);
    lemma_behind(s5, "\nSnippet: "@, u);
    lemma_behind(s6, p.snippet@, u);
    lemma_behind(s7, "\n"@, u);
    let d = "\nDate: "@ + date_of(p);
    lemma_part(s3, d, "\nSnippet: "@);
    assert(s3 + d + "\nSnippet: "@ =~= s6);
    lemma_behind(s6, p.snippet@, d);
    lemma_behind(s7, "\n"@, d);
    let sn = "\nSnippet: "@ + p.snippet@;
    lemma_part(s5, sn, "\n"@);
    assert(s5 + sn + "\n"@ =~= t);
}

/// Every page is told, in the order of its rank.
pub proof fn law_all_pages_are_told(s: Seq<PerplexitySearchResult>, k: nat, i: int)
    requires
        0 <= i < k <= s.len(),
    ensures
        has_part(pages_text(s, k), page_text(s[i], i as nat)),
    decreases k,
{
    let before = pages_text(s, (k - 1) as nat);
    let last = page_text(s[k - 1], (k - 1) as nat);
    if i < k - 1 {
        law_all_pages_are_told(s, (k - 1) as nat, i);
        lemma_behind(before, last, page_text(s[i], i as nat));
    } else {
        lemma_part(before, last, Seq::empty());
        assert(before + last + Seq::empty() =~= pages_text(s, k));
    }
}

/// Each address of a page is cited once, with the title of its first page.
pub proof fn law_pages_are_cited_once(s: Seq<PerplexitySearchResult>, k: nat)
    requires
        k <= s.len(),
    ensures
        forall|i: int|
            0 <= i < k ==> exists|m: int|
                0 <= m < page_pairs(s, k).len() && (#[trigger] page_pairs(s, k)[m]).1 == (
                #[trigger] s[i]).url@,
        forall|m: int, n: int|
            0 <= m < n < page_pairs(s, k).len() ==> (#[trigger] page_pairs(s, k)[m]).1 != (
            #[trigger] page_pairs(s, k)[n]).1,
        forall|m: int|
            0 <= m < page_pairs(s, k).len() ==> exists|i: int|
                0 <= i < k && (#[trigger] s[i]).url@ == (#[trigger] page_pairs(s, k)[m]).1
                    && s[i].title@ == page_pairs(s, k)[m].0,
    decreases k,
{
    if k > 0 {
        law_pages_are_cited_once(s, (k - 1) as nat);
        let before = page_pairs(s, (k - 1) as nat);
        let after = page_pairs(s, k);
        let last = s[k - 1];
        assert forall|i: int| 0 <= i < k implies exists|m: int|
            0 <= m < after.len() && (#[trigger] after[m]).1 == (#[trigger] s[i]).url@ by {
            if i < k - 1 {
                let m = choose|m: int|
                    0 <= m < before.len() && (#[trigger] before[m]).1 == s[i].url@;
                assert(after[m].1 == s[i].url@);
            } else if has_url(before, last.url@) {
                let m = choose|m: int|
                    0 <= m < before.len() && (#[trigger] before[m]).1 == last.url@;
                assert(after[m].1 == s[i].url@);
            } else {
                assert(after[before.len() as int].1 == s[i].url@);
            }
        }
        assert forall|m: int| 0 <= m < after.len() implies exists|i: int|
            0 <= i < k && (#[trigger] s[i]).url@ == (#[trigger] after[m]).1 && s[i].title@
                == after[m].0 by {
            if m < before.len() {
                assert(after[m] == before[m]);
                let i = choose|i: int|
                    0 <= i < k - 1 && (#[trigger] s[i]).url@ == before[m].1 && s[i].title@
                        == before[m].0;
                assert(s[i].url@ == after[m].1);
            } else {
                assert(s[k - 1].url@ == after[m].1);
            }
        }
        assert forall|m: int, n: int| 0 <= m < n < after.len() implies (#[trigger] after[m]).1 != (
        #[trigger] after[n]).1 by {
            if n < before.len() {
                assert(before[m].1 != before[n].1);
            } else {
                assert(after[m] == before[m]);
                if after[m].1 == after[n].1 {
                    assert(has_url(before, last.url@));
                }
            }
        }
    }
}

// ---- clients ----

/// A client is made for its own backend: a disabled setup makes none, and the others
/// keep their address and their model.
pub proof fn law_clients_keep_their_setup(c: WebSearchClient, config: ConfigView, has_provider: bool)
    requires
        client_for(c, config, has_provider),
    ensures
        !(config is Disabled),
        config matches ConfigView::Enabled { base_url, model, .. } ==> c.base_url@ == base_url
            && c.model@ == model && c.backend is Responses && c.asks_provider == has_provider,
        config matches ConfigView::Perplexity { base_url, .. } ==> c.base_url@ == base_url
            && c.backend is Perplexity && !c.asks_provider,
{
}

/// What a client may be shown of a setup has no keys, and all else.
pub proof fn law_shown_setups_keep_the_rest(c: ConfigView)
    ensures
        c matches ConfigView::Enabled { base_url, model, extra_headers, .. } ==> (without_secrets(c)
            matches ConfigView::Enabled {
            api_key: k,
            base_url: u,
            model: m,
            extra_headers: h,
            alpha_test_key: a,
        } && k == "***REDACTED***"@ && a is None && u == base_url && m == model && h
            == extra_headers),
        c matches ConfigView::Perplexity { base_url, .. } ==> (without_secrets(c)
            matches ConfigView::Perplexity { api_key: k, base_url: u } && k == "***REDACTED***"@ && u
            == base_url),
        c is Disabled ==> without_secrets(c) is Disabled,
{
}

/// The headers of a client: its key signs every request, the body is JSON, and each extra
/// header stands with its last value. A setup with a header that is none makes no client.
pub proof fn law_extra_headers_are_sent(
    base: Map<Seq<char>, Seq<char>>,
    extra: Seq<(Seq<char>, Seq<char>)>,
    k: nat,
)
    requires
        k <= extra.len(),
    ensures
        extra_headers(base, extra, k) is Ok <==> forall|i: int|
            0 <= i < k ==> header_name((#[trigger] extra[i]).0) is Some && header_value(extra[i].1),
        extra_headers(base, extra, k) matches Ok(m) ==> {
            &&& forall|i: int|
                0 <= i < k && (forall|j: int|
                    i < j < k ==> header_name((#[trigger] extra[j]).0) != header_name(extra[i].0))
                    ==> #[trigger] m.contains_key(header_name(extra[i].0)->0) && m[header_name(
                    extra[i].0,
                )->0] == extra[i].1
            &&& forall|name: Seq<char>|
                (forall|i: int| 0 <= i < k ==> header_name((#[trigger] extra[i]).0) != Some(name))
                    ==> #[trigger] m.contains_key(name) == base.contains_key(name) && (
                base.contains_key(name) ==> m[name] == base[name])
        },
    decreases k,
{
    if k > 0 {
        let l = (k - 1) as nat;
        law_extra_headers_are_sent(base, extra, l);
        let last = extra[k - 1];
        if extra_headers(base, extra, k) is Ok {
            let m = extra_headers(base, extra, k)->Ok_0;
            let b = extra_headers(base, extra, l)->Ok_0;
            assert(m == b.insert(header_name(last.0)->0, last.1));
            assert forall|i: int|
                0 <= i < k && (forall|j: int|
                    i < j < k ==> header_name((#[trigger] extra[j]).0) != header_name(
                        extra[i].0,
                    )) implies #[trigger] m.contains_key(header_name(extra[i].0)->0)
                && m[header_name(extra[i].0)->0] == extra[i].1 by {
                if i < l {
                    assert(header_name(extra[k - 1].0) != header_name(extra[i].0));
                    assert(b.contains_key(header_name(extra[i].0)->0));
                }
            }
            assert forall|name: Seq<char>|
                (forall|i: int| 0 <= i < k ==> header_name((#[trigger] extra[i]).0) != Some(
                    name,
                )) implies #[trigger] m.contains_key(name) == base.contains_key(name) && (
            base.contains_key(name) ==> m[name] == base[name]) by {
                assert(header_name(extra[k - 1].0) != Some(name));
                assert(b.contains_key(name) == base.contains_key(name));
            }
        }
    }
}

/// A client signs with its key and sends JSON, unless an extra header says otherwise.
pub proof fn law_clients_sign_with_their_key(c: ConfigView)
    ensures
        c is Disabled ==> client_headers(c) is Err,
        c matches ConfigView::Perplexity { api_key, .. } ==> (client_headers(c) is Ok
            <==> header_value("Bearer "@ + api_key)),
        c matches ConfigView::Perplexity { api_key, .. } ==> (client_headers(c) matches Ok(m)
            ==> m.contains_key("authorization"@) && m["authorization"@] == "Bearer "@ + api_key
            && m.contains_key("content-type"@) && m["content-type"@] == "application/json"@),
        c matches ConfigView::Enabled { api_key, extra_headers: extra, .. } ==> (client_headers(
            c,
        ) matches Ok(m) ==> {
            &&& header_value("Bearer "@ + api_key)
            &&& (forall|i: int|
                0 <= i < extra.len() ==> header_name((#[trigger] extra[i]).0) != Some(
                    "authorization"@,
                )) ==> m.contains_key("authorization"@) && m["authorization"@] == "Bearer "@
                + api_key
        }),
{
    reveal_strlit("authorization");
    reveal_strlit("content-type");
    assert("authorization"@.len() == 13 && "content-type"@.len() == 12);
    if let ConfigView::Enabled { api_key, extra_headers: extra, .. } = c {
        law_extra_headers_are_sent(base_headers(api_key), extra, extra.len());
        assert(base_headers(api_key).contains_key("authorization"@));
        if client_headers(c) is Ok {
            let m = client_headers(c)->Ok_0;
            if forall|i: int|
                0 <= i < extra.len() ==> header_name((#[trigger] extra[i]).0) != Some(
                    "authorization"@,
                ) {
                assert(m.contains_key("authorization"@) == base_headers(api_key).contains_key(
                    "authorization"@,
                ));
            }
        }
    }
}

/// A search of Perplexity asks the query in the domains it is held to, for ten pages.
pub proof fn law_pages_are_asked_for(
    query: &str,
    domains: Option<Vec<String>>,
    r: PerplexitySearchRequest,
)
    requires
        call_ensures(perplexity_request, (query, domains), r),
    ensures
        r.query@ == query@,
        r.search_domain_filter == domains,
        r.max_results == 10,
        r.max_tokens_per_page == 1024,
{
}

} // verus!

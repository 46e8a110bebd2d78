//! Searches: what a client asks for, and what it makes of the reply.
use vstd::prelude::*;
#[allow(unused_imports)]
use vstd::string::*;

#[allow(unused_imports)]
use crate::headers::{pair_views};
#[allow(unused_imports)]
use crate::text::{views};
#[allow(unused_imports)]
use crate::tool::{ErrorView, ToolError, execution_error};
#[allow(unused_imports)]
use crate::web_search::client::{WebSearchBackend, WebSearchClient};
#[allow(unused_imports)]
use crate::web_search::perplexity::{
    PERPLEXITY_MAX_RESULTS, PERPLEXITY_MEDIUM_CONTEXT_TOKENS_PER_PAGE, PerplexityFailure,
    PerplexityFormattedResults, PerplexitySearchRequest, PerplexitySearchResult, failure_error,
    format_perplexity_results, page_pairs, pages_text, pair_urls, perplexity_failure,
    perplexity_request,
};
#[allow(unused_imports)]
use crate::web_search::response::{
    HttpReply, answer_in, citations_of, content_of, distinct_pairs, distinct_urls, read_answer,
    search_results, titled_results,
};

verus! {

/// How long an answer of the Responses API may be.
pub const SEARCH_MAX_OUTPUT_TOKENS: u32 = 8192;

/// The tool that the Responses API is to use.
#[derive(Debug)]
pub enum HostedTool {
    WebSearch { allowed_domains: Option<Vec<String>> },
    XSearch,
}

/// A request to the Responses API. Its sampling settings are the sender's.
#[derive(Debug)]
pub struct ResponsesRequest {
    pub model: String,
    pub input: String,
    pub tool: HostedTool,
    pub store: bool,
    pub max_output_tokens: u32,
}

/// A request for a search.
#[derive(Debug)]
pub enum SearchRequest {
    Responses(ResponsesRequest),
    Perplexity(PerplexitySearchRequest),
}

/// What came back of a search by Perplexity.
#[derive(Debug)]
pub enum PerplexityReply {
    Failed(PerplexityFailure),
    Pages(Vec<PerplexitySearchResult>),
}

/// What came back of a search.
#[derive(Debug)]
pub enum SearchReply {
    Responses(HttpReply),
    Perplexity(PerplexityReply),
}

/// The pages that Perplexity found, or why there are none.
pub open spec fn pages_in(reply: PerplexityReply) -> Result<Seq<PerplexitySearchResult>, ErrorView> {
    match reply {
        PerplexityReply::Failed(failure) => Err(failure_error(failure)),
        PerplexityReply::Pages(pages) => if pages@.len() == 0 {
            Err(execution_error("web_search"@, "Perplexity web search returned no results."@))
        } else {
            Ok(pages@)
        },
    }
}

/// What a search tells: its text, and the titles and addresses that it cites.
pub open spec fn told_pairs(reply: SearchReply) -> Result<
    (Seq<char>, Seq<(Seq<char>, Seq<char>)>),
    ErrorView,
> {
    match reply {
        SearchReply::Perplexity(reply) => match pages_in(reply) {
            Ok(pages) => Ok((pages_text(pages, pages.len()), page_pairs(pages, pages.len()))),
            Err(e) => Err(e),
        },
        SearchReply::Responses(reply) => match answer_in("web_search"@, reply) {
            Ok(answer) => Ok((content_of(answer.text), distinct_pairs(citations_of(answer)))),
            Err(e) => Err(e),
        },
    }
}

/// What a search tells: its text, and the addresses that it cites.
pub open spec fn told_urls(reply: SearchReply) -> Result<(Seq<char>, Seq<Seq<char>>), ErrorView> {
    match reply {
        SearchReply::Perplexity(reply) => match pages_in(reply) {
            Ok(pages) => Ok(
                (pages_text(pages, pages.len()), pair_urls(page_pairs(pages, pages.len()))),
            ),
            Err(e) => Err(e),
        },
        SearchReply::Responses(reply) => match answer_in("web_search"@, reply) {
            Ok(answer) => Ok((content_of(answer.text), distinct_urls(citations_of(answer)))),
            Err(e) => Err(e),
        },
    }
}

fn found_pages(reply: PerplexityReply) -> (r: Result<PerplexityFormattedResults, ToolError>)
    ensures
        match (r, pages_in(reply)) {
            (Ok(f), Ok(pages)) => {
                &&& f.content@ == pages_text(pages, pages.len())
                &&& pair_views(f.citation_pairs@) == page_pairs(pages, pages.len())
                &&& views(f.citations@) == pair_urls(page_pairs(pages, pages.len()))
            },
            (Err(a), Err(b)) => a@ == b,
            _ => false,
        },
{
    match reply {
        PerplexityReply::Failed(failure) => Err(perplexity_failure(failure)),
        PerplexityReply::Pages(pages) => format_perplexity_results(pages),
    }
}

impl WebSearchClient {
    /// A request to the Responses API: nothing of it is stored there.
    pub open spec fn asks(&self, r: ResponsesRequest, query: Seq<char>) -> bool {
        &&& r.model@ == self.model@
        &&& r.input@ == query
        &&& !r.store
        &&& r.max_output_tokens == SEARCH_MAX_OUTPUT_TOKENS
    }

    /// What a search asks for, of the backend that the client has.
    pub fn search_request(&self, query: &str, allowed_domains: Option<Vec<String>>) -> (r:
        SearchRequest)
        ensures
            match (self.backend, r) {
                (WebSearchBackend::Responses, SearchRequest::Responses(request)) => {
                    &&& self.asks(request, query@)
                    &&& request.tool == (HostedTool::WebSearch { allowed_domains })
                },
                (WebSearchBackend::Perplexity, SearchRequest::Perplexity(request)) => {
                    &&& request.query@ == query@
                    &&& request.max_results == PERPLEXITY_MAX_RESULTS
                    &&& request.max_tokens_per_page == PERPLEXITY_MEDIUM_CONTEXT_TOKENS_PER_PAGE
                    &&& request.search_domain_filter == allowed_domains
                },
                _ => false,
            },
    {
        match self.backend {
            WebSearchBackend::Responses => SearchRequest::Responses(
                ResponsesRequest {
                    model: self.model.clone(),
                    input: query.to_owned(),
                    tool: HostedTool::WebSearch { allowed_domains },
                    store: false,
                    max_output_tokens: SEARCH_MAX_OUTPUT_TOKENS,
                },
            ),
            WebSearchBackend::Perplexity => SearchRequest::Perplexity(
                perplexity_request(query, allowed_domains),
            ),
        }
    }

    /// What a search of X asks for; Perplexity cannot search X.
    pub fn x_search_request(&self, query: &str) -> (r: Result<ResponsesRequest, ToolError>)
        ensures
            match r {
                Ok(request) => {
                    &&& self.backend is Responses
                    &&& self.asks(request, query@)
                    &&& request.tool is XSearch
                },
                Err(e) => self.backend is Perplexity && e@ == execution_error(
                    "x_search"@,
                    "X search requires the xAI backend"@,
                ),
            },
    {
        match self.backend {
            WebSearchBackend::Perplexity => Err(
                ToolError::execution("x_search", "X search requires the xAI backend"),
            ),
            WebSearchBackend::Responses => Ok(
                ResponsesRequest {
                    model: self.model.clone(),
                    input: query.to_owned(),
                    tool: HostedTool::XSearch,
                    store: false,
                    max_output_tokens: SEARCH_MAX_OUTPUT_TOKENS,
                },
            ),
        }
    }

    /// What a search tells: its text, and the addresses that it cites.
    pub fn search(&self, reply: SearchReply) -> (r: Result<(String, Vec<String>), ToolError>)
        ensures
            match (r, told_urls(reply)) {
                (Ok(a), Ok(b)) => a.0@ == b.0 && views(a.1@) == b.1,
                (Err(a), Err(b)) => a@ == b,
                _ => false,
            },
    {
        match reply {
            SearchReply::Perplexity(reply) => match found_pages(reply) {
                Ok(f) => Ok((f.content, f.citations)),
                Err(e) => Err(e),
            },
            SearchReply::Responses(reply) => match read_answer("web_search", reply) {
                Ok(answer) => Ok(search_results(answer)),
                Err(e) => Err(e),
            },
        }
    }

    /// What a search tells: its text, and the titles and addresses that it cites.
    pub fn search_with_titles(&self, reply: SearchReply) -> (r: Result<
        (String, Vec<(String, String)>),
        ToolError,
    >)
        ensures
            match (r, told_pairs(reply)) {
                (Ok(a), Ok(b)) => a.0@ == b.0 && pair_views(a.1@) == b.1,
                (Err(a), Err(b)) => a@ == b,
                _ => false,
            },
    {
        match reply {
            SearchReply::Perplexity(reply) => match found_pages(reply) {
                Ok(f) => Ok((f.content, f.citation_pairs)),
                Err(e) => Err(e),
            },
            SearchReply::Responses(reply) => match read_answer("web_search", reply) {
                Ok(answer) => Ok(titled_results(answer)),
                Err(e) => Err(e),
            },
        }
    }

    /// What a search of X tells: its text, and the addresses that it cites.
    pub fn x_search(&self, reply: HttpReply) -> (r: Result<(String, Vec<String>), ToolError>)
        ensures
            match (r, answer_in("x_search"@, reply)) {
                (Ok(a), Ok(answer)) => {
                    &&& a.0@ == content_of(answer.text)
                    &&& views(a.1@) == distinct_urls(citations_of(answer))
                },
                (Err(a), Err(b)) => a@ == b,
                _ => false,
            },
    {
        match read_answer("x_search", reply) {
            Ok(answer) => Ok(search_results(answer)),
            Err(e) => Err(e),
        }
    }
}

} // verus!

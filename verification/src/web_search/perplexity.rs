//! Answers of Perplexity.
use vstd::prelude::*;
#[allow(unused_imports)]
use vstd::string::*;

#[allow(unused_imports)]
use crate::headers::{pair_views};
#[allow(unused_imports)]
use crate::text::{cat3, cat5, decimal, decimal_text, views};
#[allow(unused_imports)]
use crate::tool::{ErrorView, ToolError, execution_error, unauthorized};
#[allow(unused_imports)]
use crate::web_search::response::{has_url, knows_url};

verus! {

/// How many results are asked for.
pub const PERPLEXITY_MAX_RESULTS: u8 = 10;

/// How much of a page is asked for.
pub const PERPLEXITY_MEDIUM_CONTEXT_TOKENS_PER_PAGE: u32 = 1024;

/// What is asked for.
#[derive(Debug)]
pub struct PerplexitySearchRequest {
    pub query: String,
    pub max_results: u8,
    pub max_tokens_per_page: u32,
    pub search_domain_filter: Option<Vec<String>>,
}

/// A page that was found.
#[derive(Debug, Clone)]
pub struct PerplexitySearchResult {
    pub title: String,
    pub url: String,
    pub snippet: String,
    pub date: Option<String>,
    pub last_updated: Option<String>,
}

/// What was found, as it is told.
#[derive(Debug)]
pub struct PerplexityFormattedResults {
    pub content: String,
    pub citations: Vec<String>,
    pub citation_pairs: Vec<(String, String)>,
}

/// What to ask for.
pub fn perplexity_request(query: &str, allowed_domains: Option<Vec<String>>) -> (r:
    PerplexitySearchRequest)
    ensures
        r.query@ == query@,
        r.max_results == PERPLEXITY_MAX_RESULTS,
        r.max_tokens_per_page == PERPLEXITY_MEDIUM_CONTEXT_TOKENS_PER_PAGE,
        r.search_domain_filter == allowed_domains,
{
    PerplexitySearchRequest {
        query: query.to_owned(),
        max_results: PERPLEXITY_MAX_RESULTS,
        max_tokens_per_page: PERPLEXITY_MEDIUM_CONTEXT_TOKENS_PER_PAGE,
        search_domain_filter: allowed_domains,
    }
}

/// What a status of Perplexity means: nothing that came with it is told.
pub open spec fn status_error(status: u16, had_domain_filter: bool) -> ErrorView {
    if status == 401 || status == 403 {
        unauthorized(
            "web_search"@,
            status,
            "Perplexity web search authentication failed. Check the API key."@,
        )
    } else if status == 429 {
        execution_error("web_search"@, "Perplexity web search is rate limited. Try again later."@)
    } else if status == 400 || status == 422 {
        execution_error(
            "web_search"@,
            if had_domain_filter {
                "Perplexity web search rejected the allowed_domains filter."@
            } else {
                "Perplexity web search rejected the request."@
            },
        )
    } else if 500 <= status <= 599 {
        execution_error("web_search"@, "Perplexity web search is temporarily unavailable."@)
    } else {
        execution_error(
            "web_search"@,
            "Perplexity web search failed with status "@ + decimal(status as nat) + "."@,
        )
    }
}

/// The error for a status that is no success.
pub fn perplexity_status_error(status: u16, had_domain_filter: bool) -> (r: ToolError)
    ensures
        r@ == status_error(status, had_domain_filter),
{
    if status == 401 || status == 403 {
        ToolError::unauthorized(
            "web_search",
            status,
            "Perplexity web search authentication failed. Check the API key.",
        )
    } else if status == 429 {
        ToolError::execution(
            "web_search",
            "Perplexity web search is rate limited. Try again later.",
        )
    } else if status == 400 || status == 422 {
        if had_domain_filter {
            ToolError::execution(
                "web_search",
                "Perplexity web search rejected the allowed_domains filter.",
            )
        } else {
            ToolError::execution("web_search", "Perplexity web search rejected the request.")
        }
    } else if status >= 500 && status <= 599 {
        ToolError::execution("web_search", "Perplexity web search is temporarily unavailable.")
    } else {
        ToolError::execution(
            "web_search",
            cat3(
                "Perplexity web search failed with status ",
                decimal_text(status as u64).as_str(),
                ".",
            ).as_str(),
        )
    }
}

/// What becomes of a request before its results are read.
#[derive(Debug, Clone, Copy, PartialEq, Eq, Structural)]
pub enum PerplexityFailure {
    /// The request did not go through.
    Unsent,
    /// The answer came with a status that is no success.
    Refused { status: u16, had_domain_filter: bool },
    /// The body could not be read.
    Unreadable,
    /// The body is not what was expected.
    Malformed,
}

/// The error for a failed request.
pub open spec fn failure_error(failure: PerplexityFailure) -> ErrorView {
    match failure {
        PerplexityFailure::Unsent => execution_error(
            "web_search"@,
            "Perplexity web search request failed. Try again."@,
        ),
        PerplexityFailure::Refused { status, had_domain_filter } => status_error(
            status,
            had_domain_filter,
        ),
        PerplexityFailure::Unreadable => execution_error(
            "web_search"@,
            "Perplexity web search returned an unreadable response."@,
        ),
        PerplexityFailure::Malformed => execution_error(
            "web_search"@,
            "Perplexity web search returned a malformed response."@,
        ),
    }
}

/// The error for a failed request: nothing of the answer is told.
pub fn perplexity_failure(failure: PerplexityFailure) -> (r: ToolError)
    ensures
        r@ == failure_error(failure),
{
    match failure {
        PerplexityFailure::Unsent => ToolError::execution(
            "web_search",
            "Perplexity web search request failed. Try again.",
        ),
        PerplexityFailure::Refused { status, had_domain_filter } => perplexity_status_error(
            status,
            had_domain_filter,
        ),
        PerplexityFailure::Unreadable => ToolError::execution(
            "web_search",
            "Perplexity web search returned an unreadable response.",
        ),
        PerplexityFailure::Malformed => ToolError::execution(
            "web_search",
            "Perplexity web search returned a malformed response.",
        ),
    }
}

/// The date of a page.
pub open spec fn date_of(p: PerplexitySearchResult) -> Seq<char> {
    match p.date {
        Some(d) => d@,
        None => match p.last_updated {
            Some(d) => d@,
            None => "Unavailable"@,
        },
    }
}

/// A page as it is told.
pub open spec fn page_text(p: PerplexitySearchResult, index: nat) -> Seq<char> {
    "\n"@ + decimal(index + 1) + ". "@ + p.title@ + "\nURL: "@ + p.url@ + "\nDate: "@ + date_of(p)
        + "\nSnippet: "@ + p.snippet@ + "\n"@
}

/// The first `k` pages as they are told.
pub open spec fn pages_text(s: Seq<PerplexitySearchResult>, k: nat) -> Seq<char>
    decreases k,
{
    if k == 0 {
        "Ranked web search results:\n"@
    } else {
        pages_text(s, (k - 1) as nat) + page_text(s[k - 1], (k - 1) as nat)
    }
}

/// The titles and addresses of the first `k` pages, each address once.
pub open spec fn page_pairs(s: Seq<PerplexitySearchResult>, k: nat) -> Seq<(Seq<char>, Seq<char>)>
    decreases k,
{
    if k == 0 {
        Seq::empty()
    } else {
        let before = page_pairs(s, (k - 1) as nat);
        if has_url(before, s[k - 1].url@) {
            before
        } else {
            before.push((s[k - 1].title@, s[k - 1].url@))
        }
    }
}

/// The addresses of some pairs.
pub open spec fn pair_urls(s: Seq<(Seq<char>, Seq<char>)>) -> Seq<Seq<char>> {
    s.map_values(|p: (Seq<char>, Seq<char>)| p.1)
}

/// Tells what was found, ranked, and cites each address once.
pub fn format_perplexity_results(results: Vec<PerplexitySearchResult>) -> (r: Result<
    PerplexityFormattedResults,
    ToolError,
>)
    ensures
        match r {
            Ok(f) => {
                &&& results@.len() > 0
                &&& f.content@ == pages_text(results@, results@.len())
                &&& pair_views(f.citation_pairs@) == page_pairs(results@, results@.len())
                &&& views(f.citations@) == pair_urls(page_pairs(results@, results@.len()))
            },
            Err(e) => results@.len() == 0 && e@ == execution_error(
                "web_search"@,
                "Perplexity web search returned no results."@,
            ),
        },
{
    if results.len() == 0 {
        return Err(ToolError::execution(
            "web_search",
            "Perplexity web search returned no results.",
        ));
    }
    let mut content: String = "Ranked web search results:\n".to_owned();
    let mut citations: Vec<String> = Vec::new();
    let mut pairs: Vec<(String, String)> = Vec::new();
    let mut i: usize = 0;
    proof {
        assert(pair_views(pairs@) =~= page_pairs(results@, 0));
        assert(views(citations@) =~= pair_urls(page_pairs(results@, 0)));
    }
    while i < results.len()
        invariant
            i <= results@.len(),
            content@ == pages_text(results@, i as nat),
            pair_views(pairs@) == page_pairs(results@, i as nat),
            views(citations@) == pair_urls(page_pairs(results@, i as nat)),
        decreases results.len() - i,
    {
        let p: &PerplexitySearchResult = &results[i];
        let date: &str = match &p.date {
            Some(d) => d.as_str(),
            None => match &p.last_updated {
                Some(d) => d.as_str(),
                None => "Unavailable",
            },
        };
        let mut page: String = cat5(
            "\n",
            decimal_text(i as u64 + 1).as_str(),
            ". ",
            p.title.as_str(),
            "\nURL: ",
        );
        page.append(p.url.as_str());
        page.append("\nDate: ");
        page.append(date);
        page.append("\nSnippet: ");
        page.append(p.snippet.as_str());
        page.append("\n");
        content.append(page.as_str());
        let ghost held = pairs@;
        let ghost cited = citations@;
        if !knows_url(&pairs, p.url.as_str()) {
            citations.push(p.url.clone());
            let pair: (String, String) = (p.title.clone(), p.url.clone());
            pairs.push(pair);
            proof {
                assert(pair_views(pairs@) =~= pair_views(held).push((pair.0@, pair.1@)));
                let before = page_pairs(results@, i as nat);
                let after = page_pairs(results@, (i + 1) as nat);
                assert(after == before.push((p.title@, p.url@)));
                assert(pair_urls(after) =~= pair_urls(before).push(p.url@));
                assert(views(citations@) =~= views(cited).push(p.url@));
            }
        }
        i += 1;
    }
    Ok(PerplexityFormattedResults { content, citations, citation_pairs: pairs })
}

} // verus!

//! The client of web search: what it sends, and to whom.
use vstd::prelude::*;
#[allow(unused_imports)]
use vstd::string::*;

#[allow(unused_imports)]
use crate::attribution::{Attribution401, ToolConsumer, emit_401, told_key};
#[allow(unused_imports)]
use crate::headers::{
    HEADER_ROOM, check_header_value, find_header, header_list, header_map, header_name,
    header_value, lemma_json_type, no_headers, pair_views, put_header, put_own_header,
    read_header_name, trim_slashes, without_slashes,
};
#[allow(unused_imports)]
use crate::text::{cat2, option_view};
#[allow(unused_imports)]
use crate::tool::{ErrorView, ToolError, execution_error};
#[allow(unused_imports)]
use crate::web_search::types::{ConfigView, WebSearchConfig};

verus! {

/// Who answers.
#[derive(Clone, Copy, Debug, PartialEq, Eq, Structural)]
pub enum WebSearchBackend {
    Responses,
    Perplexity,
}

/// The client.
#[derive(Debug)]
pub struct WebSearchClient {
    /// What every request carries.
    pub headers: reqwest::header::HeaderMap,
    pub base_url: String,
    pub model: String,
    pub backend: WebSearchBackend,
    /// Whether a provider of keys is asked before each request.
    pub asks_provider: bool,
}

/// The headers with a key.
pub open spec fn base_headers(api_key: Seq<char>) -> Map<Seq<char>, Seq<char>> {
    Map::empty().insert("content-type"@, "application/json"@).insert(
        "authorization"@,
        "Bearer "@ + api_key,
    )
}

/// The error of a setup with more headers than a client has room for.
pub open spec fn too_many_headers() -> ErrorView {
    execution_error("web_search"@, "Too many extra headers for web search"@)
}

/// The extra headers of a setup.
pub open spec fn extra_of(c: ConfigView) -> Seq<(Seq<char>, Seq<char>)> {
    match c {
        ConfigView::Enabled { extra_headers: extra, .. } => extra,
        _ => Seq::empty(),
    }
}

/// The headers with the first `k` extra ones, or what is wrong with one of
/// them.
pub open spec fn extra_headers(
    base: Map<Seq<char>, Seq<char>>,
    extra: Seq<(Seq<char>, Seq<char>)>,
    k: nat,
) -> Result<Map<Seq<char>, Seq<char>>, Seq<char>>
    decreases k,
{
    if k == 0 {
        Ok(base)
    } else {
        match extra_headers(base, extra, (k - 1) as nat) {
            Err(e) => Err(e),
            Ok(before) => {
                let (name, value) = extra[k - 1];
                if header_name(name) is None {
                    Err("Invalid extra header name for web search"@)
                } else if !header_value(value) {
                    Err("Invalid extra header value for web search"@)
                } else {
                    Ok(before.insert(header_name(name)->0, value))
                }
            },
        }
    }
}

/// The headers of a setup, or why it makes no client.
pub open spec fn client_headers(c: ConfigView) -> Result<
    Map<Seq<char>, Seq<char>>,
    Seq<char>,
> {
    match c {
        ConfigView::Disabled => Err("Cannot create WebSearchClient from disabled config"@),
        ConfigView::Enabled { api_key, base_url: _, model: _, extra_headers: extra, alpha_test_key: _ } =>
            if !header_value("Bearer "@ + api_key) {
            Err("Invalid API key for web search"@)
        } else {
            extra_headers(base_headers(api_key), extra, extra.len())
        },
        ConfigView::Perplexity { api_key, base_url: _ } => if !header_value("Bearer "@ + api_key) {
            Err("Invalid API key for web search"@)
        } else {
            Ok(base_headers(api_key))
        },
    }
}

/// A client for a setup.
pub open spec fn client_for(c: WebSearchClient, config: ConfigView, has_provider: bool) -> bool {
    &&& client_headers(config) == Ok::<Map<Seq<char>, Seq<char>>, Seq<char>>(
        header_map(c.headers),
    )
    &&& match config {
        ConfigView::Disabled => false,
        ConfigView::Enabled { api_key: _, base_url, model, extra_headers: _, alpha_test_key: _ } => {
            &&& c.base_url@ == base_url
            &&& c.model@ == model
            &&& c.backend is Responses
            &&& c.asks_provider == has_provider
        },
        ConfigView::Perplexity { api_key: _, base_url } => {
            &&& c.base_url@ == base_url
            &&& c.model@ == ""@
            &&& c.backend is Perplexity
            &&& !c.asks_provider
        },
    }
}

fn bearer_headers(api_key: &str) -> (r: Result<reqwest::header::HeaderMap, ToolError>)
    ensures
        match r {
            Ok(h) => header_value("Bearer "@ + api_key@) && header_map(h) == base_headers(api_key@),
            Err(e) => !header_value("Bearer "@ + api_key@) && e@ == execution_error(
                "web_search"@,
                "Invalid API key for web search"@,
            ),
        },
{
    let bearer: String = cat2("Bearer ", api_key);
    if check_header_value(bearer.as_str()).is_err() {
        return Err(ToolError::execution("web_search", "Invalid API key for web search"));
    }
    let mut headers: reqwest::header::HeaderMap = no_headers();
    proof {
        lemma_json_type();
    }
    put_own_header(&mut headers, "content-type", "application/json");
    put_own_header(&mut headers, "authorization", bearer.as_str());
    Ok(headers)
}

fn add_headers(headers: &mut reqwest::header::HeaderMap, extra: &Vec<(String, String)>) -> (r:
    Result<(), ToolError>)
    requires
        header_map(*old(headers)).dom().finite(),
    ensures
        ({
            let base = header_map(*old(headers));
            let wanted = extra_headers(base, pair_views(extra@), extra@.len());
            match r {
                Ok(_) => wanted == Ok::<Map<Seq<char>, Seq<char>>, Seq<char>>(
                    header_map(*final(headers)),
                ),
                Err(e) => {
                    ||| wanted is Err && e@ == execution_error("web_search"@, wanted->Err_0)
                    ||| base.dom().len() + extra@.len() > HEADER_ROOM && e@ == too_many_headers()
                },
            }
        }),
{
    let ghost base = header_map(*headers);
    let ghost all = pair_views(extra@);
    let mut k: usize = 0;
    while k < extra.len()
        invariant
            k <= extra@.len(),
            all == pair_views(extra@),
            base == header_map(*old(headers)),
            header_map(*headers).dom().finite(),
            header_map(*headers).dom().len() <= base.dom().len() + k,
            extra_headers(base, all, k as nat) == Ok::<Map<Seq<char>, Seq<char>>, Seq<char>>(
                header_map(*headers),
            ),
        decreases extra.len() - k,
    {
        proof {
            assert(all[k as int] == (extra@[k as int].0@, extra@[k as int].1@));
        }
        match read_header_name(extra[k].0.as_str()) {
            Err(_) => {
                proof {
                    lemma_first_error(base, all, (k + 1) as nat, all.len());
                }
                return Err(
                    ToolError::execution("web_search", "Invalid extra header name for web search"),
                );
            },
            Ok(name) => {
                if check_header_value(extra[k].1.as_str()).is_err() {
                    proof {
                        lemma_first_error(base, all, (k + 1) as nat, all.len());
                    }
                    return Err(
                        ToolError::execution(
                            "web_search",
                            "Invalid extra header value for web search",
                        ),
                    );
                }
                if !put_header(headers, name.as_str(), extra[k].1.as_str()) {
                    return Err(
                        ToolError::execution("web_search", "Too many extra headers for web search"),
                    );
                }
            },
        }
        k += 1;
    }
    Ok(())
}

proof fn lemma_first_error(
    base: Map<Seq<char>, Seq<char>>,
    extra: Seq<(Seq<char>, Seq<char>)>,
    k: nat,
    n: nat,
)
    requires
        k <= n,
        extra_headers(base, extra, k) is Err,
    ensures
        extra_headers(base, extra, n) == extra_headers(base, extra, k),
    decreases n - k,
{
    if k < n {
        lemma_first_error(base, extra, k, (n - 1) as nat);
    }
}

impl WebSearchClient {
    /// A client for a setup. With very many extra headers it may find no room
    /// for them.
    pub fn new(config: &WebSearchConfig, has_provider: bool) -> (r: Result<
        WebSearchClient,
        ToolError,
    >)
        ensures
            match r {
                Ok(c) => client_for(c, config@, has_provider),
                Err(e) => {
                    ||| client_headers(config@) is Err && e@ == execution_error(
                        "web_search"@,
                        client_headers(config@)->Err_0,
                    )
                    ||| extra_of(config@).len() + 2 > HEADER_ROOM && e@ == too_many_headers()
                },
            },
    {
        match config {
            WebSearchConfig::Disabled => Err(
                ToolError::execution(
                    "web_search",
                    "Cannot create WebSearchClient from disabled config",
                ),
            ),
            WebSearchConfig::Enabled { api_key, base_url, model, extra_headers: extra, alpha_test_key: _ } => {
                let mut headers: reqwest::header::HeaderMap = match bearer_headers(api_key.as_str()) {
                    Ok(h) => h,
                    Err(e) => {
                        return Err(e);
                    },
                };
                let list: Vec<(String, String)> = header_list(extra);
                proof {
                    assert(pair_views(list@).len() == list@.len());
                }
                match add_headers(&mut headers, &list) {
                    Ok(_) => {},
                    Err(e) => {
                        return Err(e);
                    },
                }
                Ok(
                    WebSearchClient {
                        headers,
                        base_url: base_url.clone(),
                        model: model.clone(),
                        backend: WebSearchBackend::Responses,
                        asks_provider: has_provider,
                    },
                )
            },
            WebSearchConfig::Perplexity { api_key, base_url } => {
                let headers: reqwest::header::HeaderMap = match bearer_headers(api_key.as_str()) {
                    Ok(h) => h,
                    Err(e) => {
                        return Err(e);
                    },
                };
                Ok(
                    WebSearchClient {
                        headers,
                        base_url: base_url.clone(),
                        model: "".to_owned(),
                        backend: WebSearchBackend::Perplexity,
                        asks_provider: false,
                    },
                )
            },
        }
    }

    /// Where a request goes.
    pub fn url(&self) -> (r: String)
        ensures
            r@ == without_slashes(self.base_url@) + (match self.backend {
                WebSearchBackend::Responses => "/responses"@,
                WebSearchBackend::Perplexity => "/search"@,
            }),
    {
        let path: &str = match self.backend {
            WebSearchBackend::Responses => "/responses",
            WebSearchBackend::Perplexity => "/search",
        };
        cat2(trim_slashes(self.base_url.as_str()), path)
    }

    /// What a request is signed with: the key of the provider, if it gave one,
    /// else the header of the setup.
    pub fn authorization(&self, bearer: Option<&str>) -> (r: Option<String>)
        ensures
            option_view(r) == (match bearer {
                Some(key) => Some("Bearer "@ + key@),
                None => if header_map(self.headers).contains_key("authorization"@) {
                    Some(header_map(self.headers)["authorization"@])
                } else {
                    None
                },
            }),
    {
        match bearer {
            Some(key) => Some(cat2("Bearer ", key)),
            None => match read_header_name("authorization") {
                Ok(name) => find_header(&self.headers, name.as_str()),
                Err(_) => None,
            },
        }
    }
}

impl WebSearchClient {
    /// What is told of a request that was not authorized, where somebody
    /// listens.
    pub fn record_401_attribution(&self, heard: bool, sent_bearer: Option<&str>) -> (r: Option<
        Attribution401,
    >)
        ensures
            match r {
                Some(a) => heard && a.consumer == ToolConsumer::WebSearch && option_view(
                    a.sent_bearer_prefix,
                ) == told_key(sent_bearer),
                None => !heard,
            },
    {
        emit_401(heard, ToolConsumer::WebSearch, sent_bearer)
    }
}

// ---- laws ----

/// An extra header that no later one has the name of is sent as it is set up,
/// in place of what stood under its name.
pub proof fn law_extra_headers_replace(
    base: Map<Seq<char>, Seq<char>>,
    extra: Seq<(Seq<char>, Seq<char>)>,
    k: nat,
    i: int,
)
    requires
        k <= extra.len(),
        extra_headers(base, extra, k) is Ok,
        0 <= i < k,
        forall|j: int|
            i < j < k ==> header_name((#[trigger] extra[j]).0) != header_name(extra[i].0),
    ensures
        header_name(extra[i].0) is Some,
        extra_headers(base, extra, k)->Ok_0.contains_key(header_name(extra[i].0)->0),
        extra_headers(base, extra, k)->Ok_0[header_name(extra[i].0)->0] == extra[i].1,
    decreases k,
{
    if i < k - 1 {
        law_extra_headers_replace(base, extra, (k - 1) as nat, i);
        assert(header_name(extra[k - 1].0) != header_name(extra[i].0));
    }
}

/// Headers that no extra header has the name of stay.
pub proof fn law_other_headers_stay(
    base: Map<Seq<char>, Seq<char>>,
    extra: Seq<(Seq<char>, Seq<char>)>,
    k: nat,
    name: Seq<char>,
)
    requires
        k <= extra.len(),
        extra_headers(base, extra, k) is Ok,
        base.contains_key(name),
        forall|j: int| 0 <= j < k ==> header_name((#[trigger] extra[j]).0) != Some(name),
    ensures
        extra_headers(base, extra, k)->Ok_0.contains_key(name),
        extra_headers(base, extra, k)->Ok_0[name] == base[name],
    decreases k,
{
    if k > 0 {
        assert(header_name(extra[k - 1].0) != Some(name));
        law_other_headers_stay(base, extra, (k - 1) as nat, name);
    }
}

/// A client signs its requests with its own key, unless an extra header says
/// otherwise.
pub proof fn law_own_key_signs_requests(
    c: WebSearchClient,
    config: ConfigView,
    has_provider: bool,
    api_key: Seq<char>,
)
    requires
        client_for(c, config, has_provider),
        match config {
            ConfigView::Enabled { api_key: key, .. } => key == api_key,
            ConfigView::Perplexity { api_key: key, .. } => key == api_key,
            ConfigView::Disabled => false,
        },
        forall|j: int|
            0 <= j < extra_of(config).len() ==> header_name((#[trigger] extra_of(config)[j]).0)
                != Some("authorization"@),
    ensures
        header_map(c.headers).contains_key("authorization"@),
        header_map(c.headers)["authorization"@] == "Bearer "@ + api_key,
{
    let extra = extra_of(config);
    let base = base_headers(api_key);
    if config is Enabled {
        law_other_headers_stay(base, extra, extra.len(), "authorization"@);
    }
}

} // verus!

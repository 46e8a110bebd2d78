//! How web search is set up.
use vstd::prelude::*;
#[allow(unused_imports)]
use vstd::string::*;

#[allow(unused_imports)]
use crate::headers::{copy_headers, header_entries, show_headers, shown_headers};
#[allow(unused_imports)]
use crate::text::{cat3, cat5, option_view, show_text, shown_text};

verus! {

/// Where Perplexity answers unless it is set.
pub const PERPLEXITY_SEARCH_API_BASE_URL: &'static str = "https://api.perplexity.ai";

/// What stands in place of a secret.
pub const REDACTED: &'static str = "***REDACTED***";

/// How web search is set up.
pub enum WebSearchConfig {
    Disabled,
    Enabled {
        api_key: String,
        base_url: String,
        model: String,
        extra_headers: indexmap::IndexMap<String, String>,
        alpha_test_key: Option<String>,
    },
    Perplexity { api_key: String, base_url: String },
}

/// What a setup holds.
#[verifier::ext_equal]
pub enum ConfigView {
    Disabled,
    Enabled {
        api_key: Seq<char>,
        base_url: Seq<char>,
        model: Seq<char>,
        extra_headers: Seq<(Seq<char>, Seq<char>)>,
        alpha_test_key: Option<Seq<char>>,
    },
    Perplexity { api_key: Seq<char>, base_url: Seq<char> },
}

impl View for WebSearchConfig {
    type V = ConfigView;

    open spec fn view(&self) -> ConfigView {
        match *self {
            WebSearchConfig::Disabled => ConfigView::Disabled,
            WebSearchConfig::Enabled { api_key, base_url, model, extra_headers, alpha_test_key } =>
                ConfigView::Enabled {
                api_key: api_key@,
                base_url: base_url@,
                model: model@,
                extra_headers: header_entries(extra_headers),
                alpha_test_key: option_view(alpha_test_key),
            },
            WebSearchConfig::Perplexity { api_key, base_url } => ConfigView::Perplexity {
                api_key: api_key@,
                base_url: base_url@,
            },
        }
    }
}

impl Default for WebSearchConfig {
    fn default() -> (r: WebSearchConfig)
        ensures
            r is Disabled,
    {
        WebSearchConfig::Disabled
    }
}

/// A setup without its secrets.
pub open spec fn without_secrets(c: ConfigView) -> ConfigView {
    match c {
        ConfigView::Disabled => ConfigView::Disabled,
        ConfigView::Enabled { api_key: _, base_url, model, extra_headers, alpha_test_key: _ } =>
            ConfigView::Enabled {
            api_key: REDACTED@,
            base_url,
            model,
            extra_headers,
            alpha_test_key: None,
        },
        ConfigView::Perplexity { api_key: _, base_url } => ConfigView::Perplexity {
            api_key: REDACTED@,
            base_url,
        },
    }
}

impl WebSearchConfig {
    /// Whether web search is on.
    pub fn is_enabled(&self) -> (r: bool)
        ensures
            r == !(self is Disabled),
    {
        !matches!(self, WebSearchConfig::Disabled)
    }

    /// Whether Perplexity answers.
    pub fn is_perplexity(&self) -> (r: bool)
        ensures
            r == (self is Perplexity),
    {
        matches!(self, WebSearchConfig::Perplexity { .. })
    }

    /// A copy that clients may see.
    pub fn redacted(&self) -> (r: WebSearchConfig)
        ensures
            r@ == without_secrets(self@),
    {
        match self {
            WebSearchConfig::Disabled => WebSearchConfig::Disabled,
            WebSearchConfig::Enabled { api_key: _, base_url, model, extra_headers, alpha_test_key: _ } =>
                WebSearchConfig::Enabled {
                api_key: REDACTED.to_owned(),
                base_url: base_url.clone(),
                model: model.clone(),
                extra_headers: copy_headers(extra_headers),
                alpha_test_key: None,
            },
            WebSearchConfig::Perplexity { api_key: _, base_url } => WebSearchConfig::Perplexity {
                api_key: REDACTED.to_owned(),
                base_url: base_url.clone(),
            },
        }
    }
}

/// A setup as it is shown in a log.
pub open spec fn shown_config(c: ConfigView) -> Seq<char> {
    match c {
        ConfigView::Disabled => "WebSearchConfig::Disabled"@,
        ConfigView::Enabled { api_key: _, base_url, model, extra_headers, alpha_test_key } =>
            "WebSearchConfig::Enabled { api_key: \"***REDACTED***\", base_url: "@ + shown_text(
            base_url,
        ) + ", model: "@ + shown_text(model) + ", extra_headers: "@ + shown_headers(extra_headers)
            + ", alpha_test_key: "@ + (if alpha_test_key is Some {
            "Some(\"***REDACTED***\")"@
        } else {
            "None"@
        }) + " }"@,
        ConfigView::Perplexity { api_key: _, base_url } =>
            "WebSearchConfig::Perplexity { api_key: \"***REDACTED***\", base_url: "@ + shown_text(
            base_url,
        ) + " }"@,
    }
}

impl WebSearchConfig {
    /// The setup as it is shown in a log, without its secrets.
    pub fn debug_text(&self) -> (r: String)
        ensures
            r@ == shown_config(self@),
    {
        match self {
            WebSearchConfig::Disabled => "WebSearchConfig::Disabled".to_owned(),
            WebSearchConfig::Enabled { api_key: _, base_url, model, extra_headers, alpha_test_key } => {
                let mut out: String = cat5(
                    "WebSearchConfig::Enabled { api_key: \"***REDACTED***\", base_url: ",
                    show_text(base_url.as_str()).as_str(),
                    ", model: ",
                    show_text(model.as_str()).as_str(),
                    ", extra_headers: ",
                );
                out.append(show_headers(extra_headers).as_str());
                out.append(", alpha_test_key: ");
                out.append(
                    if alpha_test_key.is_some() {
                        "Some(\"***REDACTED***\")"
                    } else {
                        "None"
                    },
                );
                out.append(" }");
                out
            },
            WebSearchConfig::Perplexity { api_key: _, base_url } => cat3(
                "WebSearchConfig::Perplexity { api_key: \"***REDACTED***\", base_url: ",
                show_text(base_url.as_str()).as_str(),
                " }",
            ),
        }
    }
}

/// Two setups that differ in their secrets only look the same to clients
/// and in logs.
pub proof fn law_clients_see_no_secrets(a: ConfigView, b: ConfigView)
    requires
        match (a, b) {
            (
                ConfigView::Enabled { api_key: _, base_url: u, model: m, extra_headers: h, alpha_test_key: _ },
                ConfigView::Enabled { api_key: _, base_url: v, model: n, extra_headers: k, alpha_test_key: _ },
            ) => u == v && m == n && h == k && (a->alpha_test_key is Some) == (
            b->alpha_test_key is Some),
            (
                ConfigView::Perplexity { api_key: _, base_url: u },
                ConfigView::Perplexity { api_key: _, base_url: v },
            ) => u == v,
            (ConfigView::Disabled, ConfigView::Disabled) => true,
            _ => false,
        },
    ensures
        without_secrets(a) == without_secrets(b),
        shown_config(a) == shown_config(b),
{
}

} // verus!

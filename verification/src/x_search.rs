//! Searching posts on X.
use vstd::prelude::*;
#[allow(unused_imports)]
use vstd::string::*;

#[allow(unused_imports)]
use crate::tool::{MetadataView, ToolError, ToolKind, ToolMetadata, ToolNamespace, execution_error};
#[allow(unused_imports)]
use crate::web_search::client::{WebSearchClient};

verus! {

/// What the tool says of itself.
pub const X_SEARCH_DESCRIPTION: &'static str =
    "Search posts on X (Twitter) for real-time reactions, announcements, and discussion.";

/// The client that searches X. It stays with xAI where web search goes
/// elsewhere.
#[derive(Debug)]
pub struct XSearchClient(pub WebSearchClient);

/// What to search for.
#[derive(Debug, Clone)]
pub struct XSearchInput {
    pub query: String,
}

/// What a search found.
#[derive(Debug)]
pub struct WebSearchOutput {
    pub query: String,
    pub content: String,
    pub citations: Vec<String>,
    pub allowed_domains: Option<Vec<String>>,
    pub pre_formatted: Option<String>,
}

/// The tool that searches X.
#[derive(Debug, Default, Clone, Copy)]
pub struct XSearchTool;

impl XSearchTool {
    /// What the tool says of itself.
    pub fn metadata(&self) -> (r: ToolMetadata)
        ensures
            r@ == (MetadataView {
                id: "x_search"@,
                kind: ToolKind::WebSearch,
                namespace: ToolNamespace::GrokBuild,
                read_only: true,
                description: X_SEARCH_DESCRIPTION@,
            }),
    {
        ToolMetadata {
            id: "x_search",
            kind: ToolKind::WebSearch,
            namespace: ToolNamespace::GrokBuild,
            read_only: true,
            description: X_SEARCH_DESCRIPTION,
        }
    }

    /// What a call answers, from what the search gave: its text and the
    /// addresses that it cites, or why it failed.
    pub fn answer(&self, input: &XSearchInput, found: Result<(String, Vec<String>), String>) -> (r:
        Result<WebSearchOutput, ToolError>)
        ensures
            match (r, found) {
                (Ok(out), Ok((content, citations))) => {
                    &&& out.query@ == input.query@
                    &&& out.content == content
                    &&& out.citations == citations
                    &&& out.allowed_domains is None
                    &&& out.pre_formatted is None
                },
                (Err(e), Err(message)) => e@ == execution_error("x_search"@, message@),
                _ => false,
            },
    {
        match found {
            Ok((content, citations)) => Ok(
                WebSearchOutput {
                    query: input.query.clone(),
                    content,
                    citations,
                    allowed_domains: None,
                    pre_formatted: None,
                },
            ),
            Err(message) => Err(ToolError::execution("x_search", message.as_str())),
        }
    }
}

/// A search on X is answered with what was found, under the query of the call.
pub proof fn law_findings_are_told(
    tool: &XSearchTool,
    input: &XSearchInput,
    found: Result<(String, Vec<String>), String>,
    r: Result<WebSearchOutput, ToolError>,
)
    requires
        call_ensures(XSearchTool::answer, (tool, input, found), r),
    ensures
        r is Ok <==> found is Ok,
        r matches Ok(out) ==> out.query@ == input.query@ && out.content@ == found->Ok_0.0@
            && out.citations@ == found->Ok_0.1@,
        r matches Err(e) ==> e.message@ == found->Err_0@,
{
    if let Err(e) = r {
        assert(e@.message == e.message@);
    }
}

} // verus!

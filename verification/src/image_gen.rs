//! Generated images: who makes them, what is asked, and what is read from the
//! answers.
use vstd::prelude::*;
#[allow(unused_imports)]
use vstd::string::*;

#[allow(unused_imports)]
use crate::attribution::{Attribution401, ToolConsumer, emit_401, told_key};
#[allow(unused_imports)]
use crate::headers::{
    HEADER_ROOM, Header, HeaderView, check_header_value, has_entry, has_header, header_entries,
    header_list, header_map, header_name, header_value, header_views, insert_absent,
    lemma_json_type, names_header, no_headers, pair_views, put_header, put_own_header,
    read_header_name, trim_slashes, without_slashes,
};
#[allow(unused_imports)]
use crate::json::{
    JsonValue, array_json, bool_text, field, field_views, json_array, json_object, json_quoted,
    object_json, quote_json, value_views,
};
#[allow(unused_imports)]
use crate::text::{
    blank, cat2, cat3, cat4, cat5, is_blank, option_view, same_text, show_list, show_text,
    shown_list, shown_text, slice_chars, sliced, trim, trimmed, views,
};
#[allow(unused_imports)]
use crate::tool::{
    ErrorView, MetadataView, ToolError, ToolKind, ToolMetadata, ToolNamespace, invalid_arguments,
    status_failure,
};

verus! {

/// The model of Grok Imagine unless it is set.
pub const XAI_IMAGINE_MODEL: &'static str = "grok-imagine-image-quality";

/// The model of OpenAI.
pub const OPENAI_IMAGE_MODEL: &'static str = "gpt-image-2";

/// The header with the turn of a request to OpenAI.
pub const CODEX_IMAGE_TURN_ID_HEADER: &'static str = "x-codex-image-turn-id";

/// The header with the session of a request to Grok Imagine.
pub const SESSION_ID_HEADER: &'static str = "x-grok-session-id";

/// How long a request may take, in seconds.
pub const IMAGE_GEN_TIMEOUT_SECS: u64 = 300;

/// How long a read may take, in seconds.
pub const IMAGE_GEN_READ_TIMEOUT_SECS: u64 = 240;

/// Where images are saved in the folder of a session.
pub const DEFAULT_IMAGE_DIR: &'static str = "images";

/// What a user is told whose tier has no images.
pub const TIER_RESTRICTED_UPSELL: &'static str =
    "Image generation is a SuperGrok feature and isn't available on the free or X Basic tier. Let the user know they can unlock image and video generation by upgrading to SuperGrok: https://grok.com/supergrok?referrer=grok-build. Do not retry this tool.";

/// What the tool says of itself.
pub const IMAGE_GEN_DESCRIPTION: &'static str =
    "Generate a new image from a text description using the configured image provider; returns the saved image's absolute path. When telling the user where it was saved, refer to it by its short session-relative path (for example `images/1.png`) rather than the absolute path, so it renders as a clickable link that opens the image. To produce multiple images, emit multiple tool calls with distinct prompts.";

/// Who makes the images.
#[derive(Debug, Clone, Copy, PartialEq, Eq, Structural)]
pub enum ImageGenerationProvider {
    Grok,
    OpenAi,
}

/// How image generation is set up.
pub enum ImageGenConfig {
    Disabled,
    Enabled {
        provider: ImageGenerationProvider,
        /// The key that signs requests to Grok Imagine where no live one is
        /// there; OpenAI never gets it.
        api_key: String,
        base_url: String,
        extra_headers: indexmap::IndexMap<String, String>,
        /// Whether the setup has its own source of live keys.
        has_api_key_provider: bool,
        image_gen_enabled: bool,
        image_edit_enabled: bool,
        model_override: Option<String>,
        edit_model_override: Option<String>,
        /// Whether the tier of the user has no images.
        tier_restricted: bool,
    },
}

impl Default for ImageGenConfig {
    fn default() -> (r: ImageGenConfig)
        ensures
            r is Disabled,
    {
        ImageGenConfig::Disabled
    }
}

/// An optional name that is not blank.
pub open spec fn filled(s: Option<String>) -> Option<Seq<char>> {
    match s {
        Some(t) => if blank(t@) {
            None
        } else {
            Some(t@)
        },
        None => None,
    }
}

/// A model, or another where it is not set.
pub open spec fn model_or(s: Option<String>, other: Seq<char>) -> Seq<char> {
    match filled(s) {
        Some(t) => t,
        None => other,
    }
}

fn choose_model(s: &Option<String>, other: &str) -> (r: String)
    ensures
        r@ == model_or(*s, other@),
{
    match s {
        Some(t) => if is_blank(t.as_str()) {
            other.to_owned()
        } else {
            t.clone()
        },
        None => other.to_owned(),
    }
}

impl ImageGenConfig {
    /// The entries of the extra headers.
    pub open spec fn entries(&self) -> Seq<(Seq<char>, Seq<char>)> {
        match *self {
            ImageGenConfig::Enabled { extra_headers, .. } => header_entries(extra_headers),
            ImageGenConfig::Disabled => Seq::empty(),
        }
    }

    /// Whether there are credentials.
    pub fn has_credentials(&self) -> (r: bool)
        ensures
            r == (self is Enabled),
    {
        matches!(self, ImageGenConfig::Enabled { .. })
    }

    /// Who makes the images.
    pub fn provider(&self) -> (r: Option<ImageGenerationProvider>)
        ensures
            r == (match *self {
                ImageGenConfig::Enabled { provider, .. } => Some(provider),
                ImageGenConfig::Disabled => None,
            }),
    {
        match self {
            ImageGenConfig::Enabled { provider, .. } => Some(*provider),
            ImageGenConfig::Disabled => None,
        }
    }

    /// Adds the session to the headers for Grok Imagine; one that stands there
    /// stays.
    pub fn stamp_session_id_header(&mut self, session_id: &str)
        ensures
            match (*old(self), *final(self)) {
                (
                    ImageGenConfig::Enabled { provider, extra_headers, .. },
                    ImageGenConfig::Enabled { extra_headers: after, .. },
                ) => {
                    &&& *final(self) == (ImageGenConfig::Enabled {
                        provider,
                        api_key: old(self)->api_key,
                        base_url: old(self)->base_url,
                        extra_headers: after,
                        has_api_key_provider: old(self)->has_api_key_provider,
                        image_gen_enabled: old(self)->image_gen_enabled,
                        image_edit_enabled: old(self)->image_edit_enabled,
                        model_override: old(self)->model_override,
                        edit_model_override: old(self)->edit_model_override,
                        tier_restricted: old(self)->tier_restricted,
                    })
                    &&& header_entries(after) == (if provider is Grok && !has_entry(
                        header_entries(extra_headers),
                        SESSION_ID_HEADER@,
                    ) {
                        header_entries(extra_headers).push((SESSION_ID_HEADER@, session_id@))
                    } else {
                        header_entries(extra_headers)
                    })
                },
                (ImageGenConfig::Disabled, ImageGenConfig::Disabled) => true,
                _ => false,
            },
    {
        match self {
            ImageGenConfig::Enabled { provider, extra_headers, .. } => {
                if matches!(provider, ImageGenerationProvider::Grok) {
                    insert_absent(extra_headers, SESSION_ID_HEADER, session_id);
                }
            },
            ImageGenConfig::Disabled => {},
        }
    }

    /// Whether images may be made.
    pub fn image_gen_enabled(&self) -> (r: bool)
        ensures
            r == (match *self {
                ImageGenConfig::Enabled { image_gen_enabled, .. } => image_gen_enabled,
                ImageGenConfig::Disabled => false,
            }),
    {
        match self {
            ImageGenConfig::Enabled { image_gen_enabled, .. } => *image_gen_enabled,
            ImageGenConfig::Disabled => false,
        }
    }

    /// Whether images may be edited.
    pub fn image_edit_enabled(&self) -> (r: bool)
        ensures
            r == (match *self {
                ImageGenConfig::Enabled { image_edit_enabled, .. } => image_edit_enabled,
                ImageGenConfig::Disabled => false,
            }),
    {
        match self {
            ImageGenConfig::Enabled { image_edit_enabled, .. } => *image_edit_enabled,
            ImageGenConfig::Disabled => false,
        }
    }

    /// The model that is set, if one is.
    pub fn model_override(&self) -> (r: Option<&str>)
        ensures
            match (
                r,
                match *self {
                    ImageGenConfig::Enabled { model_override, .. } => filled(model_override),
                    ImageGenConfig::Disabled => None,
                },
            ) {
                (Some(a), Some(b)) => a@ == b,
                (None, None) => true,
                _ => false,
            },
    {
        match self {
            ImageGenConfig::Enabled { model_override, .. } => match model_override {
                Some(m) => if is_blank(m.as_str()) {
                    None
                } else {
                    Some(m.as_str())
                },
                None => None,
            },
            ImageGenConfig::Disabled => None,
        }
    }
}

// ---- the setup in logs ----

/// A provider as it is shown in a log.
pub open spec fn shown_provider(p: ImageGenerationProvider) -> Seq<char> {
    match p {
        ImageGenerationProvider::Grok => "Grok"@,
        ImageGenerationProvider::OpenAi => "OpenAi"@,
    }
}

/// An optional text as it is shown in a log.
pub open spec fn shown_option(s: Option<String>) -> Seq<char> {
    match s {
        Some(t) => "Some("@ + shown_text(t@) + ")"@,
        None => "None"@,
    }
}

fn show_option(s: &Option<String>) -> (r: String)
    ensures
        r@ == shown_option(*s),
{
    match s {
        Some(t) => cat3("Some(", show_text(t.as_str()).as_str(), ")"),
        None => "None".to_owned(),
    }
}

/// The names of some entries.
pub open spec fn entry_names(s: Seq<(Seq<char>, Seq<char>)>) -> Seq<Seq<char>> {
    s.map_values(|e: (Seq<char>, Seq<char>)| e.0)
}

/// A setup as it is shown in a log: names of headers, but no key and no value.
pub open spec fn shown_config(c: ImageGenConfig) -> Seq<char> {
    match c {
        ImageGenConfig::Disabled => "ImageGenConfig::Disabled"@,
        ImageGenConfig::Enabled {
            provider,
            api_key: _,
            base_url,
            extra_headers,
            has_api_key_provider,
            image_gen_enabled,
            image_edit_enabled,
            model_override,
            edit_model_override,
            tier_restricted,
        } => "ImageGenConfig::Enabled { provider: "@ + shown_provider(provider) + ", base_url: "@
            + shown_text(base_url@) + ", extra_header_names: "@ + shown_list(
            entry_names(header_entries(extra_headers)),
        ) + ", has_live_api_key_provider: "@ + bool_text(has_api_key_provider)
            + ", image_gen_enabled: "@ + bool_text(image_gen_enabled) + ", image_edit_enabled: "@
            + bool_text(image_edit_enabled) + ", model_override: "@ + shown_option(model_override)
            + ", edit_model_override: "@ + shown_option(edit_model_override)
            + ", tier_restricted: "@ + bool_text(tier_restricted) + ", .. }"@,
    }
}

fn names_of(list: &Vec<(String, String)>) -> (r: Vec<String>)
    ensures
        views(r@) == entry_names(pair_views(list@)),
{
    let mut out: Vec<String> = Vec::new();
    let mut i: usize = 0;
    while i < list.len()
        invariant
            i <= list@.len(),
            out@.len() == i,
            forall|j: int| 0 <= j < i ==> (#[trigger] out@[j])@ == list@[j].0@,
        decreases list.len() - i,
    {
        out.push(list[i].0.clone());
        i += 1;
    }
    proof {
        assert(views(out@) =~= entry_names(pair_views(list@)));
    }
    out
}

fn show_bool(b: bool) -> (r: &'static str)
    ensures
        r@ == bool_text(b),
{
    if b {
        "true"
    } else {
        "false"
    }
}

impl ImageGenConfig {
    /// The setup as it is shown in a log.
    pub fn debug_text(&self) -> (r: String)
        ensures
            r@ == shown_config(*self),
    {
        match self {
            ImageGenConfig::Disabled => "ImageGenConfig::Disabled".to_owned(),
            ImageGenConfig::Enabled {
                provider,
                api_key: _,
                base_url,
                extra_headers,
                has_api_key_provider,
                image_gen_enabled,
                image_edit_enabled,
                model_override,
                edit_model_override,
                tier_restricted,
            } => {
                let who: &str = match provider {
                    ImageGenerationProvider::Grok => "Grok",
                    ImageGenerationProvider::OpenAi => "OpenAi",
                };
                let names: Vec<String> = names_of(&header_list(extra_headers));
                let mut out: String = cat5(
                    "ImageGenConfig::Enabled { provider: ",
                    who,
                    ", base_url: ",
                    show_text(base_url.as_str()).as_str(),
                    ", extra_header_names: ",
                );
                out.append(show_list(&names).as_str());
                out.append(", has_live_api_key_provider: ");
                out.append(show_bool(*has_api_key_provider));
                out.append(", image_gen_enabled: ");
                out.append(show_bool(*image_gen_enabled));
                out.append(", image_edit_enabled: ");
                out.append(show_bool(*image_edit_enabled));
                out.append(", model_override: ");
                out.append(show_option(model_override).as_str());
                out.append(", edit_model_override: ");
                out.append(show_option(edit_model_override).as_str());
                out.append(", tier_restricted: ");
                out.append(show_bool(*tier_restricted));
                out.append(", .. }");
                out
            },
        }
    }
}

// ---- the client ----

/// Where the live key of a request comes from.
#[derive(Debug, Clone, Copy, PartialEq, Eq, Structural)]
pub enum BearerSource {
    /// The setup.
    Config,
    /// The session.
    Session,
    Nowhere,
}

/// The client.
#[derive(Debug)]
pub struct ImageGenClient {
    pub provider: ImageGenerationProvider,
    pub base_url: String,
    pub model: String,
    pub edit_model: String,
    /// The ending of the names of saved images.
    pub extension: &'static str,
    /// What every request carries.
    pub headers: reqwest::header::HeaderMap,
    pub bearer_source: BearerSource,
    /// Whether a request needs a live key.
    pub require_live_bearer: bool,
    pub tier_restricted: bool,
    pub session_header: Option<String>,
    pub defaults_have_session_header: bool,
}

/// The header that every setup has.
pub open spec fn json_header() -> Map<Seq<char>, Seq<char>> {
    Map::empty().insert("content-type"@, "application/json"@)
}

/// The error of a setup with more headers than a client has room for.
pub open spec fn too_many_headers() -> ErrorView {
    invalid_arguments("Too many extra headers for image generation"@)
}

/// The headers with the first `k` extra ones, or what is wrong with one of
/// them.
pub open spec fn all_headers(
    base: Map<Seq<char>, Seq<char>>,
    extra: Seq<(Seq<char>, Seq<char>)>,
    k: nat,
) -> Result<Map<Seq<char>, Seq<char>>, Seq<char>>
    decreases k,
{
    if k == 0 {
        Ok(base)
    } else {
        match all_headers(base, extra, (k - 1) as nat) {
            Err(e) => Err(e),
            Ok(before) => {
                let (name, value) = extra[k - 1];
                if header_name(name) is None {
                    Err("Invalid header name '"@ + name + "': "@ + "invalid HTTP header name"@)
                } else if !header_value(value) {
                    Err(
                        "Invalid header value for '"@ + name + "': "@
                            + "failed to parse header value"@,
                    )
                } else {
                    Ok(before.insert(header_name(name)->0, value))
                }
            },
        }
    }
}

/// The headers of a setup, or why it makes no client. Only Grok Imagine gets the
/// key of the setup.
pub open spec fn image_headers(c: ImageGenConfig) -> Result<
    Map<Seq<char>, Seq<char>>,
    Seq<char>,
> {
    match c {
        ImageGenConfig::Disabled => Err("Cannot create ImageGenClient from disabled config"@),
        ImageGenConfig::Enabled { provider, api_key, extra_headers, .. } => {
            let extra = header_entries(extra_headers);
            let bearer = "Bearer "@ + api_key@;
            if provider is OpenAi {
                all_headers(json_header(), extra, extra.len())
            } else if !header_value(bearer) {
                Err("Invalid API key for header: "@ + "failed to parse header value"@)
            } else {
                all_headers(
                    json_header().insert("authorization"@, bearer),
                    extra,
                    extra.len(),
                )
            }
        },
    }
}

proof fn lemma_first_error(
    base: Map<Seq<char>, Seq<char>>,
    extra: Seq<(Seq<char>, Seq<char>)>,
    k: nat,
    n: nat,
)
    requires
        k <= n,
        all_headers(base, extra, k) is Err,
    ensures
        all_headers(base, extra, n) == all_headers(base, extra, k),
    decreases n - k,
{
    if k < n {
        lemma_first_error(base, extra, k, (n - 1) as nat);
    }
}

fn add_headers(headers: &mut reqwest::header::HeaderMap, extra: &Vec<(String, String)>) -> (r:
    Result<(), ToolError>)
    requires
        header_map(*old(headers)).dom().finite(),
    ensures
        ({
            let base = header_map(*old(headers));
            let wanted = all_headers(base, pair_views(extra@), extra@.len());
            match r {
                Ok(_) => wanted == Ok::<Map<Seq<char>, Seq<char>>, Seq<char>>(
                    header_map(*final(headers)),
                ),
                Err(e) => {
                    ||| wanted is Err && e@ == invalid_arguments(wanted->Err_0)
                    ||| base.dom().len() + extra@.len() > HEADER_ROOM && e@ == too_many_headers()
                },
            }
        }),
{
    let ghost base = header_map(*headers);
    let ghost all = pair_views(extra@);
    let mut k: usize = 0;
    while k < extra.len()
        invariant
            k <= extra@.len(),
            all == pair_views(extra@),
            base == header_map(*old(headers)),
            header_map(*headers).dom().finite(),
            header_map(*headers).dom().len() <= base.dom().len() + k,
            all_headers(base, all, k as nat) == Ok::<Map<Seq<char>, Seq<char>>, Seq<char>>(
                header_map(*headers),
            ),
        decreases extra.len() - k,
    {
        let key: &str = extra[k].0.as_str();
        proof {
            assert(all[k as int] == (extra@[k as int].0@, extra@[k as int].1@));
        }
        let name: String = match read_header_name(key) {
            Ok(n) => n,
            Err(e) => {
                proof {
                    lemma_first_error(base, all, (k + 1) as nat, all.len());
                }
                return Err(
                    ToolError::invalid_arguments(
                        cat4("Invalid header name '", key, "': ", e.as_str()).as_str(),
                    ),
                );
            },
        };
        match check_header_value(extra[k].1.as_str()) {
            Ok(_) => {},
            Err(e) => {
                proof {
                    lemma_first_error(base, all, (k + 1) as nat, all.len());
                }
                return Err(
                    ToolError::invalid_arguments(
                        cat4("Invalid header value for '", key, "': ", e.as_str()).as_str(),
                    ),
                );
            },
        }
        if !put_header(headers, name.as_str(), extra[k].1.as_str()) {
            return Err(
                ToolError::invalid_arguments("Too many extra headers for image generation"),
            );
        }
        k += 1;
    }
    Ok(())
}

/// The error of a request without the live key that it needs.
pub open spec fn auth_required() -> ErrorView {
    status_failure(
        "auth_required"@,
        401,
        "OpenAI image authentication is unavailable; sign in again with `open-grok login --codex`."@,
    )
}

/// A client for a setup. OpenAI takes neither models nor keys that were meant
/// for Grok Imagine.
pub open spec fn image_client_for(
    c: ImageGenClient,
    config: ImageGenConfig,
    has_session_provider: bool,
    edit_model: Seq<char>,
) -> bool {
    match config {
        ImageGenConfig::Disabled => false,
        ImageGenConfig::Enabled {
            provider,
            base_url,
            has_api_key_provider,
            model_override,
            edit_model_override,
            tier_restricted,
            ..
        } => {
            let grok = provider is Grok;
            let headers = header_map(c.headers);
            &&& image_headers(config) == Ok::<Map<Seq<char>, Seq<char>>, Seq<char>>(headers)
            &&& c.provider == provider
            &&& c.base_url@ == base_url@
            &&& c.model@ == (if grok {
                model_or(model_override, XAI_IMAGINE_MODEL@)
            } else {
                OPENAI_IMAGE_MODEL@
            })
            &&& c.edit_model@ == (if grok {
                model_or(edit_model_override, edit_model)
            } else {
                OPENAI_IMAGE_MODEL@
            })
            &&& c.extension@ == (if grok {
                "jpg"@
            } else {
                "png"@
            })
            &&& c.bearer_source == (if has_api_key_provider {
                BearerSource::Config
            } else if grok && has_session_provider {
                BearerSource::Session
            } else {
                BearerSource::Nowhere
            })
            &&& c.require_live_bearer == !grok
            &&& c.tier_restricted == (grok && tier_restricted)
            &&& c.session_header is None
            &&& c.defaults_have_session_header == names_header(headers, SESSION_ID_HEADER@)
        },
    }
}

impl ImageGenClient {
    /// A client for a setup. `edit_model` is the model that edits unless it is
    /// set.
    pub fn new(config: &ImageGenConfig, has_session_provider: bool, edit_model: &str) -> (r: Result<
        ImageGenClient,
        ToolError,
    >)
        ensures
            match r {
                Ok(c) => image_client_for(c, *config, has_session_provider, edit_model@),
                Err(e) => {
                    ||| image_headers(*config) is Err && e@ == invalid_arguments(
                        image_headers(*config)->Err_0,
                    )
                    ||| config.entries().len() + 2 > HEADER_ROOM && e@ == too_many_headers()
                },
            },
    {
        match config {
            ImageGenConfig::Disabled => Err(
                ToolError::invalid_arguments("Cannot create ImageGenClient from disabled config"),
            ),
            ImageGenConfig::Enabled {
                provider,
                api_key,
                base_url,
                extra_headers,
                has_api_key_provider,
                model_override,
                edit_model_override,
                tier_restricted,
                ..
            } => {
                let grok: bool = matches!(provider, ImageGenerationProvider::Grok);
                let mut headers: reqwest::header::HeaderMap = no_headers();
                proof {
                    lemma_json_type();
                }
                put_own_header(&mut headers, "content-type", "application/json");
                if grok {
                    let bearer: String = cat2("Bearer ", api_key.as_str());
                    match check_header_value(bearer.as_str()) {
                        Ok(_) => {},
                        Err(e) => {
                            return Err(
                                ToolError::invalid_arguments(
                                    cat2("Invalid API key for header: ", e.as_str()).as_str(),
                                ),
                            );
                        },
                    }
                    put_own_header(&mut headers, "authorization", bearer.as_str());
                }
                let list: Vec<(String, String)> = header_list(extra_headers);
                proof {
                    assert(pair_views(list@).len() == list@.len());
                }
                match add_headers(&mut headers, &list) {
                    Ok(_) => {},
                    Err(e) => {
                        return Err(e);
                    },
                }
                let bearer_source: BearerSource = if *has_api_key_provider {
                    BearerSource::Config
                } else if grok && has_session_provider {
                    BearerSource::Session
                } else {
                    BearerSource::Nowhere
                };
                let defaults_have_session_header: bool = has_header(&headers, SESSION_ID_HEADER);
                Ok(
                    ImageGenClient {
                        provider: *provider,
                        base_url: base_url.clone(),
                        model: if grok {
                            choose_model(model_override, XAI_IMAGINE_MODEL)
                        } else {
                            OPENAI_IMAGE_MODEL.to_owned()
                        },
                        edit_model: if grok {
                            choose_model(edit_model_override, edit_model)
                        } else {
                            OPENAI_IMAGE_MODEL.to_owned()
                        },
                        extension: if grok {
                            "jpg"
                        } else {
                            "png"
                        },
                        headers,
                        bearer_source,
                        require_live_bearer: !grok,
                        tier_restricted: grok && *tier_restricted,
                        session_header: None,
                        defaults_have_session_header,
                    },
                )
            },
        }
    }

    /// Names the session in requests to Grok Imagine, unless the setup does.
    pub fn with_session_id(self, session_id: &str) -> (r: ImageGenClient)
        ensures
            r == (ImageGenClient { session_header: r.session_header, ..self }),
            option_view(r.session_header) == (if self.provider is Grok
                && !self.defaults_have_session_header && header_value(session_id@) {
                Some(session_id@)
            } else {
                option_view(self.session_header)
            }),
    {
        let mut client: ImageGenClient = self;
        if matches!(client.provider, ImageGenerationProvider::Grok)
            && !client.defaults_have_session_header && check_header_value(session_id).is_ok() {
            client.session_header = Some(session_id.to_owned());
        }
        client
    }

    /// Whether the tier of the user has no images.
    pub fn is_tier_restricted(&self) -> (r: bool)
        ensures
            r == self.tier_restricted,
    {
        self.tier_restricted
    }

    /// Who makes the images.
    pub fn provider(&self) -> (r: ImageGenerationProvider)
        ensures
            r == self.provider,
    {
        self.provider
    }

    /// Where a request goes.
    pub fn url(&self, endpoint: &str) -> (r: String)
        ensures
            r@ == without_slashes(self.base_url@) + "/images/"@ + endpoint@,
    {
        cat3(trim_slashes(self.base_url.as_str()), "/images/", endpoint)
    }

    /// What a request carries besides the headers of the client.
    pub open spec fn own_headers(&self, bearer: Option<&str>, turn_id: Seq<char>) -> Seq<HeaderView> {
        (match bearer {
            Some(b) => seq![("authorization"@, "Bearer "@ + b@)],
            None => Seq::empty(),
        }) + (match self.session_header {
            Some(s) => seq![(SESSION_ID_HEADER@, s@)],
            None => Seq::empty(),
        }) + (if self.provider is OpenAi {
            seq![(CODEX_IMAGE_TURN_ID_HEADER@, turn_id)]
        } else {
            Seq::empty()
        })
    }

    /// What a request carries besides the headers of the client, or that it may
    /// not go without a live key.
    pub fn request_headers(&self, bearer: Option<&str>, turn_id: &str) -> (r: Result<
        Vec<Header>,
        ToolError,
    >)
        ensures
            match r {
                Ok(h) => !self.lacks_key(bearer) && header_views(h@) == self.own_headers(
                    bearer,
                    turn_id@,
                ),
                Err(e) => self.lacks_key(bearer) && e@ == auth_required(),
            },
    {
        if self.require_live_bearer && bearer.is_none() {
            return Err(
                ToolError::status_failure(
                    "auth_required",
                    401,
                    "OpenAI image authentication is unavailable; sign in again with `open-grok login --codex`.",
                ),
            );
        }
        let mut out: Vec<Header> = Vec::new();
        if let Some(b) = bearer {
            out.push(Header { name: "authorization".to_owned(), value: cat2("Bearer ", b) });
        }
        if let Some(s) = &self.session_header {
            out.push(Header { name: SESSION_ID_HEADER.to_owned(), value: s.clone() });
        }
        if matches!(self.provider, ImageGenerationProvider::OpenAi) {
            out.push(
                Header { name: CODEX_IMAGE_TURN_ID_HEADER.to_owned(), value: turn_id.to_owned() },
            );
        }
        proof {
            assert(header_views(out@) =~= self.own_headers(bearer, turn_id@));
        }
        Ok(out)
    }
}

// ---- requests ----

/// The size of an image for OpenAI.
pub open spec fn size_for(aspect_ratio: Seq<char>) -> Seq<char> {
    let a = trimmed(aspect_ratio);
    if a == "16:9"@ || a == "3:2"@ || a == "4:3"@ || a == "2:1"@ || a == "19.5:9"@ || a == "20:9"@ {
        "1536x1024"@
    } else if a == "9:16"@ || a == "2:3"@ || a == "3:4"@ || a == "1:2"@ || a == "9:19.5"@ || a
        == "9:20"@ {
        "1024x1536"@
    } else if a == "1:1"@ {
        "1024x1024"@
    } else {
        "auto"@
    }
}

/// The size of an image for OpenAI.
pub fn openai_size(aspect_ratio: &str) -> (r: &'static str)
    ensures
        r@ == size_for(aspect_ratio@),
{
    let a: &str = trim(aspect_ratio);
    if same_text(a, "16:9") || same_text(a, "3:2") || same_text(a, "4:3") || same_text(a, "2:1")
        || same_text(a, "19.5:9") || same_text(a, "20:9") {
        "1536x1024"
    } else if same_text(a, "9:16") || same_text(a, "2:3") || same_text(a, "3:4") || same_text(
        a,
        "1:2",
    ) || same_text(a, "9:19.5") || same_text(a, "9:20") {
        "1024x1536"
    } else if same_text(a, "1:1") {
        "1024x1024"
    } else {
        "auto"
    }
}

/// The fields of a request for an image.
pub open spec fn generation_fields(
    provider: ImageGenerationProvider,
    model: Seq<char>,
    prompt: Seq<char>,
    aspect_ratio: Seq<char>,
) -> Seq<(Seq<char>, Seq<char>)> {
    match provider {
        ImageGenerationProvider::Grok => seq![
            ("model"@, json_quoted(model)),
            ("prompt"@, json_quoted(prompt)),
            ("n"@, "1"@),
            ("aspect_ratio"@, json_quoted(aspect_ratio)),
            ("resolution"@, json_quoted("1k"@)),
            ("response_format"@, json_quoted("b64_json"@)),
        ],
        ImageGenerationProvider::OpenAi => seq![
            ("model"@, json_quoted(model)),
            ("prompt"@, json_quoted(prompt)),
            ("background"@, json_quoted("auto"@)),
            ("quality"@, json_quoted("auto"@)),
            ("size"@, json_quoted(size_for(aspect_ratio))),
        ],
    }
}

/// The objects that hold some addresses under a name.
pub open spec fn url_objects(name: Seq<char>, urls: Seq<String>) -> Seq<Seq<char>> {
    Seq::new(urls.len(), |i: int| json_object(seq![(name, json_quoted(urls[i]@))]))
}

/// The fields of a request to edit images: one image stands alone for Grok
/// Imagine.
pub open spec fn edit_fields(
    provider: ImageGenerationProvider,
    model: Seq<char>,
    prompt: Seq<char>,
    urls: Seq<String>,
    aspect_ratio: Seq<char>,
) -> Seq<(Seq<char>, Seq<char>)> {
    match provider {
        ImageGenerationProvider::Grok => {
            let base = seq![
                ("model"@, json_quoted(model)),
                ("prompt"@, json_quoted(prompt)),
                ("n"@, "1"@),
                ("resolution"@, json_quoted("1k"@)),
                ("response_format"@, json_quoted("b64_json"@)),
            ];
            if urls.len() == 1 {
                base.push(("image"@, url_objects("url"@, urls)[0]))
            } else {
                base.push(("images"@, json_array(url_objects("url"@, urls)))).push(
                    ("aspect_ratio"@, json_quoted(aspect_ratio)),
                )
            }
        },
        ImageGenerationProvider::OpenAi => seq![
            ("model"@, json_quoted(model)),
            ("prompt"@, json_quoted(prompt)),
            ("background"@, json_quoted("auto"@)),
            ("quality"@, json_quoted("auto"@)),
            ("size"@, json_quoted(size_for(aspect_ratio))),
            ("images"@, json_array(url_objects("image_url"@, urls))),
        ],
    }
}

fn url_values(name: &str, urls: &[String]) -> (r: Vec<JsonValue>)
    ensures
        value_views(r@) == url_objects(name@, urls@),
{
    let mut out: Vec<JsonValue> = Vec::new();
    let mut i: usize = 0;
    while i < urls.len()
        invariant
            i <= urls@.len(),
            out@.len() == i,
            forall|j: int| 0 <= j < i ==> (#[trigger] out@[j])@ == url_objects(name@, urls@)[j],
        decreases urls.len() - i,
    {
        let fields: Vec<(String, JsonValue)> = vec![field(name, quote_json(urls[i].as_str()))];
        proof {
            assert(field_views(fields@) =~= seq![(name@, json_quoted(urls@[i as int]@))]);
        }
        out.push(object_json(&fields));
        i += 1;
    }
    proof {
        assert(value_views(out@) =~= url_objects(name@, urls@));
    }
    out
}

impl ImageGenClient {
    /// The request for an image.
    pub fn generation_payload(&self, prompt: &str, aspect_ratio: &str) -> (r: JsonValue)
        ensures
            r@ == json_object(
                generation_fields(self.provider, self.model@, prompt@, aspect_ratio@),
            ),
    {
        let fields: Vec<(String, JsonValue)> = match self.provider {
            ImageGenerationProvider::Grok => vec![
                field("model", quote_json(self.model.as_str())),
                field("prompt", quote_json(prompt)),
                field("n", JsonValue::of("1")),
                field("aspect_ratio", quote_json(aspect_ratio)),
                field("resolution", quote_json("1k")),
                field("response_format", quote_json("b64_json")),
            ],
            ImageGenerationProvider::OpenAi => vec![
                field("model", quote_json(self.model.as_str())),
                field("prompt", quote_json(prompt)),
                field("background", quote_json("auto")),
                field("quality", quote_json("auto")),
                field("size", quote_json(openai_size(aspect_ratio))),
            ],
        };
        proof {
            assert(field_views(fields@) =~= generation_fields(
                self.provider,
                self.model@,
                prompt@,
                aspect_ratio@,
            ));
        }
        object_json(&fields)
    }

    /// The request to edit images; OpenAI takes five at most.
    pub fn edit_payload(&self, prompt: &str, data_urls: &[String], aspect_ratio: &str) -> (r: Result<
        JsonValue,
        ToolError,
    >)
        ensures
            match r {
                Ok(v) => !(self.provider is OpenAi && data_urls@.len() > 5) && v@ == json_object(
                    edit_fields(
                        self.provider,
                        self.edit_model@,
                        prompt@,
                        data_urls@,
                        aspect_ratio@,
                    ),
                ),
                Err(e) => self.provider is OpenAi && data_urls@.len() > 5 && e@
                    == invalid_arguments(
                    "OpenAI image editing accepts at most 5 reference images."@,
                ),
            },
    {
        let ghost expected = edit_fields(
            self.provider,
            self.edit_model@,
            prompt@,
            data_urls@,
            aspect_ratio@,
        );
        match self.provider {
            ImageGenerationProvider::Grok => {
                let mut fields: Vec<(String, JsonValue)> = vec![
                    field("model", quote_json(self.edit_model.as_str())),
                    field("prompt", quote_json(prompt)),
                    field("n", JsonValue::of("1")),
                    field("resolution", quote_json("1k")),
                    field("response_format", quote_json("b64_json")),
                ];
                let images: Vec<JsonValue> = url_values("url", data_urls);
                proof {
                    assert(value_views(images@).len() == images@.len());
                    assert(url_objects("url"@, data_urls@).len() == data_urls@.len());
                    if images@.len() == 1 {
                        assert(value_views(images@)[0] == images@[0]@);
                    }
                }
                if images.len() == 1 {
                    fields.push(field("image", images[0].duplicate()));
                } else {
                    fields.push(field("images", array_json(&images)));
                    fields.push(field("aspect_ratio", quote_json(aspect_ratio)));
                }
                proof {
                    assert(field_views(fields@) =~= expected);
                }
                Ok(object_json(&fields))
            },
            ImageGenerationProvider::OpenAi => {
                if data_urls.len() > 5 {
                    return Err(
                        ToolError::invalid_arguments(
                            "OpenAI image editing accepts at most 5 reference images.",
                        ),
                    );
                }
                let fields: Vec<(String, JsonValue)> = vec![
                    field("model", quote_json(self.edit_model.as_str())),
                    field("prompt", quote_json(prompt)),
                    field("background", quote_json("auto")),
                    field("quality", quote_json("auto")),
                    field("size", quote_json(openai_size(aspect_ratio))),
                    field("images", array_json(&url_values("image_url", data_urls))),
                ];
                proof {
                    assert(field_views(fields@) =~= expected);
                }
                Ok(object_json(&fields))
            },
        }
    }
}

/// A request that is ready to be sent.
#[derive(Debug)]
pub struct ImageRequest {
    /// What is done, as errors call it.
    pub operation: &'static str,
    pub url: String,
    /// What it carries besides the headers of the client.
    pub headers: Vec<Header>,
    pub payload: JsonValue,
}

impl ImageGenClient {
    /// What a request has to hold.
    pub open spec fn requests(
        &self,
        r: ImageRequest,
        endpoint: Seq<char>,
        operation: Seq<char>,
        fields: Seq<(Seq<char>, Seq<char>)>,
        turn_id: Seq<char>,
        bearer: Option<&str>,
    ) -> bool {
        &&& r.operation@ == operation
        &&& r.url@ == without_slashes(self.base_url@) + "/images/"@ + endpoint
        &&& header_views(r.headers@) == self.own_headers(bearer, turn_id)
        &&& r.payload@ == json_object(fields)
    }

    /// A request may not go without a live key.
    pub open spec fn lacks_key(&self, bearer: Option<&str>) -> bool {
        self.require_live_bearer && bearer is None
    }

    /// The request that makes an image.
    pub fn generate(
        &self,
        prompt: &str,
        aspect_ratio: &str,
        turn_id: &str,
        bearer: Option<&str>,
    ) -> (r: Result<ImageRequest, ToolError>)
        ensures
            match r {
                Ok(request) => !self.lacks_key(bearer) && self.requests(
                    request,
                    "generations"@,
                    "generation"@,
                    generation_fields(self.provider, self.model@, prompt@, aspect_ratio@),
                    turn_id@,
                    bearer,
                ),
                Err(e) => self.lacks_key(bearer) && e@ == auth_required(),
            },
    {
        let payload: JsonValue = self.generation_payload(prompt, aspect_ratio);
        let headers: Vec<Header> = match self.request_headers(bearer, turn_id) {
            Ok(h) => h,
            Err(e) => {
                return Err(e);
            },
        };
        let url: String = self.url("generations");
        Ok(ImageRequest { operation: "generation", url, headers, payload })
    }

    /// The request that edits images; OpenAI takes five at most.
    pub fn edit(
        &self,
        prompt: &str,
        data_urls: &[String],
        aspect_ratio: &str,
        turn_id: &str,
        bearer: Option<&str>,
    ) -> (r: Result<ImageRequest, ToolError>)
        ensures
            match r {
                Ok(request) => !(self.provider is OpenAi && data_urls@.len() > 5)
                    && !self.lacks_key(bearer) && self.requests(
                    request,
                    "edits"@,
                    "edit"@,
                    edit_fields(
                        self.provider,
                        self.edit_model@,
                        prompt@,
                        data_urls@,
                        aspect_ratio@,
                    ),
                    turn_id@,
                    bearer,
                ),
                Err(e) => if self.provider is OpenAi && data_urls@.len() > 5 {
                    e@ == invalid_arguments(
                        "OpenAI image editing accepts at most 5 reference images."@,
                    )
                } else {
                    self.lacks_key(bearer) && e@ == auth_required()
                },
            },
    {
        let payload: JsonValue = match self.edit_payload(prompt, data_urls, aspect_ratio) {
            Ok(v) => v,
            Err(e) => {
                return Err(e);
            },
        };
        let headers: Vec<Header> = match self.request_headers(bearer, turn_id) {
            Ok(h) => h,
            Err(e) => {
                return Err(e);
            },
        };
        let url: String = self.url("edits");
        Ok(ImageRequest { operation: "edit", url, headers, payload })
    }
}

impl ImageGenClient {
    /// What is told of a request that was not authorized, where somebody
    /// listens.
    pub fn record_401_attribution(
        &self,
        heard: bool,
        consumer: ToolConsumer,
        sent_bearer: Option<&str>,
    ) -> (r: Option<Attribution401>)
        ensures
            match r {
                Some(a) => heard && a.consumer == consumer && option_view(a.sent_bearer_prefix)
                    == told_key(sent_bearer),
                None => !heard,
            },
    {
        emit_401(heard, consumer, sent_bearer)
    }
}

// ---- answers ----

/// What is asked for.
#[derive(Debug, Clone)]
pub struct ImageGenInput {
    pub prompt: String,
    pub aspect_ratio: String,
}

/// The aspect ratio unless it is set.
pub fn default_aspect_ratio() -> (r: String)
    ensures
        r@ == "auto"@,
{
    "auto".to_owned()
}

/// An image as it came.
#[derive(Debug)]
pub struct ImageGenData {
    pub b64_json: Option<String>,
}

/// The images as they came.
#[derive(Debug)]
pub struct ImageGenResponse {
    pub data: Vec<ImageGenData>,
}

/// The first image, in base64, if it is there.
pub open spec fn first_image(r: ImageGenResponse) -> Option<Seq<char>> {
    if r.data@.len() == 0 {
        None
    } else {
        option_view(r.data@[0].b64_json)
    }
}

impl ImageGenResponse {
    /// The first image, in base64, if it is there.
    pub fn b64_data(&self) -> (r: Option<&str>)
        ensures
            match (r, first_image(*self)) {
                (Some(a), Some(b)) => a@ == b,
                (None, None) => true,
                _ => false,
            },
    {
        if self.data.len() == 0 {
            return None;
        }
        match &self.data[0].b64_json {
            Some(s) => Some(s.as_str()),
            None => None,
        }
    }
}

/// The bytes that stand in a text in base64, or why none do.
pub uninterp spec fn base64_bytes(s: Seq<char>) -> Result<Seq<u8>, Seq<char>>;

/// Calls `decode` of `base64::engine::general_purpose::STANDARD`; the result is
/// a function of the text alone.
#[verifier::external_body]
fn decode_base64(s: &str) -> (r: Result<Vec<u8>, String>)
    ensures
        match (r, base64_bytes(s@)) {
            (Ok(a), Ok(b)) => a@ == b,
            (Err(a), Err(b)) => a@ == b,
            _ => false,
        },
{
    base64::Engine::decode(&base64::engine::general_purpose::STANDARD, s).map_err(|e| e.to_string())
}

/// The image in base64 that came, or that none did. `parsed` is what was read
/// from the body.
pub fn image_data(operation: &str, body: &str, parsed: Result<ImageGenResponse, String>) -> (r: Result<
    String,
    ToolError,
>)
    ensures
        match parsed {
            Err(e) => r is Err && r->Err_0@ == invalid_arguments(
                "Failed to parse image "@ + operation@ + " response: "@ + e@
                    + " — body preview: "@ + sliced(body@, 0, 500),
            ),
            Ok(p) => match first_image(p) {
                Some(data) if data.len() > 0 => r is Ok && r->Ok_0@ == data,
                _ => r is Err && r->Err_0@ == invalid_arguments(
                    "Image "@ + operation@ + " returned no image data."@,
                ),
            },
        },
{
    match parsed {
        Err(e) => {
            let mut message: String = cat5(
                "Failed to parse image ",
                operation,
                " response: ",
                e.as_str(),
                " — body preview: ",
            );
            message.append(slice_chars(body, 0, 500).as_str());
            Err(ToolError::invalid_arguments(message.as_str()))
        },
        Ok(p) => {
            if let Some(data) = p.b64_data() {
                if !data.is_empty() {
                    return Ok(data.to_owned());
                }
            }
            Err(
                ToolError::invalid_arguments(
                    cat3("Image ", operation, " returned no image data.").as_str(),
                ),
            )
        },
    }
}

/// The bytes of an image in base64.
pub fn decode_image(data: &str) -> (r: Result<Vec<u8>, ToolError>)
    ensures
        match (r, base64_bytes(data@)) {
            (Ok(a), Ok(b)) => a@ == b,
            (Err(a), Err(b)) => a@ == invalid_arguments(
                "Failed to decode base64 image data: "@ + b,
            ),
            _ => false,
        },
{
    match decode_base64(data) {
        Ok(bytes) => Ok(bytes),
        Err(e) => Err(
            ToolError::invalid_arguments(
                cat2("Failed to decode base64 image data: ", e.as_str()).as_str(),
            ),
        ),
    }
}

/// What came back of a request.
#[derive(Debug)]
pub enum ImageReply {
    /// The request did not go through.
    Unsent { error: String },
    /// The status is no success; the body is empty if it could not be read.
    Refused { status: u16, status_text: String, body: String },
    /// The body could not be read.
    Unreadable { error: String },
    /// A body, and what was read from it.
    Body { text: String, parsed: Result<ImageGenResponse, String> },
}

/// The error for a status that is no success: it tells the beginning of the
/// body.
pub open spec fn refused_image(
    operation: Seq<char>,
    status: u16,
    status_text: Seq<char>,
    body: Seq<char>,
) -> ErrorView {
    status_failure(
        "http_failure"@,
        status,
        "Image "@ + operation + " failed with HTTP "@ + status_text + ": "@ + sliced(body, 0, 200),
    )
}

/// The image that a reply holds, or why there is none.
pub open spec fn image_in(operation: Seq<char>, reply: ImageReply) -> Result<Seq<u8>, ErrorView> {
    match reply {
        ImageReply::Unsent { error } => Err(
            invalid_arguments("Image "@ + operation + " API request failed: "@ + error@),
        ),
        ImageReply::Refused { status, status_text, body } => Err(
            refused_image(operation, status, status_text@, body@),
        ),
        ImageReply::Unreadable { error } => Err(
            invalid_arguments(
                "Failed to read image "@ + operation + " response body: "@ + error@,
            ),
        ),
        ImageReply::Body { text, parsed: Err(e) } => Err(
            invalid_arguments(
                "Failed to parse image "@ + operation + " response: "@ + e@
                    + " — body preview: "@ + sliced(text@, 0, 500),
            ),
        ),
        ImageReply::Body { text: _, parsed: Ok(p) } => match first_image(p) {
            Some(data) if data.len() > 0 => match base64_bytes(data) {
                Ok(bytes) => Ok(bytes),
                Err(e) => Err(invalid_arguments("Failed to decode base64 image data: "@ + e)),
            },
            _ => Err(
                invalid_arguments("Image "@ + operation + " returned no image data."@),
            ),
        },
    }
}

/// The image that a reply holds, or why there is none.
pub fn read_image(operation: &str, reply: ImageReply) -> (r: Result<Vec<u8>, ToolError>)
    ensures
        match (r, image_in(operation@, reply)) {
            (Ok(a), Ok(b)) => a@ == b,
            (Err(a), Err(b)) => a@ == b,
            _ => false,
        },
{
    match reply {
        ImageReply::Unsent { error } => Err(
            ToolError::invalid_arguments(
                cat4("Image ", operation, " API request failed: ", error.as_str()).as_str(),
            ),
        ),
        ImageReply::Refused { status, status_text, body } => {
            let mut message: String = cat5(
                "Image ",
                operation,
                " failed with HTTP ",
                status_text.as_str(),
                ": ",
            );
            message.append(slice_chars(body.as_str(), 0, 200).as_str());
            Err(ToolError::status_failure("http_failure", status, message.as_str()))
        },
        ImageReply::Unreadable { error } => Err(
            ToolError::invalid_arguments(
                cat4(
                    "Failed to read image ",
                    operation,
                    " response body: ",
                    error.as_str(),
                ).as_str(),
            ),
        ),
        ImageReply::Body { text, parsed } => match image_data(operation, text.as_str(), parsed) {
            Ok(data) => decode_image(data.as_str()),
            Err(e) => Err(e),
        },
    }
}

/// The tool that makes images.
#[derive(Debug, Default, Clone, Copy)]
pub struct ImageGenTool;

impl ImageGenTool {
    /// What the tool says of itself.
    pub fn metadata(&self) -> (r: ToolMetadata)
        ensures
            r@ == (MetadataView {
                id: "image_gen"@,
                kind: ToolKind::ImageGen,
                namespace: ToolNamespace::GrokBuild,
                read_only: false,
                description: IMAGE_GEN_DESCRIPTION@,
            }),
    {
        ToolMetadata {
            id: "image_gen",
            kind: ToolKind::ImageGen,
            namespace: ToolNamespace::GrokBuild,
            read_only: false,
            description: IMAGE_GEN_DESCRIPTION,
        }
    }

    /// The turn of a call: the one that it belongs to, or the call itself.
    pub fn turn_id(&self, turn: Option<&str>, call_id: &str) -> (r: String)
        ensures
            r@ == (match turn {
                Some(t) => t@,
                None => call_id@,
            }),
    {
        match turn {
            Some(t) => t.to_owned(),
            None => call_id.to_owned(),
        }
    }

    /// What a call answers before any request: a user whose tier has no images
    /// is told so.
    pub fn short_answer(&self, client: &ImageGenClient) -> (r: Option<&'static str>)
        ensures
            match r {
                Some(t) => client.tier_restricted && t@ == TIER_RESTRICTED_UPSELL@,
                None => !client.tier_restricted,
            },
    {
        if client.is_tier_restricted() {
            Some(TIER_RESTRICTED_UPSELL)
        } else {
            None
        }
    }
}

// ---- laws ----

/// OpenAI never gets the key of the setup: its headers do not depend on it.
pub proof fn law_openai_never_gets_the_static_key(a: ImageGenConfig, b: ImageGenConfig)
    requires
        match (a, b) {
            (
                ImageGenConfig::Enabled { provider: p, extra_headers: h, .. },
                ImageGenConfig::Enabled { provider: q, extra_headers: k, .. },
            ) => p is OpenAi && q is OpenAi && header_entries(h) == header_entries(k),
            _ => false,
        },
    ensures
        image_headers(a) == image_headers(b),
{
}

/// No request goes to OpenAI without a live key.
pub proof fn law_openai_needs_a_live_key(
    c: ImageGenClient,
    config: ImageGenConfig,
    has_session_provider: bool,
    edit_model: Seq<char>,
)
    requires
        image_client_for(c, config, has_session_provider, edit_model),
        c.provider is OpenAi,
    ensures
        c.require_live_bearer,
        !(c.bearer_source is Session),
        !c.tier_restricted,
        c.model@ == OPENAI_IMAGE_MODEL@,
        c.edit_model@ == OPENAI_IMAGE_MODEL@,
{
}

/// Two setups that differ in their key only look the same in logs.
pub proof fn law_shown_setup_hides_the_key(a: ImageGenConfig, b: ImageGenConfig)
    requires
        a is Enabled,
        b is Enabled,
        b == (ImageGenConfig::Enabled {
            provider: a->provider,
            api_key: b->api_key,
            base_url: a->base_url,
            extra_headers: a->extra_headers,
            has_api_key_provider: a->has_api_key_provider,
            image_gen_enabled: a->image_gen_enabled,
            image_edit_enabled: a->image_edit_enabled,
            model_override: a->model_override,
            edit_model_override: a->edit_model_override,
            tier_restricted: a->tier_restricted,
        }),
    ensures
        shown_config(a) == shown_config(b),
{
}

/// A request for an image carries the prompt of the call and the model of the client,
/// and the shape that was asked for in the words of the provider.
pub proof fn law_requests_carry_the_prompt(
    provider: ImageGenerationProvider,
    model: Seq<char>,
    prompt: Seq<char>,
    aspect_ratio: Seq<char>,
)
    ensures
        ({
            let fields = generation_fields(provider, model, prompt, aspect_ratio);
            &&& fields.contains(("model"@, json_quoted(model)))
            &&& fields.contains(("prompt"@, json_quoted(prompt)))
            &&& provider is Grok ==> fields.contains(("aspect_ratio"@, json_quoted(aspect_ratio)))
                && fields.contains(("n"@, "1"@))
            &&& provider is OpenAi ==> fields.contains(
                ("size"@, json_quoted(size_for(aspect_ratio))),
            )
        }),
{
    let fields = generation_fields(provider, model, prompt, aspect_ratio);
    assert(fields[0] == ("model"@, json_quoted(model)));
    assert(fields[1] == ("prompt"@, json_quoted(prompt)));
    match provider {
        ImageGenerationProvider::Grok => {
            assert(fields[2] == ("n"@, "1"@));
            assert(fields[3] == ("aspect_ratio"@, json_quoted(aspect_ratio)));
        },
        ImageGenerationProvider::OpenAi => {
            assert(fields[4] == ("size"@, json_quoted(size_for(aspect_ratio))));
        },
    }
}

/// A request for a change carries the prompt of the call, the model for changes, and
/// every image, in order.
pub proof fn law_edits_carry_their_images(
    provider: ImageGenerationProvider,
    model: Seq<char>,
    prompt: Seq<char>,
    urls: Seq<String>,
    aspect_ratio: Seq<char>,
)
    ensures
        ({
            let fields = edit_fields(provider, model, prompt, urls, aspect_ratio);
            let name = if provider is Grok {
                "url"@
            } else {
                "image_url"@
            };
            let images = Seq::new(
                urls.len(),
                |i: int| json_object(seq![(name, json_quoted(urls[i]@))]),
            );
            &&& fields.contains(("model"@, json_quoted(model)))
            &&& fields.contains(("prompt"@, json_quoted(prompt)))
            &&& provider is Grok && urls.len() == 1 ==> fields.contains(("image"@, images[0]))
            &&& !(provider is Grok && urls.len() == 1) ==> fields.contains(
                ("images"@, json_array(images)),
            )
        }),
{
    let fields = edit_fields(provider, model, prompt, urls, aspect_ratio);
    assert(fields[0] == ("model"@, json_quoted(model)));
    assert(fields[1] == ("prompt"@, json_quoted(prompt)));
    let name = if provider is Grok {
        "url"@
    } else {
        "image_url"@
    };
    let images = Seq::new(urls.len(), |i: int| json_object(seq![(name, json_quoted(urls[i]@))]));
    assert(url_objects(name, urls) =~= images);
    assert(fields[5].1 == if provider is Grok && urls.len() == 1 {
        images[0]
    } else {
        json_array(images)
    });
    assert(fields[5].0 == if provider is Grok && urls.len() == 1 {
        "image"@
    } else {
        "images"@
    });
}

/// The size for a shape: wide, tall or square, and left open for any other.
pub proof fn law_sizes_follow_the_shape(a: Seq<char>)
    ensures
        trimmed(a) == "1:1"@ ==> size_for(a) == "1024x1024"@,
        trimmed(a) == "16:9"@ || trimmed(a) == "3:2"@ || trimmed(a) == "4:3"@ || trimmed(a)
            == "2:1"@ || trimmed(a) == "20:9"@ || trimmed(a) == "19.5:9"@ ==> size_for(a)
            == "1536x1024"@,
        trimmed(a) == "9:16"@ || trimmed(a) == "2:3"@ || trimmed(a) == "3:4"@ || trimmed(a)
            == "1:2"@ || trimmed(a) == "9:20"@ || trimmed(a) == "9:19.5"@ ==> size_for(a)
            == "1024x1536"@,
        trimmed(a) == "auto"@ ==> size_for(a) == "auto"@,
{
    reveal_strlit("1:1");
    reveal_strlit("16:9");
    reveal_strlit("3:2");
    reveal_strlit("4:3");
    reveal_strlit("2:1");
    reveal_strlit("20:9");
    reveal_strlit("19.5:9");
    reveal_strlit("9:16");
    reveal_strlit("2:3");
    reveal_strlit("3:4");
    reveal_strlit("1:2");
    reveal_strlit("9:20");
    reveal_strlit("9:19.5");
    reveal_strlit("auto");
    let (w, n) = (trimmed(a), trimmed(a).len());
    if w == "1:1"@ {
        assert(w[0] == '1' && w[2] == '1' && n == 3);
    }
    if n == 3 {
        assert("3:2"@[0] == '3' && "4:3"@[0] == '4' && "2:1"@[0] == '2' && "2:3"@[0] == '2'
            && "3:4"@[0] == '3' && "1:2"@[0] == '1');
        assert("3:2"@[2] == '2' && "4:3"@[2] == '3' && "2:1"@[2] == '1' && "2:3"@[2] == '3'
            && "3:4"@[2] == '4' && "1:2"@[2] == '2');
    }
    if n == 4 {
        assert("16:9"@[0] == '1' && "20:9"@[0] == '2' && "9:16"@[0] == '9' && "9:20"@[0] == '9'
            && "auto"@[0] == 'a');
        assert("9:16"@[2] == '1' && "9:20"@[2] == '2');
    }
    if n == 6 {
        assert("19.5:9"@[0] == '1' && "9:19.5"@[0] == '9');
    }
}

/// The own headers of a request: the live key where there is one, the session, and the
/// turn for the provider that wants it.
pub proof fn law_requests_are_signed_with_the_live_key(
    c: ImageGenClient,
    bearer: Option<&str>,
    turn_id: Seq<char>,
)
    ensures
        bearer matches Some(b) ==> c.own_headers(bearer, turn_id).contains(
            ("authorization"@, "Bearer "@ + b@),
        ),
        c.session_header matches Some(s) ==> c.own_headers(bearer, turn_id).contains(
            (SESSION_ID_HEADER@, s@),
        ),
        c.provider is OpenAi ==> c.own_headers(bearer, turn_id).contains(
            (CODEX_IMAGE_TURN_ID_HEADER@, turn_id),
        ),
        c.lacks_key(bearer) <==> c.require_live_bearer && bearer is None,
{
    let h = c.own_headers(bearer, turn_id);
    let a = if bearer is Some {
        1int
    } else {
        0
    };
    let b = if c.session_header is Some {
        1int
    } else {
        0
    };
    if bearer is Some {
        assert(h[0] == ("authorization"@, "Bearer "@ + bearer->0@));
    }
    if c.session_header is Some {
        assert(h[a] == (SESSION_ID_HEADER@, c.session_header->0@));
    }
    if c.provider is OpenAi {
        assert(h[a + b] == (CODEX_IMAGE_TURN_ID_HEADER@, turn_id));
    }
}

/// The first image of an answer is the one that is taken.
pub proof fn law_the_first_image_is_taken(r: ImageGenResponse)
    ensures
        r.data@.len() > 0 ==> first_image(r) == option_view(r.data@[0].b64_json),
        r.data@.len() == 0 ==> first_image(r) is None,
{
}

/// A generation asks the right endpoint with the prompt of the call.
pub proof fn law_generations_are_asked(
    c: &ImageGenClient,
    prompt: &str,
    aspect_ratio: &str,
    turn_id: &str,
    bearer: Option<&str>,
    r: Result<ImageRequest, ToolError>,
)
    requires
        call_ensures(ImageGenClient::generate, (c, prompt, aspect_ratio, turn_id, bearer), r),
    ensures
        r is Ok <==> !(c.require_live_bearer && bearer is None),
        r matches Ok(q) ==> q.url@ == without_slashes(c.base_url@) + "/images/"@ + "generations"@
            && q.operation@ == "generation"@ && q.payload@ == json_object(
            generation_fields(c.provider, c.model@, prompt@, aspect_ratio@),
        ),
{
}

/// A change asks the right endpoint with the prompt and the images of the call; one
/// provider takes five images at most.
pub proof fn law_edits_are_asked(
    c: &ImageGenClient,
    prompt: &str,
    data_urls: &[String],
    aspect_ratio: &str,
    turn_id: &str,
    bearer: Option<&str>,
    r: Result<ImageRequest, ToolError>,
)
    requires
        call_ensures(
            ImageGenClient::edit,
            (c, prompt, data_urls, aspect_ratio, turn_id, bearer),
            r,
        ),
    ensures
        r is Ok <==> !(c.provider is OpenAi && data_urls@.len() > 5) && !(c.require_live_bearer
            && bearer is None),
        r matches Ok(q) ==> q.url@ == without_slashes(c.base_url@) + "/images/"@ + "edits"@
            && q.payload@ == json_object(
            edit_fields(c.provider, c.edit_model@, prompt@, data_urls@, aspect_ratio@),
        ),
{
}

/// The image of an answer is read from its data: where there is some it is that, and
/// else there is an error.
pub proof fn law_images_are_read_from_the_answer(
    operation: &str,
    body: &str,
    parsed: Result<ImageGenResponse, String>,
    r: Result<String, ToolError>,
)
    requires
        call_ensures(image_data, (operation, body, parsed), r),
    ensures
        r is Ok <==> parsed is Ok && parsed->Ok_0.data@.len() > 0 && parsed->Ok_0.data@[0].b64_json
            is Some && parsed->Ok_0.data@[0].b64_json->0@.len() > 0,
        r matches Ok(data) ==> data@ == parsed->Ok_0.data@[0].b64_json->0@,
{
}

/// An image comes out of an answer exactly where the answer has one that can be decoded.
pub proof fn law_images_come_out_of_answers(operation: Seq<char>, reply: ImageReply)
    ensures
        image_in(operation, reply) is Ok <==> (reply matches ImageReply::Body { parsed: Ok(p), .. }
            && p.data@.len() > 0 && p.data@[0].b64_json is Some && p.data@[0].b64_json->0@.len() > 0
            && base64_bytes(p.data@[0].b64_json->0@) is Ok),
        image_in(operation, reply) matches Ok(bytes) ==> (reply matches ImageReply::Body {
            parsed: Ok(p),
            ..
        } && base64_bytes(p.data@[0].b64_json->0@) == Ok::<Seq<u8>, Seq<char>>(bytes)),
        reply matches ImageReply::Refused { status, .. } ==> (image_in(operation, reply)
            matches Err(e) && e.status == Some(status)),
{
}

/// What is set up is what a client uses: its address, its models where they are named,
/// and for Grok the key of the setup in each request that no extra header changes.
pub proof fn law_clients_use_their_setup(
    c: ImageGenClient,
    config: ImageGenConfig,
    has_session_provider: bool,
    edit_model: Seq<char>,
)
    requires
        image_client_for(c, config, has_session_provider, edit_model),
    ensures
        config is Enabled,
        c.provider == config->provider,
        c.base_url@ == config->base_url@,
        config->provider is Grok ==> {
            &&& config->model_override is Some && !blank(config->model_override->0@) ==> c.model@
                == config->model_override->0@
            &&& config->model_override is None ==> c.model@ == "grok-imagine-image-quality"@
            &&& config->edit_model_override is None ==> c.edit_model@ == edit_model
            &&& c.extension@ == "jpg"@
            &&& c.tier_restricted == config->tier_restricted
        },
        config->provider is OpenAi ==> c.extension@ == "png"@ && c.model@ == "gpt-image-2"@,
        config->has_api_key_provider ==> c.bearer_source is Config,
        !config->has_api_key_provider && config->provider is Grok && has_session_provider
            ==> c.bearer_source is Session,
        config->provider is Grok && config.entries().len() == 0 ==> header_map(
            c.headers,
        ).contains_pair("authorization"@, "Bearer "@ + config->api_key@),
{
    if config->provider is Grok && config.entries().len() == 0 {
        let base = json_header().insert("authorization"@, "Bearer "@ + config->api_key@);
        assert(all_headers(base, config.entries(), 0) == Ok::<
            Map<Seq<char>, Seq<char>>,
            Seq<char>,
        >(base));
    }
}

} // verus!

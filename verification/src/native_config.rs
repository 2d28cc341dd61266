//! Effective Codeg Agent model configuration: the bound provider is
//! authoritative. URL / key / model env keys are a projection of the bound
//! provider, not a second env-only auth path. Context windows and max-output
//! live on the agent env.

use vstd::prelude::*;

use crate::json::{json_get, json_get_str, json_parse, json_str, JsonValue};
use crate::strmap::{pairs_distinct, pairs_map, StrMap};
use crate::json::parse_json;
use crate::text::{decimal_seq, key_lt, push_decimal, push_str};
use crate::text::{
    any_whitespace, chars_of, count_leading_char, eq_lit, index_of_char, last_index_of_char,
    parse_unsigned_bounded, starts_with_lit, str_eq, strip_prefix_lit, subvec, to_ascii_lowercase,
    trim, trim_vec,
};
use crate::text::{
    before_first, count_while, has_prefix, is_char, is_ws, last_index_seq, lower_seq, parse_bounded,
    strip_prefix_seq, trim_seq,
};

verus! {

pub const API_BASE_URL_KEY: &'static str = "CODEG_AGENT_API_BASE_URL";
pub const API_KEY_KEY: &'static str = "CODEG_AGENT_API_KEY";
pub const MODEL_KEY: &'static str = "CODEG_AGENT_MODEL";
pub const CONTEXT_WINDOWS_KEY: &'static str = "CODEG_AGENT_CONTEXT_WINDOWS";
pub const MAX_OUTPUT_TOKENS_KEY: &'static str = "CODEG_AGENT_MAX_OUTPUT_TOKENS";
pub const SYSTEM_PROMPT_KEY: &'static str = "CODEG_AGENT_SYSTEM_PROMPT";
pub const COMPACT_PROMPT_KEY: &'static str = "CODEG_AGENT_COMPACT_PROMPT";
pub const COMPACT_SOFT_PERCENT_KEY: &'static str = "CODEG_AGENT_COMPACT_SOFT_PERCENT";
pub const COMPACT_RECENT_TURNS_KEY: &'static str = "CODEG_AGENT_COMPACT_RECENT_TURNS";
pub const COMPACT_MODEL_KEY: &'static str = "CODEG_AGENT_COMPACT_MODEL";
pub const PROTOCOL_KEY: &'static str = "CODEG_AGENT_PROTOCOL";
pub const RESOLVED_PROTOCOL_KEY: &'static str = "CODEG_AGENT_RESOLVED_PROTOCOL";
pub const MAX_TURNS_KEY: &'static str = "CODEG_AGENT_MAX_TURNS";
/// Spawn/preflight internal: set by [`overlay_bound_provider`] when a real
/// model-provider bind is projected this launch. `CODEG_AGENT_API_*` keys
/// without this marker must not authenticate.
pub const PROVIDER_BOUND_KEY: &'static str = "CODEG_AGENT_PROVIDER_BOUND";
pub const PROVIDER_BOUND_VALUE: &'static str = "1";

pub const DEFAULT_MAX_OUTPUT_TOKENS: u32 = 4096;
pub const DEFAULT_COMPACT_SOFT_PERCENT: u8 = 80;
pub const DEFAULT_COMPACT_RECENT_TURNS: u32 = 6;
pub const DEFAULT_MAX_TURNS: u32 = 40;
/// Dummy Completions API key for loopback servers that ignore Authorization.
pub const LOCAL_API_KEY: &'static str = "local";
/// Reserved tokens that must remain after max-output is taken from the window.
pub const OUTPUT_SAFETY_MARGIN: u32 = 1024;

/// L2 LLM compact instruction when `CODEG_AGENT_COMPACT_PROMPT` is empty.
pub const DEFAULT_COMPACT_PROMPT: &'static str = "Summarize the evicted conversation turns. Output only the summary body. Preserve unfinished tool conclusions, user constraints, and file paths. Do not replay the original text of evicted turns.";

/// Agent env: variable name to value.
pub type EnvMap = StrMap<String>;

pub struct BoundProvider {
    pub api_url: String,
    pub api_key: String,
    pub model: Option<String>,
}

pub struct BoundProviderView {
    pub api_url: Seq<char>,
    pub api_key: Seq<char>,
    pub model: Option<Seq<char>>,
}

pub open spec fn opt_string_view(o: Option<String>) -> Option<Seq<char>> {
    match o {
        Some(s) => Some(s@),
        None => None,
    }
}

pub open spec fn opt_str_view(o: Option<&str>) -> Option<Seq<char>> {
    match o {
        Some(s) => Some(s@),
        None => None,
    }
}

pub open spec fn opt_chars_view(o: Option<Vec<char>>) -> Option<Seq<char>> {
    match o {
        Some(s) => Some(s@),
        None => None,
    }
}

impl View for BoundProvider {
    type V = BoundProviderView;

    open spec fn view(&self) -> BoundProviderView {
        BoundProviderView {
            api_url: self.api_url@,
            api_key: self.api_key@,
            model: opt_string_view(self.model),
        }
    }
}

/// How the bound provider wants the request layer to talk to the gateway.
#[derive(Debug, Clone, Copy, PartialEq, Eq, Structural)]
pub enum CodegProtocol {
    Auto,
    ChatCompletions,
    Responses,
}

/// Wire protocol actually used for every model call in one session.
#[derive(Debug, Clone, Copy, PartialEq, Eq, Structural)]
pub enum WireProtocol {
    ChatCompletions,
    Responses,
}

pub struct EffectiveNativeConfig {
    pub api_base_url: String,
    pub api_key: String,
    pub model_id: String,
    pub context_windows: StrMap<u32>,
    pub max_output_tokens: u32,
    /// Trimmed `CODEG_AGENT_SYSTEM_PROMPT`. `None` means the built-in preamble.
    pub system_prompt: Option<String>,
    /// Trimmed `CODEG_AGENT_COMPACT_PROMPT`. `None` means [`DEFAULT_COMPACT_PROMPT`].
    pub compact_prompt: Option<String>,
    /// Soft compact trigger as percent of the input budget. Default 80.
    pub compact_soft_percent: u8,
    /// Keep at least this many live turns before compacting. Default 6.
    pub compact_recent_turns: u32,
    /// Optional Completions id for L2 compact. `None` uses `model_id`.
    pub compact_model_id: Option<String>,
    /// Rig `max_turns` for one Prompt. Default 40.
    pub max_turns: u32,
    /// Provider request protocol. One session uses one resolved wire protocol.
    pub protocol: CodegProtocol,
    /// Last successful auto-detect result. Ignored unless `protocol` is Auto.
    pub resolved_protocol: Option<WireProtocol>,
}

pub struct NativeConfigView {
    pub api_base_url: Seq<char>,
    pub api_key: Seq<char>,
    pub model_id: Seq<char>,
    pub context_windows: Map<Seq<char>, u32>,
    pub max_output_tokens: u32,
    pub system_prompt: Option<Seq<char>>,
    pub compact_prompt: Option<Seq<char>>,
    pub compact_soft_percent: u8,
    pub compact_recent_turns: u32,
    pub compact_model_id: Option<Seq<char>>,
    pub max_turns: u32,
    pub protocol: CodegProtocol,
    pub resolved_protocol: Option<WireProtocol>,
}

impl View for EffectiveNativeConfig {
    type V = NativeConfigView;

    open spec fn view(&self) -> NativeConfigView {
        NativeConfigView {
            api_base_url: self.api_base_url@,
            api_key: self.api_key@,
            model_id: self.model_id@,
            context_windows: self.context_windows@,
            max_output_tokens: self.max_output_tokens,
            system_prompt: opt_string_view(self.system_prompt),
            compact_prompt: opt_string_view(self.compact_prompt),
            compact_soft_percent: self.compact_soft_percent,
            compact_recent_turns: self.compact_recent_turns,
            compact_model_id: opt_string_view(self.compact_model_id),
            max_turns: self.max_turns,
            protocol: self.protocol,
            resolved_protocol: self.resolved_protocol,
        }
    }
}

#[derive(Debug, PartialEq, Eq)]
pub enum NativeConfigError {
    MissingProvider,
    EmptyApiKey,
    InvalidApiUrl,
    MissingModelId,
    InvalidContextWindows,
    MissingContextWindow { model_id: String },
    InvalidMaxOutputTokens,
    OutputExceedsWindow { max_output: u32, window: u32 },
}

/// [`NativeConfigError`] with its text as characters.
pub enum ConfigFailure {
    MissingProvider,
    EmptyApiKey,
    InvalidApiUrl,
    MissingModelId,
    InvalidContextWindows,
    MissingContextWindow(Seq<char>),
    InvalidMaxOutputTokens,
    OutputExceedsWindow(u32, u32),
}

impl View for NativeConfigError {
    type V = ConfigFailure;

    open spec fn view(&self) -> ConfigFailure {
        match self {
            NativeConfigError::MissingProvider => ConfigFailure::MissingProvider,
            NativeConfigError::EmptyApiKey => ConfigFailure::EmptyApiKey,
            NativeConfigError::InvalidApiUrl => ConfigFailure::InvalidApiUrl,
            NativeConfigError::MissingModelId => ConfigFailure::MissingModelId,
            NativeConfigError::InvalidContextWindows => ConfigFailure::InvalidContextWindows,
            NativeConfigError::MissingContextWindow { model_id } => ConfigFailure::MissingContextWindow(
                model_id@,
            ),
            NativeConfigError::InvalidMaxOutputTokens => ConfigFailure::InvalidMaxOutputTokens,
            NativeConfigError::OutputExceedsWindow { max_output, window } =>
                ConfigFailure::OutputExceedsWindow(*max_output, *window),
        }
    }
}

// ----- specifications -----

/// A raw value trimmed, where empty counts as absent.
pub open spec fn trimmed_opt(raw: Option<Seq<char>>) -> Option<Seq<char>> {
    match raw {
        Some(s) => if trim_seq(s).len() > 0 {
            Some(trim_seq(s))
        } else {
            None
        },
        None => None,
    }
}

/// The value under `key`, if any.
pub open spec fn env_get(env: Map<Seq<char>, Seq<char>>, key: Seq<char>) -> Option<Seq<char>> {
    if env.contains_key(key) {
        Some(env[key])
    } else {
        None
    }
}

/// The raw value trimmed, or the empty text when absent.
pub open spec fn trimmed_or_empty(raw: Option<Seq<char>>) -> Seq<char> {
    match raw {
        Some(s) => trim_seq(s),
        None => Seq::empty(),
    }
}

pub open spec fn codeg_protocol_of(raw: Option<Seq<char>>) -> CodegProtocol {
    let t = trimmed_or_empty(raw);
    if t == "auto"@ {
        CodegProtocol::Auto
    } else if t == "responses"@ {
        CodegProtocol::Responses
    } else {
        CodegProtocol::ChatCompletions
    }
}

pub open spec fn wire_protocol_of(raw: Option<Seq<char>>) -> Option<WireProtocol> {
    let t = trimmed_or_empty(raw);
    if t == "chat_completions"@ {
        Some(WireProtocol::ChatCompletions)
    } else if t == "responses"@ {
        Some(WireProtocol::Responses)
    } else {
        None
    }
}

/// Overlaying one value: empty removes the key, anything else sets it.
pub open spec fn overlay_value(
    env: Map<Seq<char>, Seq<char>>,
    key: Seq<char>,
    value: Seq<char>,
) -> Map<Seq<char>, Seq<char>> {
    if value.len() == 0 {
        env.remove(key)
    } else {
        env.insert(key, value)
    }
}

/// First non-empty trimmed `slug` of an object item, or the item itself when
/// it is a non-empty string, over a list of catalog items.
pub open spec fn first_slug_items(items: Seq<JsonValue>) -> Option<Seq<char>>
    decreases items.len(),
{
    if items.len() == 0 {
        None
    } else {
        match trimmed_opt(json_get_str(items[0], "slug"@)) {
            Some(slug) => Some(slug),
            None => match trimmed_opt(json_str(items[0])) {
                Some(id) => Some(id),
                None => first_slug_items(items.drop_first()),
            },
        }
    }
}

pub open spec fn first_slug(list: Option<JsonValue>) -> Option<Seq<char>> {
    match list {
        Some(JsonValue::Array(items)) => first_slug_items(items@),
        _ => None,
    }
}

/// Chat Completions model id named by a parsed `model` column.
pub open spec fn model_id_from_json_spec(v: JsonValue) -> Option<Seq<char>> {
    match v {
        JsonValue::Str(s) => trimmed_opt(Some(s@)),
        JsonValue::Object(_) => {
            if trimmed_opt(json_get_str(v, "main"@)) is Some {
                trimmed_opt(json_get_str(v, "main"@))
            } else if trimmed_opt(json_get_str(v, "customOption"@)) is Some {
                trimmed_opt(json_get_str(v, "customOption"@))
            } else if trimmed_opt(json_get_str(v, "default"@)) is Some {
                trimmed_opt(json_get_str(v, "default"@))
            } else if first_slug(json_get(v, "customs"@)) is Some {
                first_slug(json_get(v, "customs"@))
            } else {
                first_slug(json_get(v, "models"@))
            }
        },
        _ => None,
    }
}

/// Model id of a provider `model` column: text that does not parse as JSON
/// passes through trimmed; JSON is read by [`model_id_from_json_spec`].
pub open spec fn completions_model_spec(raw: Option<Seq<char>>) -> Option<Seq<char>> {
    match trimmed_opt(raw) {
        None => None,
        Some(t) => match json_parse(t) {
            Some(v) => model_id_from_json_spec(v),
            None => Some(t),
        },
    }
}

/// Env after [`overlay_bound_provider`].
pub open spec fn overlay_provider_spec(
    env: Map<Seq<char>, Seq<char>>,
    p: BoundProviderView,
) -> Map<Seq<char>, Seq<char>> {
    let e1 = overlay_value(env, API_BASE_URL_KEY@, trim_seq(p.api_url));
    let e2 = overlay_value(e1, API_KEY_KEY@, trim_seq(p.api_key));
    let model = match completions_model_spec(p.model) {
        Some(m) => m,
        None => Seq::empty(),
    };
    let e3 = overlay_value(e2, MODEL_KEY@, model);
    e3.insert(PROVIDER_BOUND_KEY@, PROVIDER_BOUND_VALUE@)
}

pub open spec fn has_provider_bind(env: Map<Seq<char>, Seq<char>>) -> bool {
    env_get(env, PROVIDER_BOUND_KEY@) == Some(PROVIDER_BOUND_VALUE@)
}

/// `http://` or `https://`, a non-empty host, and no whitespace anywhere.
pub open spec fn is_http_url_spec(raw: Seq<char>) -> bool {
    let r = trim_seq(raw);
    let rest = match strip_prefix_seq(r, "https://"@) {
        Some(x) => Some(x),
        None => strip_prefix_seq(r, "http://"@),
    };
    match rest {
        Some(host_and_path) => before_first(host_and_path, '/').len() > 0 && !(exists|i: int|
            0 <= i < r.len() && is_ws(#[trigger] r[i])),
        None => false,
    }
}

/// Host of an http(s) URL: after any `user@`, without the port, and without
/// IPv6 brackets.
pub open spec fn http_host_spec(raw: Seq<char>) -> Option<Seq<char>> {
    let r = trim_seq(raw);
    let rest = match strip_prefix_seq(r, "https://"@) {
        Some(x) => Some(x),
        None => strip_prefix_seq(r, "http://"@),
    };
    match rest {
        None => None,
        Some(rest) => {
            let hostport = before_first(rest, '/');
            let host = match last_index_seq(hostport, '@') {
                Some(i) => hostport.skip(i + 1),
                None => hostport,
            };
            if has_prefix(host, "["@) {
                Some(before_first(host.skip(count_while(host, is_char('[')) as int), ']'))
            } else {
                Some(before_first(host, ':'))
            }
        },
    }
}

pub open spec fn is_loopback_spec(raw: Seq<char>) -> bool {
    match http_host_spec(raw) {
        Some(h) => {
            let l = lower_seq(h);
            l == "localhost"@ || l == "127.0.0.1"@ || l == "::1"@ || l == "0.0.0.0"@
        },
        None => false,
    }
}

pub open spec fn percent_spec(raw: Option<Seq<char>>, default: u8) -> u8 {
    match trimmed_opt(raw) {
        None => default,
        Some(t) => match parse_bounded(t, 255) {
            Some(v) => if 1 <= v <= 100 {
                v as u8
            } else {
                default
            },
            None => default,
        },
    }
}

pub open spec fn positive_u32_spec(raw: Option<Seq<char>>, default: u32) -> u32 {
    match trimmed_opt(raw) {
        None => default,
        Some(t) => match parse_bounded(t, u32::MAX as nat) {
            Some(v) => if v > 0 {
                v as u32
            } else {
                default
            },
            None => default,
        },
    }
}

/// `None` when the value is set but not a positive integer.
pub open spec fn max_output_spec(raw: Option<Seq<char>>) -> Option<u32> {
    match trimmed_opt(raw) {
        None => Some(DEFAULT_MAX_OUTPUT_TOKENS),
        Some(t) => match parse_bounded(t, u32::MAX as nat) {
            Some(v) => if v > 0 {
                Some(v as u32)
            } else {
                None
            },
            None => None,
        },
    }
}

/// Window of one `CODEG_AGENT_CONTEXT_WINDOWS` member: trimmed non-empty
/// model id, and a positive `u32` given as a number or as decimal text.
pub open spec fn window_entry(e: (String, JsonValue)) -> Option<(Seq<char>, u32)> {
    let k = trim_seq(e.0@);
    let w: Option<u32> = match e.1 {
        JsonValue::Number(n) => if 0 < n && n <= u32::MAX {
            Some(n as u32)
        } else {
            None
        },
        JsonValue::Str(s) => match parse_bounded(trim_seq(s@), u32::MAX as nat) {
            Some(v) => if v > 0 {
                Some(v as u32)
            } else {
                None
            },
            None => None,
        },
        _ => None,
    };
    if k.len() == 0 {
        None
    } else {
        match w {
            Some(w) => Some((k, w)),
            None => None,
        }
    }
}

/// Windows of the members in order; a later member overrides an earlier one
/// with the same trimmed id. `None` when any member is invalid.
pub open spec fn windows_from(es: Seq<(String, JsonValue)>) -> Option<Map<Seq<char>, u32>>
    decreases es.len(),
{
    if es.len() == 0 {
        Some(Map::empty())
    } else {
        match windows_from(es.drop_last()) {
            None => None,
            Some(m) => match window_entry(es.last()) {
                None => None,
                Some((k, w)) => Some(m.insert(k, w)),
            },
        }
    }
}

/// `CODEG_AGENT_CONTEXT_WINDOWS`: absent or blank is no windows; otherwise a
/// JSON object of model id to window. `None` when it is invalid.
pub open spec fn context_windows_spec(raw: Option<Seq<char>>) -> Option<Map<Seq<char>, u32>> {
    match trimmed_opt(raw) {
        None => Some(Map::empty()),
        Some(t) => match json_parse(t) {
            Some(v) => windows_of_json(v),
            None => None,
        },
    }
}

/// Windows of a parsed `CODEG_AGENT_CONTEXT_WINDOWS`: an object's members
/// by [`windows_from`]; `None` for any other value.
pub open spec fn windows_of_json(v: JsonValue) -> Option<Map<Seq<char>, u32>> {
    match v {
        JsonValue::Object(entries) => windows_from(entries@),
        _ => None,
    }
}

pub open spec fn saturating_sub_u32(a: u32, b: u32) -> u32 {
    if a >= b {
        (a - b) as u32
    } else {
        0
    }
}

/// The configuration [`resolve_codeg_agent_config`] derives, or its error.
pub open spec fn resolve_spec(
    agent_env: Map<Seq<char>, Seq<char>>,
    provider: Option<BoundProviderView>,
) -> Result<NativeConfigView, ConfigFailure> {
    match provider {
        None => Err(ConfigFailure::MissingProvider),
        Some(p) => {
            let env = overlay_provider_spec(agent_env, p);
            match trimmed_opt(env_get(env, API_BASE_URL_KEY@)) {
                None => Err(ConfigFailure::InvalidApiUrl),
                Some(url) => if !is_http_url_spec(url) {
                    Err(ConfigFailure::InvalidApiUrl)
                } else {
                    let key = match trimmed_opt(env_get(env, API_KEY_KEY@)) {
                        Some(k) => Some(k),
                        None => if is_loopback_spec(url) {
                            Some(LOCAL_API_KEY@)
                        } else {
                            None
                        },
                    };
                    match key {
                        None => Err(ConfigFailure::EmptyApiKey),
                        Some(key) => match trimmed_opt(env_get(env, MODEL_KEY@)) {
                            None => Err(ConfigFailure::MissingModelId),
                            Some(model) => match context_windows_spec(
                                env_get(env, CONTEXT_WINDOWS_KEY@),
                            ) {
                                None => Err(ConfigFailure::InvalidContextWindows),
                                Some(windows) => if !windows.contains_key(model) {
                                    Err(ConfigFailure::MissingContextWindow(model))
                                } else {
                                    let window = windows[model];
                                    match max_output_spec(env_get(env, MAX_OUTPUT_TOKENS_KEY@)) {
                                        None => Err(ConfigFailure::InvalidMaxOutputTokens),
                                        Some(max_output) => if max_output == 0 || max_output
                                            > saturating_sub_u32(window, OUTPUT_SAFETY_MARGIN) {
                                            Err(ConfigFailure::OutputExceedsWindow(max_output, window))
                                        } else {
                                            Ok(
                                                NativeConfigView {
                                                    api_base_url: url,
                                                    api_key: key,
                                                    model_id: model,
                                                    context_windows: windows,
                                                    max_output_tokens: max_output,
                                                    system_prompt: trimmed_opt(
                                                        env_get(env, SYSTEM_PROMPT_KEY@),
                                                    ),
                                                    compact_prompt: trimmed_opt(
                                                        env_get(env, COMPACT_PROMPT_KEY@),
                                                    ),
                                                    compact_soft_percent: percent_spec(
                                                        env_get(env, COMPACT_SOFT_PERCENT_KEY@),
                                                        DEFAULT_COMPACT_SOFT_PERCENT,
                                                    ),
                                                    compact_recent_turns: positive_u32_spec(
                                                        env_get(env, COMPACT_RECENT_TURNS_KEY@),
                                                        DEFAULT_COMPACT_RECENT_TURNS,
                                                    ),
                                                    compact_model_id: trimmed_opt(
                                                        env_get(env, COMPACT_MODEL_KEY@),
                                                    ),
                                                    max_turns: positive_u32_spec(
                                                        env_get(env, MAX_TURNS_KEY@),
                                                        DEFAULT_MAX_TURNS,
                                                    ),
                                                    protocol: codeg_protocol_of(
                                                        env_get(env, PROTOCOL_KEY@),
                                                    ),
                                                    resolved_protocol: wire_protocol_of(
                                                        env_get(env, RESOLVED_PROTOCOL_KEY@),
                                                    ),
                                                },
                                            )
                                        },
                                    }
                                },
                            },
                        },
                    }
                },
            }
        },
    }
}

// ----- executable functions -----

pub open spec fn codeg_protocol_str(p: CodegProtocol) -> Seq<char> {
    match p {
        CodegProtocol::Auto => "auto"@,
        CodegProtocol::ChatCompletions => "chat_completions"@,
        CodegProtocol::Responses => "responses"@,
    }
}

pub open spec fn wire_protocol_str(p: WireProtocol) -> Seq<char> {
    match p {
        WireProtocol::ChatCompletions => "chat_completions"@,
        WireProtocol::Responses => "responses"@,
    }
}

/// The raw value trimmed, empty when absent.
fn trimmed_or_empty_chars(raw: Option<&str>) -> (r: Vec<char>)
    ensures
        r@ == trimmed_or_empty(opt_str_view(raw)),
{
    match raw {
        Some(s) => trim_vec(&chars_of(s)),
        None => Vec::new(),
    }
}

/// The raw value trimmed; `None` when absent or blank.
fn trimmed_chars(raw: Option<&str>) -> (r: Option<Vec<char>>)
    ensures
        opt_chars_view(r) == trimmed_opt(opt_str_view(raw)),
{
    match raw {
        Some(s) => {
            let t = trim_vec(&chars_of(s));
            if t.len() > 0 {
                Some(t)
            } else {
                None
            }
        },
        None => None,
    }
}

fn opt_as_str(o: &Option<String>) -> (r: Option<&str>)
    ensures
        opt_str_view(r) == opt_string_view(*o),
{
    match o {
        Some(s) => Some(s.as_str()),
        None => None,
    }
}

fn env_lookup<'a>(env: &'a EnvMap, key: &str) -> (r: Option<&'a str>)
    ensures
        opt_str_view(r) == env_get(env@, key@),
{
    match env.get(key) {
        Some(v) => Some(v.as_str()),
        None => None,
    }
}

impl CodegProtocol {
    pub fn as_str(self) -> (r: &'static str)
        ensures
            r@ == codeg_protocol_str(self),
    {
        match self {
            CodegProtocol::Auto => "auto",
            CodegProtocol::ChatCompletions => "chat_completions",
            CodegProtocol::Responses => "responses",
        }
    }

    /// Trimmed `auto` or `responses`; anything else is Chat Completions.
    pub fn parse(raw: Option<&str>) -> (r: Self)
        ensures
            r == codeg_protocol_of(opt_str_view(raw)),
    {
        let t = trimmed_or_empty_chars(raw);
        if eq_lit(&t, "auto") {
            CodegProtocol::Auto
        } else if eq_lit(&t, "responses") {
            CodegProtocol::Responses
        } else {
            CodegProtocol::ChatCompletions
        }
    }
}

impl WireProtocol {
    pub fn as_str(self) -> (r: &'static str)
        ensures
            r@ == wire_protocol_str(self),
    {
        match self {
            WireProtocol::ChatCompletions => "chat_completions",
            WireProtocol::Responses => "responses",
        }
    }

    pub fn parse(raw: Option<&str>) -> (r: Option<Self>)
        ensures
            r == wire_protocol_of(opt_str_view(raw)),
    {
        let t = trimmed_or_empty_chars(raw);
        if eq_lit(&t, "chat_completions") {
            Some(WireProtocol::ChatCompletions)
        } else if eq_lit(&t, "responses") {
            Some(WireProtocol::Responses)
        } else {
            None
        }
    }
}

impl EffectiveNativeConfig {
    /// Protocol this session will use. Auto without a probe result is Completions.
    pub fn wire_protocol(&self) -> (r: WireProtocol)
        ensures
            r == (match self.protocol {
                CodegProtocol::ChatCompletions => WireProtocol::ChatCompletions,
                CodegProtocol::Responses => WireProtocol::Responses,
                CodegProtocol::Auto => match self.resolved_protocol {
                    Some(w) => w,
                    None => WireProtocol::ChatCompletions,
                },
            }),
    {
        match self.protocol {
            CodegProtocol::ChatCompletions => WireProtocol::ChatCompletions,
            CodegProtocol::Responses => WireProtocol::Responses,
            CodegProtocol::Auto => match self.resolved_protocol {
                Some(w) => w,
                None => WireProtocol::ChatCompletions,
            },
        }
    }
}

/// Empty / whitespace-only env values are absent so spawn uses the builtin default.
pub fn trimmed_optional(raw: Option<&str>) -> (r: Option<String>)
    ensures
        opt_string_view(r) == trimmed_opt(opt_str_view(raw)),
{
    match raw {
        Some(s) => {
            let t = trim(s);
            if !t.as_str().is_empty() {
                Some(t)
            } else {
                None
            }
        },
        None => None,
    }
}

/// The configured compact prompt, trimmed, or [`DEFAULT_COMPACT_PROMPT`].
pub fn effective_compact_prompt(configured: Option<&str>) -> (r: String)
    ensures
        r@ == (match trimmed_opt(opt_str_view(configured)) {
            Some(t) => t,
            None => DEFAULT_COMPACT_PROMPT@,
        }),
{
    match trimmed_optional(configured) {
        Some(t) => t,
        None => DEFAULT_COMPACT_PROMPT.to_owned(),
    }
}

/// True only when [`overlay_bound_provider`] projected a bind this launch.
pub fn env_has_provider_bind(env: &EnvMap) -> (r: bool)
    ensures
        r == has_provider_bind(env@),
{
    match env_lookup(env, PROVIDER_BOUND_KEY) {
        Some(v) => str_eq(v, PROVIDER_BOUND_VALUE),
        None => false,
    }
}

/// Sets `key` to `value`, or removes it when `value` is empty.
pub fn overlay_env_value(env: &mut EnvMap, key: &str, value: &str)
    ensures
        final(env)@ == overlay_value(old(env)@, key@, value@),
{
    if value.is_empty() {
        env.remove(key);
    } else {
        env.insert(key.to_owned(), value.to_owned());
    }
}

fn is_http_url(raw: &str) -> (r: bool)
    ensures
        r == is_http_url_spec(raw@),
{
    let r = trim_vec(&chars_of(raw));
    let rest = match strip_prefix_lit(&r, "https://") {
        Some(x) => Some(x),
        None => strip_prefix_lit(&r, "http://"),
    };
    match rest {
        Some(host_and_path) => {
            let i = index_of_char(&host_and_path, '/');
            i > 0 && !any_whitespace(&r)
        },
        None => false,
    }
}

fn http_host(raw: &str) -> (r: Option<Vec<char>>)
    ensures
        opt_chars_view(r) == http_host_spec(raw@),
{
    let r = trim_vec(&chars_of(raw));
    let rest = match strip_prefix_lit(&r, "https://") {
        Some(x) => Some(x),
        None => strip_prefix_lit(&r, "http://"),
    };
    match rest {
        None => None,
        Some(rest) => {
            let ghost sr = rest@;
            assert(strip_prefix_seq(r@, "https://"@) matches Some(x) ==> x == sr);
            let hostport = subvec(&rest, 0, index_of_char(&rest, '/'));
            assert(hostport@ == before_first(sr, '/'));
            let host = match last_index_of_char(&hostport, '@') {
                Some(i) => {
                    let h = subvec(&hostport, i + 1, hostport.len());
                    assert(h@ == hostport@.skip(i + 1));
                    h
                },
                None => hostport,
            };
            let ghost sh = match last_index_seq(before_first(sr, '/'), '@') {
                Some(i) => before_first(sr, '/').skip(i + 1),
                None => before_first(sr, '/'),
            };
            assert(host@ == sh);
            if starts_with_lit(&host, "[") {
                let k = count_leading_char(&host, '[');
                let t = subvec(&host, k, host.len());
                assert(t@ == sh.skip(count_while(sh, is_char('[')) as int));
                let out = subvec(&t, 0, index_of_char(&t, ']'));
                assert(out@ == before_first(t@, ']'));
                Some(out)
            } else {
                let out = subvec(&host, 0, index_of_char(&host, ':'));
                assert(out@ == before_first(sh, ':'));
                Some(out)
            }
        },
    }
}

/// Local OpenAI-compatible servers (Ollama, LM Studio) typically ignore auth.
pub fn is_loopback_http_url(raw: &str) -> (r: bool)
    ensures
        r == is_loopback_spec(raw@),
{
    match http_host(raw) {
        Some(h) => {
            let l = to_ascii_lowercase(&h);
            eq_lit(&l, "localhost") || eq_lit(&l, "127.0.0.1") || eq_lit(&l, "::1") || eq_lit(
                &l,
                "0.0.0.0",
            )
        },
        None => false,
    }
}

fn parse_percent(raw: Option<&str>, default: u8) -> (r: u8)
    ensures
        r == percent_spec(opt_str_view(raw), default),
{
    match trimmed_chars(raw) {
        None => default,
        Some(t) => match parse_unsigned_bounded(&t, 255) {
            Some(v) => if 1 <= v && v <= 100 {
                v as u8
            } else {
                default
            },
            None => default,
        },
    }
}

fn parse_positive_u32(raw: Option<&str>, default: u32) -> (r: u32)
    ensures
        r == positive_u32_spec(opt_str_view(raw), default),
{
    match trimmed_chars(raw) {
        None => default,
        Some(t) => match parse_unsigned_bounded(&t, 0xFFFF_FFFF) {
            Some(v) => if v > 0 {
                v as u32
            } else {
                default
            },
            None => default,
        },
    }
}

fn parse_max_output(raw: Option<&str>) -> (r: Result<u32, NativeConfigError>)
    ensures
        match r {
            Ok(v) => max_output_spec(opt_str_view(raw)) == Some(v),
            Err(e) => max_output_spec(opt_str_view(raw)) is None && e@
                == ConfigFailure::InvalidMaxOutputTokens,
        },
{
    match trimmed_chars(raw) {
        None => Ok(DEFAULT_MAX_OUTPUT_TOKENS),
        Some(t) => match parse_unsigned_bounded(&t, 0xFFFF_FFFF) {
            Some(v) => if v > 0 {
                Ok(v as u32)
            } else {
                Err(NativeConfigError::InvalidMaxOutputTokens)
            },
            None => Err(NativeConfigError::InvalidMaxOutputTokens),
        },
    }
}


// ----- errors -----

/// Settings check an error belongs to.
pub open spec fn check_id_spec(e: ConfigFailure) -> Seq<char> {
    match e {
        ConfigFailure::MissingProvider | ConfigFailure::EmptyApiKey
        | ConfigFailure::InvalidApiUrl => "model_provider"@,
        ConfigFailure::MissingModelId => "model_id"@,
        _ => "context_window"@,
    }
}

/// Text shown for an error.
pub open spec fn message_spec(e: ConfigFailure) -> Seq<char> {
    match e {
        ConfigFailure::MissingProvider => MSG_MISSING_PROVIDER@,
        ConfigFailure::EmptyApiKey => MSG_EMPTY_API_KEY@,
        ConfigFailure::InvalidApiUrl => MSG_INVALID_API_URL@,
        ConfigFailure::MissingModelId => MSG_MISSING_MODEL_ID@,
        ConfigFailure::InvalidContextWindows => MSG_INVALID_CONTEXT_WINDOWS@,
        ConfigFailure::MissingContextWindow(m) => MSG_NO_WINDOW_HEAD@ + m + MSG_NO_WINDOW_TAIL@,
        ConfigFailure::InvalidMaxOutputTokens => MSG_INVALID_MAX_OUTPUT@,
        ConfigFailure::OutputExceedsWindow(max_output, window) => "Max output "@ + decimal_seq(
            max_output as nat,
        ) + " does not fit in window "@ + decimal_seq(window as nat) + " after a "@
            + decimal_seq(OUTPUT_SAFETY_MARGIN as nat) + "-token safety margin"@,
    }
}

pub const MSG_MISSING_PROVIDER: &'static str = "Bind a model provider — Codeg Agent does not read process-level OPENAI_* keys";
pub const MSG_EMPTY_API_KEY: &'static str = "Bound model provider has an empty API key";
pub const MSG_INVALID_API_URL: &'static str = "Bound model provider URL must be an http(s) endpoint";
pub const MSG_MISSING_MODEL_ID: &'static str = "Bound model provider has no default model";
pub const MSG_INVALID_CONTEXT_WINDOWS: &'static str = "CODEG_AGENT_CONTEXT_WINDOWS must be JSON of model id → positive integer window";
pub const MSG_NO_WINDOW_HEAD: &'static str = "No context window configured for model `";
pub const MSG_NO_WINDOW_TAIL: &'static str = "` in CODEG_AGENT_CONTEXT_WINDOWS";
pub const MSG_INVALID_MAX_OUTPUT: &'static str = "CODEG_AGENT_MAX_OUTPUT_TOKENS must be a positive integer";

fn string_of(t: &str) -> (r: String)
    ensures
        r@ == t@,
{
    let mut r = String::new();
    push_str(&mut r, t);
    r
}

impl NativeConfigError {
    pub fn check_id(&self) -> (r: &'static str)
        ensures
            r@ == check_id_spec(self@),
    {
        match self {
            NativeConfigError::MissingProvider | NativeConfigError::EmptyApiKey
            | NativeConfigError::InvalidApiUrl => "model_provider",
            NativeConfigError::MissingModelId => "model_id",
            NativeConfigError::InvalidContextWindows | NativeConfigError::MissingContextWindow {
                ..
            }
            | NativeConfigError::InvalidMaxOutputTokens
            | NativeConfigError::OutputExceedsWindow { .. } => "context_window",
        }
    }

    pub fn message(&self) -> (r: String)
        ensures
            r@ == message_spec(self@),
    {
        match self {
            NativeConfigError::MissingProvider => string_of(MSG_MISSING_PROVIDER),
            NativeConfigError::EmptyApiKey => string_of(MSG_EMPTY_API_KEY),
            NativeConfigError::InvalidApiUrl => string_of(MSG_INVALID_API_URL),
            NativeConfigError::MissingModelId => string_of(MSG_MISSING_MODEL_ID),
            NativeConfigError::InvalidContextWindows => string_of(MSG_INVALID_CONTEXT_WINDOWS),
            NativeConfigError::MissingContextWindow { model_id } => {
                let mut r = string_of(MSG_NO_WINDOW_HEAD);
                push_str(&mut r, model_id.as_str());
                push_str(&mut r, MSG_NO_WINDOW_TAIL);
                r
            },
            NativeConfigError::InvalidMaxOutputTokens => string_of(MSG_INVALID_MAX_OUTPUT),
            NativeConfigError::OutputExceedsWindow { max_output, window } => {
                let mut r = string_of("Max output ");
                push_decimal(&mut r, *max_output as u64);
                push_str(&mut r, " does not fit in window ");
                push_decimal(&mut r, *window as u64);
                push_str(&mut r, " after a ");
                push_decimal(&mut r, OUTPUT_SAFETY_MARGIN as u64);
                push_str(&mut r, "-token safety margin");
                r
            },
        }
    }
}

impl NativeConfigError {
    /// Same error, with its own copy of any text.
    pub fn duplicate(&self) -> (r: Self)
        ensures
            r@ == self@,
    {
        match self {
            NativeConfigError::MissingProvider => NativeConfigError::MissingProvider,
            NativeConfigError::EmptyApiKey => NativeConfigError::EmptyApiKey,
            NativeConfigError::InvalidApiUrl => NativeConfigError::InvalidApiUrl,
            NativeConfigError::MissingModelId => NativeConfigError::MissingModelId,
            NativeConfigError::InvalidContextWindows => NativeConfigError::InvalidContextWindows,
            NativeConfigError::MissingContextWindow { model_id } =>
                NativeConfigError::MissingContextWindow { model_id: string_of(model_id.as_str()) },
            NativeConfigError::InvalidMaxOutputTokens => NativeConfigError::InvalidMaxOutputTokens,
            NativeConfigError::OutputExceedsWindow { max_output, window } =>
                NativeConfigError::OutputExceedsWindow { max_output: *max_output, window: *window },
        }
    }
}

// ----- provider model column -----

/// First catalog slug of `items`; see [`first_slug_items`].
fn first_slug_in(items: &Vec<JsonValue>) -> (r: Option<String>)
    ensures
        opt_string_view(r) == first_slug_items(items@),
{
    let mut i: usize = 0;
    assert(items@.skip(0) =~= items@);
    while i < items.len()
        invariant
            i <= items.len(),
            first_slug_items(items@) == first_slug_items(items@.skip(i as int)),
        decreases items.len() - i,
    {
        let ghost rest = items@.skip(i as int);
        assert(rest[0] == items@[i as int]);
        assert(rest.drop_first() =~= items@.skip(i + 1));
        let item = &items[i];
        let slug = match item.get_str("slug") {
            Some(s) => trimmed_optional(Some(s.as_str())),
            None => None,
        };
        if slug.is_some() {
            return slug;
        }
        let id = match item.as_str() {
            Some(s) => trimmed_optional(Some(s.as_str())),
            None => None,
        };
        if id.is_some() {
            return id;
        }
        i += 1;
    }
    None
}

fn first_slug_of(list: Option<&JsonValue>) -> (r: Option<String>)
    ensures
        opt_string_view(r) == (match list {
            Some(v) => first_slug(Some(*v)),
            None => first_slug(None),
        }),
{
    match list {
        Some(JsonValue::Array(items)) => first_slug_in(items),
        _ => None,
    }
}

/// Trimmed non-empty text under `key`.
fn trimmed_field(v: &JsonValue, key: &str) -> (r: Option<String>)
    ensures
        opt_string_view(r) == trimmed_opt(json_get_str(*v, key@)),
{
    match v.get_str(key) {
        Some(s) => trimmed_optional(Some(s.as_str())),
        None => None,
    }
}

/// Chat Completions model id named by a parsed `model` column; see
/// [`model_id_from_json_spec`].
pub fn model_id_from_json(value: &JsonValue) -> (r: Option<String>)
    ensures
        opt_string_view(r) == model_id_from_json_spec(*value),
{
    match value {
        JsonValue::Str(s) => trimmed_optional(Some(s.as_str())),
        JsonValue::Object(_) => {
            let main = trimmed_field(value, "main");
            if main.is_some() {
                return main;
            }
            let custom = trimmed_field(value, "customOption");
            if custom.is_some() {
                return custom;
            }
            let default = trimmed_field(value, "default");
            if default.is_some() {
                return default;
            }
            let customs = first_slug_of(value.get("customs"));
            if customs.is_some() {
                return customs;
            }
            first_slug_of(value.get("models"))
        },
        _ => None,
    }
}

/// Extract a Chat Completions model id from a model-provider `model` column.
///
/// Plain slugs pass through. Main-keyed JSON uses `main` (then `customOption`).
/// Codex JSON uses `default`, then the first `customs`/`models` slug.
/// Unrecognized JSON is rejected rather than used as a model id.
pub fn completions_model_id(raw: Option<&str>) -> (r: Option<String>)
    ensures
        opt_string_view(r) == completions_model_spec(opt_str_view(raw)),
{
    match trimmed_optional(raw) {
        None => None,
        Some(t) => match parse_json(t.as_str()) {
            Some(v) => model_id_from_json(&v),
            None => Some(t),
        },
    }
}

/// Overlay bound-provider URL / key / model onto agent env, including empty
/// values (empty clears; never leave a leftover model or credential), and
/// mark the env as carrying a provider bind.
pub fn overlay_bound_provider(env: &mut EnvMap, provider: &BoundProvider)
    ensures
        final(env)@ == overlay_provider_spec(old(env)@, provider@),
{
    let url = trim(provider.api_url.as_str());
    overlay_env_value(env, API_BASE_URL_KEY, url.as_str());
    let key = trim(provider.api_key.as_str());
    overlay_env_value(env, API_KEY_KEY, key.as_str());
    let model = match completions_model_id(opt_as_str(&provider.model)) {
        Some(m) => m,
        None => String::new(),
    };
    overlay_env_value(env, MODEL_KEY, model.as_str());
    env.insert(string_of(PROVIDER_BOUND_KEY), string_of(PROVIDER_BOUND_VALUE));
}

// ----- context windows -----

fn positive_u32_of(t: &Vec<char>) -> (r: Option<u32>)
    ensures
        r == (match parse_bounded(t@, u32::MAX as nat) {
            Some(v) => if v > 0 {
                Some(v as u32)
            } else {
                None::<u32>
            },
            None => None::<u32>,
        }),
{
    match parse_unsigned_bounded(t, 0xFFFF_FFFF) {
        Some(v) => if v > 0 {
            Some(v as u32)
        } else {
            None
        },
        None => None,
    }
}

/// One member of the windows object; see [`window_entry`].
pub fn window_entry_of(e: &(String, JsonValue)) -> (r: Option<(String, u32)>)
    ensures
        match r {
            Some((k, w)) => window_entry(*e) == Some((k@, w)),
            None => window_entry(*e) is None,
        },
{
    let k = trim(e.0.as_str());
    let w: Option<u32> = match &e.1 {
        JsonValue::Number(n) => if 0 < *n && *n <= 0xFFFF_FFFF {
            Some(*n as u32)
        } else {
            None
        },
        JsonValue::Str(s) => positive_u32_of(&trim_vec(&chars_of(s.as_str()))),
        _ => None,
    };
    if k.as_str().is_empty() {
        None
    } else {
        match w {
            Some(w) => Some((k, w)),
            None => None,
        }
    }
}

proof fn lemma_windows_from_none(es: Seq<(String, JsonValue)>, j: int, k: int)
    requires
        0 <= j <= k <= es.len(),
        windows_from(es.take(j)) is None,
    ensures
        windows_from(es.take(k)) is None,
    decreases k - j,
{
    if j < k {
        lemma_windows_from_none(es, j, k - 1);
        assert(es.take(k).drop_last() =~= es.take(k - 1));
    }
}

fn parse_context_windows(raw: Option<&str>) -> (r: Result<StrMap<u32>, NativeConfigError>)
    ensures
        match r {
            Ok(m) => context_windows_spec(opt_str_view(raw)) == Some(m@),
            Err(e) => context_windows_spec(opt_str_view(raw)) is None && e@
                == ConfigFailure::InvalidContextWindows,
        },
{
    let t = match trimmed_optional(raw) {
        None => return Ok(StrMap::new()),
        Some(t) => t,
    };
    match parse_json(t.as_str()) {
        Some(v) => context_windows_from_json(&v),
        None => Err(NativeConfigError::InvalidContextWindows),
    }
}

/// The windows a parsed `CODEG_AGENT_CONTEXT_WINDOWS` value names, or
/// `InvalidContextWindows`; see [`windows_of_json`].
pub fn context_windows_from_json(value: &JsonValue) -> (r: Result<StrMap<u32>, NativeConfigError>)
    ensures
        match r {
            Ok(m) => windows_of_json(*value) == Some(m@),
            Err(e) => windows_of_json(*value) is None && e@ == ConfigFailure::InvalidContextWindows,
        },
{
    let entries = match value {
        JsonValue::Object(entries) => entries,
        _ => return Err(NativeConfigError::InvalidContextWindows),
    };
    let mut out: StrMap<u32> = StrMap::new();
    let mut i: usize = 0;
    assert(entries@.take(0) =~= Seq::<(String, JsonValue)>::empty());
    while i < entries.len()
        invariant
            i <= entries.len(),
            windows_of_json(*value) == windows_from(entries@),
            windows_from(entries@.take(i as int)) == Some(out@),
        decreases entries.len() - i,
    {
        assert(entries@.take(i + 1).drop_last() =~= entries@.take(i as int));
        assert(entries@.take(i + 1).last() == entries@[i as int]);
        match window_entry_of(&entries[i]) {
            Some((k, w)) => {
                out.insert(k, w);
            },
            None => {
                proof {
                    assert(window_entry(entries@[i as int]) is None);
                    assert(windows_from(entries@.take(i + 1)) is None);
                    lemma_windows_from_none(entries@, i + 1, entries.len() as int);
                    assert(entries@.take(entries.len() as int) =~= entries@);
                }
                return Err(NativeConfigError::InvalidContextWindows);
            },
        }
        i += 1;
    }
    assert(entries@.take(entries.len() as int) =~= entries@);
    Ok(out)
}

// ----- resolution -----

pub open spec fn opt_provider_view(p: Option<&BoundProvider>) -> Option<BoundProviderView> {
    match p {
        Some(p) => Some(p@),
        None => None,
    }
}

/// Resolve the effective configuration from the agent env and the bound
/// provider. The provider's URL, key and model replace whatever the env held
/// under those keys; everything else is read from the env.
#[verifier::rlimit(40)]
pub fn resolve_codeg_agent_config(agent_env: &EnvMap, provider: Option<&BoundProvider>) -> (r:
    Result<EffectiveNativeConfig, NativeConfigError>)
    ensures
        match r {
            Ok(c) => resolve_spec(agent_env@, opt_provider_view(provider)) == Ok::<
                NativeConfigView,
                ConfigFailure,
            >(c@),
            Err(e) => resolve_spec(agent_env@, opt_provider_view(provider)) == Err::<
                NativeConfigView,
                ConfigFailure,
            >(e@),
        },
{
    let p = match provider {
        None => return Err(NativeConfigError::MissingProvider),
        Some(p) => p,
    };
    let mut env = agent_env.copy();
    overlay_bound_provider(&mut env, p);
    let ghost genv = env@;
    let api_base_url = match trimmed_optional(env_lookup(&env, API_BASE_URL_KEY)) {
        None => return Err(NativeConfigError::InvalidApiUrl),
        Some(u) => u,
    };
    if !is_http_url(api_base_url.as_str()) {
        return Err(NativeConfigError::InvalidApiUrl);
    }
    let api_key = match trimmed_optional(env_lookup(&env, API_KEY_KEY)) {
        Some(k) => k,
        None => if is_loopback_http_url(api_base_url.as_str()) {
            string_of(LOCAL_API_KEY)
        } else {
            return Err(NativeConfigError::EmptyApiKey);
        },
    };
    let model_id = match trimmed_optional(env_lookup(&env, MODEL_KEY)) {
        None => return Err(NativeConfigError::MissingModelId),
        Some(m) => m,
    };
    let context_windows = match parse_context_windows(env_lookup(&env, CONTEXT_WINDOWS_KEY)) {
        Ok(m) => m,
        Err(e) => return Err(e),
    };
    let window: u32 = match context_windows.get(model_id.as_str()) {
        Some(w) => *w,
        None => return Err(NativeConfigError::MissingContextWindow { model_id }),
    };
    let max_output_tokens = match parse_max_output(env_lookup(&env, MAX_OUTPUT_TOKENS_KEY)) {
        Ok(v) => v,
        Err(e) => return Err(e),
    };
    let usable: u32 = if window >= OUTPUT_SAFETY_MARGIN {
        window - OUTPUT_SAFETY_MARGIN
    } else {
        0
    };
    if max_output_tokens == 0 || max_output_tokens > usable {
        return Err(NativeConfigError::OutputExceedsWindow { max_output: max_output_tokens, window });
    }
    let system_prompt = trimmed_optional(env_lookup(&env, SYSTEM_PROMPT_KEY));
    let compact_prompt = trimmed_optional(env_lookup(&env, COMPACT_PROMPT_KEY));
    let compact_soft_percent = parse_percent(
        env_lookup(&env, COMPACT_SOFT_PERCENT_KEY),
        DEFAULT_COMPACT_SOFT_PERCENT,
    );
    let compact_recent_turns = parse_positive_u32(
        env_lookup(&env, COMPACT_RECENT_TURNS_KEY),
        DEFAULT_COMPACT_RECENT_TURNS,
    );
    let compact_model_id = trimmed_optional(env_lookup(&env, COMPACT_MODEL_KEY));
    let max_turns = parse_positive_u32(env_lookup(&env, MAX_TURNS_KEY), DEFAULT_MAX_TURNS);
    let protocol = CodegProtocol::parse(env_lookup(&env, PROTOCOL_KEY));
    let resolved_protocol = WireProtocol::parse(env_lookup(&env, RESOLVED_PROTOCOL_KEY));
    Ok(
        EffectiveNativeConfig {
            api_base_url,
            api_key,
            model_id,
            context_windows,
            max_output_tokens,
            system_prompt,
            compact_prompt,
            compact_soft_percent,
            compact_recent_turns,
            compact_model_id,
            max_turns,
            protocol,
            resolved_protocol,
        },
    )
}


// ----- provider catalog -----

/// Window given to a catalog model that states none.
pub const DEFAULT_CATALOG_WINDOW: u32 = 128_000;

/// Protocol and windows a Codeg Agent catalog in the provider `model` column
/// declares.
pub struct CatalogView {
    pub protocol: CodegProtocol,
    pub windows: Map<Seq<char>, u32>,
}

/// Id of a catalog model: the item itself when it is non-blank text, else the
/// object's `id` (or, when it has no `id`, its `slug`), trimmed and non-empty.
pub open spec fn catalog_item_id(item: JsonValue) -> Option<Seq<char>> {
    match trimmed_opt(json_str(item)) {
        Some(id) => Some(id),
        None => match item {
            JsonValue::Object(_) => {
                let f = match json_get(item, "id"@) {
                    Some(x) => Some(x),
                    None => json_get(item, "slug"@),
                };
                match f {
                    Some(x) => trimmed_opt(json_str(x)),
                    None => None,
                }
            },
            _ => None,
        },
    }
}

/// Window of a catalog model: a positive `context_window` (or, when that key
/// is absent, `contextWindow`) cut to `u32`, else [`DEFAULT_CATALOG_WINDOW`].
pub open spec fn catalog_item_window(item: JsonValue) -> u32 {
    let f = match item {
        JsonValue::Object(_) => match json_get(item, "context_window"@) {
            Some(x) => Some(x),
            None => json_get(item, "contextWindow"@),
        },
        _ => None,
    };
    match f {
        Some(JsonValue::Number(n)) => if n > 0 {
            (n % 0x1_0000_0000) as u32
        } else {
            DEFAULT_CATALOG_WINDOW
        },
        _ => DEFAULT_CATALOG_WINDOW,
    }
}

/// Windows of the catalog models in order (a later id overrides an earlier
/// one); `None` when some model has no id.
pub open spec fn catalog_windows(items: Seq<JsonValue>) -> Option<Map<Seq<char>, u32>>
    decreases items.len(),
{
    if items.len() == 0 {
        Some(Map::empty())
    } else {
        match catalog_windows(items.drop_last()) {
            None => None,
            Some(m) => match catalog_item_id(items.last()) {
                None => None,
                Some(id) => Some(m.insert(id, catalog_item_window(items.last()))),
            },
        }
    }
}

/// The catalog in a provider `model` column: a JSON object whose `kind` is
/// `codeg_agent_catalog` and whose `models` array names at least one model.
pub open spec fn catalog_spec(raw: Option<Seq<char>>) -> Option<CatalogView> {
    match trimmed_opt(raw) {
        None => None,
        Some(t) => match json_parse(t) {
            Some(v) => catalog_of_json(v),
            None => None,
        },
    }
}

pub open spec fn catalog_of_json(v: JsonValue) -> Option<CatalogView> {
    match v {
        JsonValue::Object(_) => if json_get_str(v, "kind"@) == Some("codeg_agent_catalog"@) {
            match json_get(v, "models"@) {
                Some(JsonValue::Array(items)) => match catalog_windows(items@) {
                    Some(w) => if w == Map::<Seq<char>, u32>::empty() {
                        None
                    } else {
                        Some(
                            CatalogView {
                                protocol: codeg_protocol_of(json_get_str(v, "protocol"@)),
                                windows: w,
                            },
                        )
                    },
                    None => None,
                },
                _ => None,
            }
        } else {
            None
        },
        _ => None,
    }
}

/// Lowercase hex digit of `n` (below 16).
pub open spec fn hex_digit_char(n: int) -> char {
    if n < 10 {
        (n + 48) as char
    } else {
        (n + 87) as char
    }
}

/// One character of a JSON string's contents as `serde_json` writes it:
/// quote and backslash escaped, the control characters by their short escape
/// or as `\u00` and two lowercase hex digits, anything else as it is.
pub open spec fn json_char_text(c: char) -> Seq<char> {
    if c == '"' {
        seq!['\\', '"']
    } else if c == '\\' {
        seq!['\\', '\\']
    } else if c == '\u{8}' {
        seq!['\\', 'b']
    } else if c == '\t' {
        seq!['\\', 't']
    } else if c == '\n' {
        seq!['\\', 'n']
    } else if c == '\u{c}' {
        seq!['\\', 'f']
    } else if c == '\r' {
        seq!['\\', 'r']
    } else if (c as int) < 0x20 {
        seq!['\\', 'u', '0', '0', hex_digit_char((c as int) / 16), hex_digit_char((c as int) % 16)]
    } else {
        seq![c]
    }
}

/// The contents of a JSON string literal holding `s`, character by
/// character.
pub open spec fn json_string_body(s: Seq<char>) -> Seq<char>
    decreases s.len(),
{
    if s.len() == 0 {
        Seq::empty()
    } else {
        json_char_text(s[0]) + json_string_body(s.drop_first())
    }
}

/// A JSON string literal holding `s`.
pub open spec fn json_string_text(s: Seq<char>) -> Seq<char> {
    seq!['"'] + json_string_body(s) + seq!['"']
}

/// `k` is the least key of `m`.
pub open spec fn least_key(m: Map<Seq<char>, u32>, k: Seq<char>) -> bool {
    m.dom().contains(k) && forall|j: Seq<char>| #[trigger] m.dom().contains(j) && j != k ==> key_lt(k, j)
}

/// The members of `m` in ascending key order, each as `"key":value`,
/// separated by commas.
pub open spec fn json_members_text(m: Map<Seq<char>, u32>, first: bool) -> Seq<char>
    decreases m.dom().len(),
    when m.dom().finite()
{
    if exists|k: Seq<char>| least_key(m, k) {
        let k = choose|k: Seq<char>| least_key(m, k);
        let sep = if first {
            Seq::<char>::empty()
        } else {
            seq![',']
        };
        proof {
            vstd::set::axiom_set_remove_len(m.dom(), k);
        }
        sep + json_string_text(k) + seq![':'] + decimal_seq(m[k] as nat)
            + json_members_text(m.remove(k), false)
    } else {
        Seq::empty()
    }
}

/// What `serde_json::to_string` writes for a `BTreeMap<String, u32>` holding
/// `windows`: a compact object, its members in key order (a `String` key
/// orders as its characters do), each key a JSON string and each value in
/// decimal.
pub open spec fn windows_json_text(windows: Map<Seq<char>, u32>) -> Seq<char> {
    seq!['{'] + json_members_text(windows, true) + seq!['}']
}

/// Serialises the pairs as a JSON object with `serde_json::to_string`, after
/// collecting them into a `BTreeMap<String, u32>`. The text is
/// [`windows_json_text`] of the map the pairs describe, as `serde_json`'s
/// compact serializer and its string escaping write it; `serde_json` documents
/// that serialising fails only for a failing `Serialize` impl or a map with
/// non-string keys, neither of which a `BTreeMap<String, u32>` has.
#[verifier::external_body]
fn windows_to_json(pairs: &Vec<(String, u32)>) -> (r: Option<String>)
    requires
        pairs_distinct(pairs@),
    ensures
        r is Some,
        r matches Some(t) ==> t@ == windows_json_text(pairs_map(pairs@)),
{
    let map: std::collections::BTreeMap<String, u32> = pairs.iter().cloned().collect();
    serde_json::to_string(&map).ok()
}

/// A catalog read from a provider `model` column.
pub struct ParsedCodegCatalog {
    pub protocol: CodegProtocol,
    pub windows: StrMap<u32>,
}

/// Model id of one catalog item; see [`catalog_item_id`].
pub fn catalog_item_id_of(item: &JsonValue) -> (r: Option<String>)
    ensures
        opt_string_view(r) == catalog_item_id(*item),
{
    let direct = match item.as_str() {
        Some(s) => trimmed_optional(Some(s.as_str())),
        None => None,
    };
    if direct.is_some() {
        return direct;
    }
    match item {
        JsonValue::Object(_) => {
            let f = match item.get("id") {
                Some(x) => Some(x),
                None => item.get("slug"),
            };
            match f {
                Some(x) => match x.as_str() {
                    Some(s) => trimmed_optional(Some(s.as_str())),
                    None => None,
                },
                None => None,
            }
        },
        _ => None,
    }
}

/// Window of one catalog item; see [`catalog_item_window`].
pub fn catalog_item_window_of(item: &JsonValue) -> (r: u32)
    ensures
        r == catalog_item_window(*item),
{
    let f = match item {
        JsonValue::Object(_) => match item.get("context_window") {
            Some(x) => Some(x),
            None => item.get("contextWindow"),
        },
        _ => None,
    };
    match f {
        Some(x) => match x.as_u64() {
            Some(n) => if n > 0 {
                (n % 0x1_0000_0000) as u32
            } else {
                DEFAULT_CATALOG_WINDOW
            },
            None => DEFAULT_CATALOG_WINDOW,
        },
        None => DEFAULT_CATALOG_WINDOW,
    }
}

proof fn lemma_catalog_windows_none(items: Seq<JsonValue>, j: int, k: int)
    requires
        0 <= j <= k <= items.len(),
        catalog_windows(items.take(j)) is None,
    ensures
        catalog_windows(items.take(k)) is None,
    decreases k - j,
{
    if j < k {
        lemma_catalog_windows_none(items, j, k - 1);
        assert(items.take(k).drop_last() =~= items.take(k - 1));
    }
}

fn parse_codeg_catalog(raw: Option<&str>) -> (r: Option<ParsedCodegCatalog>)
    ensures
        match r {
            Some(c) => catalog_spec(opt_str_view(raw)) == Some(
                CatalogView { protocol: c.protocol, windows: c.windows@ },
            ),
            None => catalog_spec(opt_str_view(raw)) is None,
        },
{
    let t = match trimmed_optional(raw) {
        None => return None,
        Some(t) => t,
    };
    match parse_json(t.as_str()) {
        None => None,
        Some(v) => codeg_catalog_from_json(&v),
    }
}

/// The catalog a parsed `model` column holds; see [`catalog_of_json`].
pub fn codeg_catalog_from_json(value: &JsonValue) -> (r: Option<ParsedCodegCatalog>)
    ensures
        match r {
            Some(c) => catalog_of_json(*value) == Some(
                CatalogView { protocol: c.protocol, windows: c.windows@ },
            ),
            None => catalog_of_json(*value) is None,
        },
{
    match value {
        JsonValue::Object(_) => {},
        _ => return None,
    }
    let kind_ok = match value.get_str("kind") {
        Some(k) => str_eq(k.as_str(), "codeg_agent_catalog"),
        None => false,
    };
    if !kind_ok {
        return None;
    }
    let items = match value.get("models") {
        Some(JsonValue::Array(items)) => items,
        _ => return None,
    };
    let mut windows: StrMap<u32> = StrMap::new();
    let mut i: usize = 0;
    assert(items@.take(0) =~= Seq::<JsonValue>::empty());
    while i < items.len()
        invariant
            i <= items.len(),
            catalog_windows(items@) is None ==> catalog_of_json(*value) is None,
            catalog_windows(items@.take(i as int)) == Some(windows@),
        decreases items.len() - i,
    {
        assert(items@.take(i + 1).drop_last() =~= items@.take(i as int));
        assert(items@.take(i + 1).last() == items@[i as int]);
        match catalog_item_id_of(&items[i]) {
            Some(id) => {
                let w = catalog_item_window_of(&items[i]);
                windows.insert(id, w);
            },
            None => {
                proof {
                    assert(catalog_windows(items@.take(i + 1)) is None);
                    lemma_catalog_windows_none(items@, i + 1, items.len() as int);
                    assert(items@.take(items.len() as int) =~= items@);
                }
                return None;
            },
        }
        i += 1;
    }
    assert(items@.take(items.len() as int) =~= items@);
    if windows.is_empty() {
        return None;
    }
    let protocol = match value.get_str("protocol") {
        Some(p) => CodegProtocol::parse(Some(p.as_str())),
        None => CodegProtocol::parse(None),
    };
    Some(ParsedCodegCatalog { protocol, windows })
}

/// Env after [`project_bound_provider_catalog`].
pub open spec fn project_catalog_spec(
    env: Map<Seq<char>, Seq<char>>,
    model: Option<Seq<char>>,
) -> Map<Seq<char>, Seq<char>> {
    match catalog_spec(model) {
        Some(c) => {
            let e1 = overlay_value(env, PROTOCOL_KEY@, codeg_protocol_str(c.protocol));
            e1.insert(CONTEXT_WINDOWS_KEY@, windows_json_text(c.windows))
        },
        None => env.remove(PROTOCOL_KEY@).remove(RESOLVED_PROTOCOL_KEY@),
    }
}

/// Project catalog protocol / windows while `provider.model` is still the
/// catalog JSON. Credential overlay runs after this and does not parse the
/// catalog again.
pub fn project_bound_provider_catalog(env: &mut EnvMap, provider: &BoundProvider)
    ensures
        final(env)@ == project_catalog_spec(old(env)@, provider@.model),
{
    match parse_codeg_catalog(opt_as_str(&provider.model)) {
        Some(catalog) => {
            overlay_env_value(env, PROTOCOL_KEY, catalog.protocol.as_str());
            if catalog.windows.is_empty() {
                env.remove(CONTEXT_WINDOWS_KEY);
            } else {
                let pairs = catalog.windows.pairs();
                if let Some(raw) = windows_to_json(&pairs) {
                    env.insert(string_of(CONTEXT_WINDOWS_KEY), raw);
                }
            }
        },
        None => {
            env.remove(PROTOCOL_KEY);
            env.remove(RESOLVED_PROTOCOL_KEY);
        },
    }
}

} // verus!

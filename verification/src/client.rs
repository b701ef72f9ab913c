//! The client of a provider: where its requests go, and what its responses are
//! taken for.
use vstd::prelude::*;
use vstd::utf8::encode_utf8;

use crate::bytes::{decode, utf8_text};
use crate::chat::{call_views, ToolCall, ToolCallView};
use crate::config::{parse_url, parsed_url, Config, ConfigView};
use crate::provider::{
    reply_view, text_view, unit_view, CheckStyle, GeneratedOutput, OutputView, Provider,
    ProviderError, ProviderErrorView, RequestStyle, MAX_RESPONSE_BYTES,
};
use crate::reply::{generated_output, parse_generated_output, sanitize_error, sanitized};
use crate::text::{
    byte_length, chars_of, clone_opt, join3, opt_text, string_of, text_bytes, text_eq, texts, trim,
    trimmed,
};

verus! {

// ---------------------------------------------------------------------------
// The client.

/// How a provider is reached.
#[derive(Clone, PartialEq, Eq)]
pub struct AiClient {
    provider: Provider,
    api_key: Option<String>,
    model: String,
    base_url: String,
    timeout_seconds: u64,
    max_output_tokens: u32,
    file_io: bool,
}

/// A client, with its texts taken as characters.
pub struct ClientView {
    pub provider: Provider,
    pub api_key: Option<Seq<char>>,
    pub model: Seq<char>,
    pub base_url: Seq<char>,
    pub timeout_seconds: u64,
    pub max_output_tokens: u32,
    pub file_io: bool,
}

impl View for AiClient {
    type V = ClientView;

    closed spec fn view(&self) -> ClientView {
        ClientView {
            provider: self.provider,
            api_key: opt_text(self.api_key),
            model: self.model@,
            base_url: self.base_url@,
            timeout_seconds: self.timeout_seconds,
            max_output_tokens: self.max_output_tokens,
            file_io: self.file_io,
        }
    }
}

/// Text without the slashes at the end.
pub open spec fn without_slashes(s: Seq<char>) -> Seq<char>
    decreases s.len(),
{
    if s.len() > 0 && s.last() == '/' {
        without_slashes(s.drop_last())
    } else {
        s
    }
}

/// Text without the slashes at the end.
pub fn strip_slashes(text: &str) -> (r: String)
    ensures
        r@ == without_slashes(text@),
{
    let chars = chars_of(text);
    let mut n: usize = chars.len();
    assert(text@.take(n as int) =~= text@);
    while n > 0 && chars[n - 1] == '/'
        invariant
            chars@ == text@,
            n <= chars@.len(),
            without_slashes(text@) == without_slashes(text@.take(n as int)),
        decreases n,
    {
        assert(text@.take(n as int).drop_last() =~= text@.take(n - 1));
        n = n - 1;
    }
    let r = string_of(&chars, 0, n);
    assert(r@ =~= text@.take(n as int));
    r
}

/// A key that is sent: without the white space around it, and none where nothing
/// else is there.
pub open spec fn sent_key(api_key: Option<Seq<char>>) -> Option<Seq<char>> {
    match api_key {
        Some(key) => if trim(key).len() == 0 {
            None
        } else {
            Some(trim(key))
        },
        None => None,
    }
}

/// The client of a configuration.
pub open spec fn configured(config: ConfigView) -> ClientView {
    ClientView {
        provider: config.kind,
        api_key: sent_key(config.api_key),
        model: trim(config.model),
        base_url: without_slashes(trim(config.base_url)),
        timeout_seconds: config.generation.timeout_seconds,
        max_output_tokens: config.generation.max_output_tokens,
        file_io: config.tools.file_io,
    }
}

/// What identifies a client to its provider.
#[derive(Clone, PartialEq, Eq)]
pub struct Credentials {
    /// The bearer token.
    pub bearer: Option<String>,
    /// The title that OpenRouter shows.
    pub title: Option<&'static str>,
}

/// What `Url::path_segments_mut` makes of a URL after `pop_if_empty` and two
/// calls of `push`. `None` where the text is no URL, or one without a path of
/// segments.
pub uninterp spec fn url_with_segments(
    base: Seq<char>,
    first: Seq<char>,
    second: Seq<char>,
) -> Option<Seq<char>>;

/// Whether a scheme is one of those in whose URLs a backslash is a slash.
pub open spec fn is_special_scheme(scheme: Seq<char>) -> bool {
    scheme == "http"@ || scheme == "https"@ || scheme == "ws"@ || scheme == "wss"@ || scheme
        == "ftp"@ || scheme == "file"@
}

/// Whether a character of ASCII is escaped in a segment of a path.
pub open spec fn is_escaped(c: char, special: bool) -> bool {
    c <= ' ' || c == '"' || c == '#' || c == '%' || c == '/' || c == '<' || c == '>' || c == '?'
        || c == '`' || c == '{' || c == '}' || c == '\u{7f}' || (c == '\\' && special)
}

/// The number of bytes that a character takes in a segment of a path. Tabs and line
/// breaks are left out, and an escape takes three bytes for each byte.
pub open spec fn written_char(c: char, special: bool) -> int {
    if c == '\t' || c == '\n' || c == '\r' {
        0
    } else if c > '\u{ffff}' {
        12
    } else if c > '\u{7ff}' {
        9
    } else if c > '\u{7f}' {
        6
    } else if is_escaped(c, special) {
        3
    } else {
        1
    }
}

/// The number of bytes that a text takes as a segment of a path.
pub open spec fn written_text(s: Seq<char>, special: bool) -> int
    decreases s.len(),
{
    if s.len() == 0 {
        0
    } else {
        written_text(s.drop_last(), special) + written_char(s.last(), special)
    }
}

/// The number of bytes of a path of `n` bytes with one more segment. A path that is
/// a slash alone takes no other slash, and a segment that names the directory or
/// its parent is left out. In a file URL a drive may take one more slash.
pub open spec fn with_segment(n: int, segment: Seq<char>, scheme: Seq<char>) -> int {
    if segment == "."@ || segment == ".."@ {
        n
    } else {
        (if n == 1 {
            1
        } else {
            n + 1
        }) + written_text(segment, is_special_scheme(scheme)) + (if scheme == "file"@ {
            1int
        } else {
            0
        })
    }
}

/// The number of bytes of a path without a slash at its end, but for a path that is
/// a slash alone.
pub open spec fn without_last_slash(path: Seq<char>) -> int {
    if path.len() > 1 && path.last() == '/' {
        byte_length(path) - 1
    } else {
        byte_length(path) as int
    }
}

/// Whether a URL, and the same with two more segments, take no more bytes than 32
/// bits count.
pub open spec fn segments_fit(base: Seq<char>, first: Seq<char>, second: Seq<char>) -> bool {
    parsed_url(base) matches Ok(url) ==> {
        let path = with_segment(
            with_segment(without_last_slash(url.path), first, url.scheme),
            second,
            url.scheme,
        );
        &&& byte_length(url.text) <= u32::MAX
        &&& byte_length(url.text) - byte_length(url.path) + path <= u32::MAX
    }
}

/// Parses a URL with `reqwest::Url::parse` and appends two segments to its path
/// with `PathSegmentsMut::push`, after `PathSegmentsMut::pop_if_empty`. The
/// result depends on the three texts alone. The positions in a URL are numbers of
/// 32 bits, and a URL that grows beyond them is a panic.
#[verifier::external_body]
fn append_segments(base: &str, first: &str, second: &str) -> (r: Option<String>)
    requires
        segments_fit(base@, first@, second@),
    ensures
        opt_text(r) == url_with_segments(base@, first@, second@),
{
    let mut url = reqwest::Url::parse(base).ok()?;
    url.path_segments_mut().ok()?.pop_if_empty().push(first).push(second);
    Some(url.into())
}

fn scheme_is_special(scheme: &str) -> (r: bool)
    ensures
        r == is_special_scheme(scheme@),
{
    text_eq(scheme, "http") || text_eq(scheme, "https") || text_eq(scheme, "ws") || text_eq(
        scheme,
        "wss",
    ) || text_eq(scheme, "ftp") || text_eq(scheme, "file")
}

fn count_char(c: char, special: bool) -> (r: i128)
    ensures
        r == written_char(c, special),
        0 <= r <= 12,
{
    if c == '\t' || c == '\n' || c == '\r' {
        0
    } else if c > '\u{ffff}' {
        12
    } else if c > '\u{7ff}' {
        9
    } else if c > '\u{7f}' {
        6
    } else if c <= ' ' || c == '"' || c == '#' || c == '%' || c == '/' || c == '<' || c == '>' || c
        == '?' || c == '`' || c == '{' || c == '}' || c == '\u{7f}' || (c == '\\' && special) {
        3
    } else {
        1
    }
}

/// The number of bytes that a text takes as a segment of a path.
pub fn segment_bytes(text: &str, special: bool) -> (r: i128)
    ensures
        r == written_text(text@, special),
        0 <= r <= 12 * usize::MAX,
{
    let chars = chars_of(text);
    let mut count: i128 = 0;
    let mut i: usize = 0;
    assert(text@.take(0) =~= seq![]);
    while i < chars.len()
        invariant
            chars@ == text@,
            i <= chars@.len(),
            count == written_text(text@.take(i as int), special),
            0 <= count <= 12 * i,
        decreases chars@.len() - i,
    {
        assert(text@.take(i + 1).drop_last() =~= text@.take(i as int));
        count = count + count_char(chars[i], special);
        i = i + 1;
    }
    assert(text@.take(i as int) =~= text@);
    count
}

fn count_without_last_slash(path: &str) -> (r: i128)
    ensures
        r == without_last_slash(path@),
        -1 <= r <= usize::MAX,
{
    let chars = chars_of(path);
    let bytes: i128 = text_bytes(path) as i128;
    if chars.len() > 1 && chars[chars.len() - 1] == '/' {
        bytes - 1
    } else {
        bytes
    }
}

fn count_with_segment(n: i128, segment: &str, scheme: &str) -> (r: i128)
    requires
        -1 <= n <= 100 * usize::MAX,
    ensures
        r == with_segment(n as int, segment@, scheme@),
        -1 <= r <= n + 12 * usize::MAX + 2,
{
    if text_eq(segment, ".") || text_eq(segment, "..") {
        return n;
    }
    let joined: i128 = if n == 1 {
        1
    } else {
        n + 1
    };
    let drive: i128 = if text_eq(scheme, "file") {
        1
    } else {
        0
    };
    joined + segment_bytes(segment, scheme_is_special(scheme)) + drive
}

/// Why there is no URL to check a configuration at.
#[derive(Clone, Copy, Debug, PartialEq, Eq, Structural)]
pub enum EndpointError {
    /// The base URL cannot be extended.
    NotExtendable,
    /// The base URL with the model takes more bytes than 32 bits count.
    TooLong,
}

/// The request that a configuration is checked with.
#[derive(Debug, PartialEq, Eq)]
pub struct CheckRequest {
    /// Where it goes.
    pub endpoint: Result<String, EndpointError>,
    /// Whether the response lists the models that are served.
    pub lists_models: bool,
}

/// Where a request goes, with its text taken as characters.
pub open spec fn endpoint_view(r: Result<String, EndpointError>) -> Result<
    Seq<char>,
    EndpointError,
> {
    match r {
        Ok(url) => Ok(url@),
        Err(error) => Err(error),
    }
}

impl ClientView {
    /// The URL of a path of the provider.
    pub open spec fn endpoint(self, path: Seq<char>) -> Seq<char> {
        self.base_url + "/"@ + path
    }

    /// Whether the URL of the model takes no more bytes than 32 bits count.
    pub open spec fn model_fits(self) -> bool {
        segments_fit(self.base_url, "models"@, self.model)
    }

    /// Where a configuration is checked: the key endpoint, the endpoint of the
    /// model, or the catalog of the models.
    pub open spec fn check_endpoint(self) -> Result<Seq<char>, EndpointError> {
        match self.provider.facts().check_style {
            CheckStyle::Key => Ok(self.endpoint("key"@)),
            CheckStyle::Model => if !self.model_fits() {
                Err(EndpointError::TooLong)
            } else {
                match url_with_segments(self.base_url, "models"@, self.model) {
                    Some(url) => Ok(url),
                    None => Err(EndpointError::NotExtendable),
                }
            },
            CheckStyle::Catalog => Ok(self.endpoint("models"@)),
        }
    }
}

/// The title that a request to a provider carries, if any.
pub open spec fn sent_title(provider: Provider) -> Option<Seq<char>> {
    if provider.facts().request_style == RequestStyle::Router {
        Some("aishell"@)
    } else {
        None
    }
}

/// Whether a provider is checked by the list of its models.
pub open spec fn is_checked_by_list(provider: Provider) -> bool {
    provider.facts().check_style == CheckStyle::Catalog
}

/// Whether a configuration works, from what its check was answered and from the
/// models that the response lists.
pub open spec fn check_result(
    client: ClientView,
    answered: Result<(), ProviderErrorView>,
    models: Result<Vec<String>, String>,
) -> Result<(), ProviderErrorView> {
    match answered {
        Err(error) => Err(error),
        Ok(_) => if is_checked_by_list(client.provider) {
            available(models, client.provider, client.model)
        } else {
            Ok(())
        },
    }
}

impl AiClient {
    /// The client of a configuration.
    pub fn new(config: &Config) -> (r: Self)
        ensures
            r@ == configured(config@),
    {
        let api_key = match &config.provider.api_key {
            Some(key) => {
                let key = trimmed(key.as_str());
                if key.as_str().is_empty() {
                    None
                } else {
                    Some(key)
                }
            },
            None => None,
        };
        AiClient {
            provider: config.provider.kind,
            api_key,
            model: trimmed(config.provider.model.as_str()),
            base_url: strip_slashes(trimmed(config.provider.base_url.as_str()).as_str()),
            timeout_seconds: config.generation.timeout_seconds,
            max_output_tokens: config.generation.max_output_tokens,
            file_io: config.tools.file_io,
        }
    }

    /// The provider.
    pub fn provider(&self) -> (r: Provider)
        ensures
            r == self@.provider,
    {
        self.provider
    }

    /// The model.
    pub fn model(&self) -> (r: &str)
        ensures
            r@ == self@.model,
    {
        self.model.as_str()
    }

    /// How long a request may take, in seconds.
    pub fn timeout_seconds(&self) -> (r: u64)
        ensures
            r == self@.timeout_seconds,
    {
        self.timeout_seconds
    }

    /// How many tokens are generated at most.
    pub fn max_output_tokens(&self) -> (r: u32)
        ensures
            r == self@.max_output_tokens,
    {
        self.max_output_tokens
    }

    /// Whether the model may use the file tools.
    pub fn file_io(&self) -> (r: bool)
        ensures
            r == self@.file_io,
    {
        self.file_io
    }

    /// The URL of a path of the provider.
    pub fn endpoint(&self, path: &str) -> (r: String)
        ensures
            r@ == self@.endpoint(path@),
    {
        join3(self.base_url.as_str(), "/", path)
    }

    /// The URL of the model. `None` where the base URL cannot be extended.
    pub fn model_endpoint(&self) -> (r: Option<String>)
        requires
            self@.model_fits(),
        ensures
            opt_text(r) == url_with_segments(self@.base_url, "models"@, self@.model),
    {
        append_segments(self.base_url.as_str(), "models", self.model.as_str())
    }

    /// Whether the URL of the model takes no more bytes than 32 bits count.
    fn model_fits(&self) -> (r: bool)
        ensures
            r == self@.model_fits(),
    {
        match parse_url(self.base_url.as_str()) {
            Err(_) => true,
            Ok(url) => {
                let scheme = url.scheme.as_str();
                let whole: i128 = text_bytes(url.text.as_str()) as i128;
                let path: i128 = text_bytes(url.path.as_str()) as i128;
                let base: i128 = count_without_last_slash(url.path.as_str());
                let extended: i128 = count_with_segment(
                    count_with_segment(base, "models", scheme),
                    self.model.as_str(),
                    scheme,
                );
                whole <= u32::MAX as i128 && whole - path + extended <= u32::MAX as i128
            },
        }
    }

    /// The request that the configuration is checked with.
    pub fn check(&self) -> (r: CheckRequest)
        ensures
            endpoint_view(r.endpoint) == self@.check_endpoint(),
            r.lists_models == (self@.provider.facts().check_style == CheckStyle::Catalog),
            r.lists_models == is_checked_by_list(self@.provider),
    {
        match self.provider.profile().check_style {
            CheckStyle::Key => CheckRequest {
                endpoint: Ok(self.endpoint("key")),
                lists_models: false,
            },
            CheckStyle::Model => {
                let endpoint = if !self.model_fits() {
                    Err(EndpointError::TooLong)
                } else {
                    match self.model_endpoint() {
                        Some(url) => Ok(url),
                        None => Err(EndpointError::NotExtendable),
                    }
                };
                CheckRequest { endpoint, lists_models: false }
            },
            CheckStyle::Catalog => CheckRequest {
                endpoint: Ok(self.endpoint("models")),
                lists_models: true,
            },
        }
    }

    /// Whether the configuration works, from what its check was answered. The models
    /// are those that the response lists, or the reason where they could not be
    /// parsed; they count only where the provider lists them.
    pub fn checked(
        &self,
        answered: Result<(), ProviderError>,
        models: Result<Vec<String>, String>,
    ) -> (r: Result<(), ProviderError>)
        ensures
            unit_view(r) == (match unit_view(answered) {
                Err(error) => Err(error),
                Ok(_) => if self@.provider.facts().check_style == CheckStyle::Catalog {
                    available(models, self@.provider, self@.model)
                } else {
                    Ok(())
                },
            }),
            unit_view(r) == check_result(self@, unit_view(answered), models),
    {
        match answered {
            Err(error) => {
                return Err(error);
            },
            Ok(_) => {},
        }
        match self.provider.profile().check_style {
            CheckStyle::Catalog => verify_model_available(
                models,
                self.provider,
                self.model.as_str(),
            ),
            _ => Ok(()),
        }
    }

    /// What identifies the client to its provider.
    pub fn authenticated(&self) -> (r: Credentials)
        ensures
            opt_text(r.bearer) == self@.api_key,
            match r.title {
                Some(title) => self@.provider.facts().request_style == RequestStyle::Router
                    && title@ == "aishell"@,
                None => self@.provider.facts().request_style != RequestStyle::Router,
            },
            sent_title(self@.provider) == (match r.title {
                Some(title) => Some(title@),
                None => None,
            }),
    {
        Credentials {
            bearer: clone_opt(&self.api_key),
            title: if self.provider.profile().request_style == RequestStyle::Router {
                Some("aishell")
            } else {
                None
            },
        }
    }
}

// ---------------------------------------------------------------------------
// Responses.

/// The text of a response. The bytes are the reason where they could not be read,
/// and one more than the limit where there are more.
pub open spec fn response_text(provider: Provider, read: Result<Vec<u8>, String>) -> Result<
    Seq<char>,
    ProviderErrorView,
> {
    match read {
        Err(reason) => Err(ProviderErrorView::Io { provider, source: reason@ }),
        Ok(bytes) => if bytes@.len() > MAX_RESPONSE_BYTES {
            Err(ProviderErrorView::ResponseTooLarge { provider })
        } else {
            match utf8_text(bytes@) {
                Some(body) => Ok(body),
                None => Err(ProviderErrorView::InvalidUtf8 { provider }),
            }
        },
    }
}

/// The text of a response.
pub fn read_response(provider: Provider, read: Result<Vec<u8>, String>) -> (r: Result<
    String,
    ProviderError,
>)
    ensures
        text_view(r) == response_text(provider, read),
{
    match read {
        Err(reason) => Err(ProviderError::Io { provider, source: reason }),
        Ok(bytes) => {
            if bytes.len() as u64 > MAX_RESPONSE_BYTES {
                return Err(ProviderError::ResponseTooLarge { provider });
            }
            match decode(bytes.as_slice()) {
                Some(body) => Ok(body),
                None => Err(ProviderError::InvalidUtf8 { provider }),
            }
        },
    }
}

/// Whether a status is that of a success, or the error that it stands for. The
/// message is what the response tells of the error, if anything.
pub open spec fn checked_status(
    provider: Provider,
    status: u16,
    message: Option<Seq<char>>,
) -> Result<(), ProviderErrorView> {
    if 200 <= status < 300 {
        Ok(())
    } else {
        Err(
            ProviderErrorView::Api {
                provider,
                status,
                message: match message {
                    Some(message) => sanitized(message),
                    None => "request failed without a readable error message"@,
                },
            },
        )
    }
}

/// Whether a status is that of a success. The message is what the response tells
/// of the error, if anything.
pub fn check_status(provider: Provider, status: u16, message: Option<String>) -> (r: Result<
    (),
    ProviderError,
>)
    ensures
        unit_view(r) == checked_status(provider, status, opt_text(message)),
{
    if 200 <= status && status < 300 {
        return Ok(());
    }
    let message = match message {
        Some(message) => sanitize_error(message.as_str()),
        None => "request failed without a readable error message".to_owned(),
    };
    Err(ProviderError::Api { provider, status, message })
}

/// Whether a model is among those that are served. The list is the reason where
/// it could not be parsed.
pub open spec fn available(
    models: Result<Vec<String>, String>,
    provider: Provider,
    model: Seq<char>,
) -> Result<(), ProviderErrorView> {
    match models {
        Err(reason) => Err(ProviderErrorView::InvalidResponse(reason@)),
        Ok(models) => if texts(models@).contains(model) {
            Ok(())
        } else {
            Err(ProviderErrorView::ModelUnavailable { provider, model })
        },
    }
}

/// Whether a model is among those that are served.
pub fn verify_model_available(
    listed: Result<Vec<String>, String>,
    provider: Provider,
    model: &str,
) -> (r: Result<(), ProviderError>)
    ensures
        unit_view(r) == available(listed, provider, model@),
{
    let models = match listed {
        Err(reason) => {
            return Err(ProviderError::InvalidResponse(reason));
        },
        Ok(models) => models,
    };
    let ghost served = texts(models@);
    let mut i: usize = 0;
    while i < models.len()
        invariant
            served == texts(models@),
            listed == Ok::<Vec<String>, String>(models),
            i <= models@.len(),
            forall|k: int| 0 <= k < i ==> served[k] != model@,
        decreases models@.len() - i,
    {
        assert(served[i as int] == models@[i as int]@);
        if text_eq(models[i].as_str(), model) {
            assert(served.contains(model@));
            return Ok(());
        }
        i = i + 1;
    }
    assert(!served.contains(model@));
    Err(ProviderError::ModelUnavailable { provider, model: model.to_owned() })
}

// ---------------------------------------------------------------------------
// Choices.

/// The message of a choice.
#[derive(Clone, Debug, PartialEq, Eq)]
pub struct ResponseMessage {
    pub content: Option<String>,
    pub tool_calls: Vec<ToolCall>,
}

/// One of the answers of a model.
#[derive(Clone, Debug, PartialEq, Eq)]
pub struct Choice {
    pub message: ResponseMessage,
    pub finish_reason: Option<String>,
}

/// A choice, with its texts taken as characters.
#[verifier::ext_equal]
pub struct ChoiceView {
    pub content: Option<Seq<char>>,
    pub tool_calls: Seq<ToolCallView>,
    pub finish_reason: Option<Seq<char>>,
}

impl View for Choice {
    type V = ChoiceView;

    open spec fn view(&self) -> ChoiceView {
        ChoiceView {
            content: opt_text(self.message.content),
            tool_calls: call_views(self.message.tool_calls@),
            finish_reason: opt_text(self.finish_reason),
        }
    }
}

/// The answers of a model.
#[derive(Clone, Debug, PartialEq, Eq)]
pub struct ChatResponse {
    pub choices: Vec<Choice>,
}

/// The choice of a response, or why there is none.
pub open spec fn first_choice(response: Result<ChatResponse, String>) -> Result<
    ChoiceView,
    ProviderErrorView,
> {
    match response {
        Err(reason) => Err(ProviderErrorView::InvalidResponse(reason@)),
        Ok(response) => if response.choices@.len() == 0 {
            Err(ProviderErrorView::InvalidResponse("no choice was returned"@))
        } else {
            Ok(response.choices@[0]@)
        },
    }
}

/// A choice with its parts taken by their views.
pub open spec fn choice_view(r: Result<Choice, ProviderError>) -> Result<
    ChoiceView,
    ProviderErrorView,
> {
    match r {
        Ok(choice) => Ok(choice@),
        Err(error) => Err(error@),
    }
}

/// The choice of a response, which is the reason where it could not be parsed.
pub fn parse_chat_choice(response: Result<ChatResponse, String>) -> (r: Result<
    Choice,
    ProviderError,
>)
    ensures
        choice_view(r) == first_choice(response),
{
    match response {
        Err(reason) => Err(ProviderError::InvalidResponse(reason)),
        Ok(response) => {
            let mut choices = response.choices;
            if choices.len() == 0 {
                return Err(ProviderError::InvalidResponse("no choice was returned".to_owned()));
            }
            Ok(choices.swap_remove(0))
        },
    }
}

/// The output of a choice without tool calls.
pub open spec fn choice_output(choice: ChoiceView) -> Result<OutputView, ProviderErrorView> {
    match choice.content {
        Some(content) => generated_output(content),
        None => Err(
            ProviderErrorView::InvalidResponse(
                if choice.finish_reason == Some("length"@) {
                    "the output token limit was reached before text was returned"@
                } else {
                    "no text choice was returned"@
                },
            ),
        ),
    }
}

/// The output of a choice without tool calls.
pub fn parse_choice_output(choice: &Choice) -> (r: Result<GeneratedOutput, ProviderError>)
    ensures
        reply_view(r) == choice_output(choice@),
{
    match &choice.message.content {
        Some(content) => parse_generated_output(content.as_str()),
        None => {
            let cut_off = match &choice.finish_reason {
                Some(reason) => text_eq(reason.as_str(), "length"),
                None => false,
            };
            let reason = if cut_off {
                "the output token limit was reached before text was returned"
            } else {
                "no text choice was returned"
            };
            Err(ProviderError::InvalidResponse(reason.to_owned()))
        },
    }
}

/// The output of a response that is to call no tools.
pub open spec fn final_output(response: Result<ChatResponse, String>) -> Result<
    OutputView,
    ProviderErrorView,
> {
    match first_choice(response) {
        Err(error) => Err(error),
        Ok(choice) => if choice.tool_calls.len() > 0 {
            Err(
                ProviderErrorView::InvalidResponse(
                    "a final response was expected, but the model requested a tool"@,
                ),
            )
        } else {
            choice_output(choice)
        },
    }
}

/// The output of a response that is to call no tools.
pub fn parse_chat_response(response: Result<ChatResponse, String>) -> (r: Result<
    GeneratedOutput,
    ProviderError,
>)
    ensures
        reply_view(r) == final_output(response),
{
    match parse_chat_choice(response) {
        Err(error) => Err(error),
        Ok(choice) => {
            assert(choice@.tool_calls.len() == choice.message.tool_calls@.len());
            if choice.message.tool_calls.len() > 0 {
                return Err(
                    ProviderError::InvalidResponse(
                        "a final response was expected, but the model requested a tool".to_owned(),
                    ),
                );
            }
            parse_choice_output(&choice)
        },
    }
}

// ---------------------------------------------------------------------------
// Laws.

/// Slashes at the end of a base URL play no part, and nothing else of it is taken
/// away.
pub proof fn slashes_at_the_end_play_no_part(s: Seq<char>)
    ensures
        without_slashes(s + "/"@) == without_slashes(s),
        without_slashes(s).len() > 0 ==> without_slashes(s).last() != '/',
        without_slashes(s).len() <= s.len(),
        s.take(without_slashes(s).len() as int) == without_slashes(s),
        forall|i: int| without_slashes(s).len() <= i < s.len() ==> #[trigger] s[i] == '/',
    decreases s.len(),
{
    reveal_strlit("/");
    assert((s + "/"@).drop_last() =~= s);
    assert((s + "/"@).last() == '/');
    if s.len() > 0 && s.last() == '/' {
        let front = s.drop_last();
        slashes_at_the_end_play_no_part(front);
        assert(s.take(without_slashes(s).len() as int) =~= front.take(
            without_slashes(front).len() as int,
        ));
        assert forall|i: int| without_slashes(s).len() <= i < s.len() implies #[trigger] s[i]
            == '/' by {
            if i < front.len() {
                assert(s[i] == front[i]);
            }
        }
    } else {
        assert(s.take(s.len() as int) =~= s);
    }
}

/// A client does as it is configured: it has the provider, the limits and the
/// permission of its configuration, and its key, model and base URL without the
/// white space around them. A blank key is none.
pub proof fn clients_do_as_configured(config: ConfigView)
    ensures
        configured(config).provider == config.kind,
        configured(config).model == trim(config.model),
        configured(config).base_url == without_slashes(trim(config.base_url)),
        configured(config).timeout_seconds == config.generation.timeout_seconds,
        configured(config).max_output_tokens == config.generation.max_output_tokens,
        configured(config).file_io == config.tools.file_io,
        configured(config).api_key is Some <==> (config.api_key matches Some(key) && trim(key).len()
            > 0),
        config.api_key matches Some(key) ==> trim(key).len() > 0 ==> configured(config).api_key
            == Some(trim(key)),
{
}

/// A configuration is checked below its own base URL: OpenRouter at the endpoint
/// of the key, OpenAI at that of the model, and the local servers at the list of
/// their models.
pub proof fn checks_go_to_the_configured_server(client: ClientView, path: Seq<char>)
    ensures
        client.endpoint(path) == client.base_url + "/"@ + path,
        client.provider == Provider::OpenRouter ==> client.check_endpoint() == Ok::<
            Seq<char>,
            EndpointError,
        >(client.base_url + "/"@ + "key"@),
        client.provider == Provider::LlamaCpp || client.provider == Provider::Vllm
            ==> client.check_endpoint() == Ok::<Seq<char>, EndpointError>(
            client.base_url + "/"@ + "models"@,
        ),
        client.provider == Provider::OpenAi ==> match url_with_segments(
            client.base_url,
            "models"@,
            client.model,
        ) {
            Some(url) => client.check_endpoint() == Ok::<Seq<char>, EndpointError>(url)
                || client.check_endpoint() == Err::<Seq<char>, EndpointError>(
                EndpointError::TooLong,
            ),
            None => client.check_endpoint() is Err,
        },
{
}

/// A response is taken exactly where its status is one of success, from 200 to
/// 299. Any other is reported with the provider, the status and what the server
/// says of it.
pub proof fn only_success_is_taken_for_success(
    provider: Provider,
    status: u16,
    message: Option<Seq<char>>,
)
    ensures
        checked_status(provider, status, message) matches Ok(_) <==> 200 <= status <= 299,
        checked_status(provider, status, message) matches Err(error) ==> (
        error matches ProviderErrorView::Api { provider: named, status: code, message: said } && {
            &&& named == provider
            &&& code == status
            &&& (message matches Some(text) ==> said == sanitized(text))
            &&& message is None ==> said == "request failed without a readable error message"@
        }),
{
}

/// A response of up to 1048576 bytes of text is taken as it is. A larger one is
/// refused, and so is one that is no text.
pub proof fn responses_are_taken_whole_or_refused(
    provider: Provider,
    bytes: Vec<u8>,
    reason: String,
    text: Seq<char>,
)
    ensures
        bytes@ == encode_utf8(text) && bytes@.len() <= 1048576 ==> response_text(
            provider,
            Ok(bytes),
        ) == Ok::<Seq<char>, ProviderErrorView>(text),
        bytes@.len() > 1048576 ==> response_text(provider, Ok(bytes)) == Err::<
            Seq<char>,
            ProviderErrorView,
        >(ProviderErrorView::ResponseTooLarge { provider }),
        response_text(provider, Ok(bytes)) matches Ok(body) ==> encode_utf8(body) == bytes@,
        response_text(provider, Err(reason)) == Err::<Seq<char>, ProviderErrorView>(
            ProviderErrorView::Io { provider, source: reason@ },
        ),
{
    if bytes@ == encode_utf8(text) {
        vstd::utf8::encode_utf8_valid_utf8(text);
        vstd::utf8::encode_utf8_decode_utf8(text);
    }
    if vstd::utf8::valid_utf8(bytes@) {
        vstd::utf8::decode_utf8_encode_utf8(bytes@);
    }
}

/// A model is available exactly where a served one has the very same name.
pub proof fn models_are_found_by_their_name(
    models: Vec<String>,
    provider: Provider,
    model: Seq<char>,
)
    ensures
        available(Ok(models), provider, model) matches Ok(_) <==> exists|i: int|
            0 <= i < models@.len() && (#[trigger] models@[i])@ == model,
        available(Ok(models), provider, model) matches Err(error) ==> error == (
        ProviderErrorView::ModelUnavailable { provider, model }),
{
    let served = texts(models@);
    if served.contains(model) {
        let i = choose|i: int| 0 <= i < served.len() && served[i] == model;
        assert(models@[i]@ == model);
    }
    if exists|i: int| 0 <= i < models@.len() && (#[trigger] models@[i])@ == model {
        let i = choose|i: int| 0 <= i < models@.len() && (#[trigger] models@[i])@ == model;
        assert(served[i] == model);
    }
}

/// The first choice of a response counts. Its text is the output; without text the
/// reason is told, and a call of a tool is no output.
pub proof fn the_first_choice_counts(response: ChatResponse)
    ensures
        response.choices@.len() == 0 ==> final_output(Ok(response)) == Err::<
            OutputView,
            ProviderErrorView,
        >(ProviderErrorView::InvalidResponse("no choice was returned"@)),
        response.choices@.len() > 0 ==> first_choice(Ok(response)) == Ok::<
            ChoiceView,
            ProviderErrorView,
        >(response.choices@[0]@),
        response.choices@.len() > 0 ==> {
            let message = response.choices@[0].message;
            &&& message.tool_calls@.len() > 0 ==> final_output(Ok(response)) == Err::<
                OutputView,
                ProviderErrorView,
            >(
                ProviderErrorView::InvalidResponse(
                    "a final response was expected, but the model requested a tool"@,
                ),
            )
            &&& message.tool_calls@.len() == 0 ==> match message.content {
                Some(text) => final_output(Ok(response)) == generated_output(text@),
                None => final_output(Ok(response)) == Err::<OutputView, ProviderErrorView>(
                    ProviderErrorView::InvalidResponse(
                        if opt_text(response.choices@[0].finish_reason) == Some("length"@) {
                            "the output token limit was reached before text was returned"@
                        } else {
                            "no text choice was returned"@
                        },
                    ),
                ),
            }
        },
{
    if response.choices@.len() > 0 {
        let choice = response.choices@[0];
        assert(choice@.tool_calls.len() == choice.message.tool_calls@.len());
    }
}

/// Only OpenRouter is sent a title, and only the local servers are asked for the
/// list of their models.
pub proof fn only_openrouter_is_sent_a_title(provider: Provider)
    ensures
        sent_title(provider) is Some <==> provider == Provider::OpenRouter,
        sent_title(provider) matches Some(title) ==> title == "aishell"@,
        is_checked_by_list(provider) <==> provider == Provider::LlamaCpp || provider
            == Provider::Vllm,
{
}

/// A configuration works where its check was answered, and where the local servers
/// also list the model. A failed check is reported as it is.
pub proof fn checks_tell_whether_the_model_is_served(
    client: ClientView,
    answered: Result<(), ProviderErrorView>,
    models: Vec<String>,
)
    ensures
        answered matches Err(error) ==> check_result(client, answered, Ok(models)) == Err::<
            (),
            ProviderErrorView,
        >(error),
        answered matches Ok(_) ==> {
            &&& client.provider == Provider::OpenRouter || client.provider == Provider::OpenAi ==> (
            check_result(client, answered, Ok(models)) matches Ok(_))
            &&& client.provider == Provider::LlamaCpp || client.provider == Provider::Vllm ==> ((
            check_result(client, answered, Ok(models)) matches Ok(_)) <==> exists|i: int|
                0 <= i < models@.len() && (#[trigger] models@[i])@ == client.model)
        },
{
    models_are_found_by_their_name(models, client.provider, client.model);
}

/// A character of a model's name takes as many bytes in a URL as it is written
/// with: none for tabs and line breaks, one for each letter, digit and sign that
/// stands for itself, and three for each byte of everything that is escaped. The
/// bytes of a name are those of its characters.
pub proof fn names_are_counted_as_they_are_written(s: Seq<char>, c: char, special: bool)
    ensures
        written_text(s.push(c), special) == written_text(s, special) + written_char(c, special),
        written_text(Seq::<char>::empty(), special) == 0,
        c == '\t' || c == '\n' || c == '\r' ==> written_char(c, special) == 0,
        'a' <= c <= 'z' || 'A' <= c <= 'Z' || '0' <= c <= '9' || c == '-' || c == '.' || c == '_'
            || c == '~' || c == ':' || c == '@' ==> written_char(c, special) == 1,
        c == ' ' || c == '/' || c == '%' || c == '?' || c == '#' || c == '"' || c == '<' || c == '>'
            || c == '`' || c == '{' || c == '}' ==> written_char(c, special) == 3,
        c == '\\' ==> written_char(c, special) == (if special {
            3int
        } else {
            1
        }),
        c >= '\u{80}' ==> written_char(c, special) == 3 * byte_length(seq![c]),
{
    assert(s.push(c).drop_last() =~= s);
    if c >= '\u{80}' {
        lemma_character_bytes(c);
    }
}

proof fn lemma_character_bytes(c: char)
    ensures
        byte_length(seq![c]) == vstd::utf8::encode_scalar(c as u32).len(),
{
    let one = seq![c];
    assert(one.drop_first() =~= seq![]);
    assert(encode_utf8(one.drop_first()) =~= seq![]);
    assert(encode_utf8(one) =~= vstd::utf8::encode_scalar(c as u32));
}

/// The schemes in whose URLs a backslash is a slash are those of the web, of files
/// and of FTP, and no others.
pub proof fn special_schemes_are_six(scheme: Seq<char>)
    ensures
        is_special_scheme("http"@) && is_special_scheme("https"@) && is_special_scheme("ws"@)
            && is_special_scheme("wss"@) && is_special_scheme("ftp"@) && is_special_scheme("file"@),
        is_special_scheme(scheme) ==> 2 <= scheme.len() <= 5,
{
    reveal_strlit("http");
    reveal_strlit("https");
    reveal_strlit("ws");
    reveal_strlit("wss");
    reveal_strlit("ftp");
    reveal_strlit("file");
}

/// A path with one more segment has a slash and the segment behind it, but takes no
/// other slash where it is one alone. A segment that names the directory or its
/// parent adds nothing, and a slash at the end is not counted twice.
pub proof fn segments_are_counted_with_their_slash(
    n: int,
    segment: Seq<char>,
    scheme: Seq<char>,
    path: Seq<char>,
)
    ensures
        with_segment(n, "."@, scheme) == n,
        with_segment(n, ".."@, scheme) == n,
        segment != "."@ && segment != ".."@ && n != 1 && scheme != "file"@ ==> with_segment(
            n,
            segment,
            scheme,
        ) == n + 1 + written_text(segment, is_special_scheme(scheme)),
        segment != "."@ && segment != ".."@ && scheme != "file"@ ==> with_segment(
            1,
            segment,
            scheme,
        ) == 1 + written_text(segment, is_special_scheme(scheme)),
        path.len() > 1 && path.last() == '/' ==> without_last_slash(path) == byte_length(path) - 1,
        path.len() > 0 && path.last() != '/' ==> without_last_slash(path) == byte_length(path),
        path.len() == 1 ==> without_last_slash(path) == byte_length(path),
{
}

} // verus!

use vstd::prelude::*;

use crate::json::{
    embed, embed_body, json_object, json_object_body, json_reformatted, opt_str_ref_view,
    reformat_json,
};
use crate::text::{decimal, decimal_text};

verus! {

/// The HTTP methods the CLI uses.
#[derive(Debug, Clone, Copy, PartialEq, Eq, Structural)]
pub enum HttpMethod {
    Get,
    Post,
}

/// A request for the HTTP client to perform: method, url, `Authorization` header and JSON body.
#[derive(Debug)]
pub struct HttpRequest {
    pub method: HttpMethod,
    pub url: String,
    pub authorization: Option<String>,
    pub json_body: Option<String>,
}

pub struct HttpRequestView {
    pub method: HttpMethod,
    pub url: Seq<char>,
    pub authorization: Option<Seq<char>>,
    pub json_body: Option<Seq<char>>,
}

pub open spec fn opt_str_view(o: Option<String>) -> Option<Seq<char>> {
    match o {
        Some(s) => Some(s@),
        None => None,
    }
}

impl View for HttpRequest {
    type V = HttpRequestView;

    open spec fn view(&self) -> HttpRequestView {
        HttpRequestView {
            method: self.method,
            url: self.url@,
            authorization: opt_str_view(self.authorization),
            json_body: opt_str_view(self.json_body),
        }
    }
}

/// Why talking to Discord failed.
#[derive(Debug, PartialEq, Eq)]
pub enum ApiError {
    /// A webhook answered with a status outside 200..=299; the answer's body is kept.
    WebhookStatus { status: u16, body: String },
    /// The bot API answered with a status outside 200..=299; the answer's body is kept.
    ApiStatus { status: u16, body: String },
    /// The bot API's answer is not JSON.
    Unparsable,
}

/// An HTTP status in 200..=299.
pub open spec fn is_success(status: u16) -> bool {
    200 <= status <= 299
}

/// An answer counts as a success exactly when its status is a 2xx code; every informational,
/// redirection, client-error and server-error status is a failure.
pub proof fn law_success_is_2xx(status: u16)
    ensures
        is_success(status) <==> (200 <= status && status < 300),
        (100 <= status <= 199 || 300 <= status <= 399 || 400 <= status <= 499 || 500 <= status
            <= 599) ==> !is_success(status),
{
}

/// The reason phrase that the `http` crate keeps for a status code, if it knows one.
pub uninterp spec fn canonical_reason(status: u16) -> Option<Seq<char>>;

/// Calls `reqwest::StatusCode::from_u16` and then `canonical_reason` (both of the `http` crate).
/// Claimed: the phrase is a function of the code alone (`canonical_reason`), and there is none
/// for codes outside 100..=999, which `from_u16` refuses.
#[verifier::external_body]
fn reason_phrase(status: u16) -> (res: Option<String>)
    ensures
        opt_str_view(res) == canonical_reason(status),
        !(100 <= status <= 999) ==> res is None,
{
    match reqwest::StatusCode::from_u16(status) {
        Ok(code) => match code.canonical_reason() {
            Some(reason) => Some(reason.to_owned()),
            None => None,
        },
        Err(_) => None,
    }
}

/// A status as the `http` crate displays it: the code, a space, and the reason phrase (or
/// `<unknown status code>`).
pub open spec fn status_text(status: u16) -> Seq<char> {
    decimal_text(status as nat) + " "@ + match canonical_reason(status) {
        Some(r) => r,
        None => "<unknown status code>"@,
    }
}

/// The text that reports a failure to the user.
pub open spec fn api_error_message(e: ApiError) -> Seq<char> {
    match e {
        ApiError::WebhookStatus { status, body } => "Webhook failed with status "@ + status_text(
            status,
        ) + ": "@ + body@,
        ApiError::ApiStatus { status, body } => "API error "@ + status_text(status) + ": "@
            + body@,
        ApiError::Unparsable => "Failed to parse response"@,
    }
}

fn status_display(status: u16) -> (res: String)
    ensures
        res@ == status_text(status),
{
    let mut res = decimal(status as u32);
    res.append(" ");
    match reason_phrase(status) {
        Some(reason) => res.append(reason.as_str()),
        None => res.append("<unknown status code>"),
    }
    res
}

impl ApiError {
    /// The text that reports this failure to the user.
    pub fn message(&self) -> (res: String)
        ensures
            res@ == api_error_message(*self),
    {
        match self {
            ApiError::WebhookStatus { status, body } => {
                let mut res = "Webhook failed with status ".to_owned();
                let shown = status_display(*status);
                res.append(shown.as_str());
                res.append(": ");
                res.append(body.as_str());
                res
            },
            ApiError::ApiStatus { status, body } => {
                let mut res = "API error ".to_owned();
                let shown = status_display(*status);
                res.append(shown.as_str());
                res.append(": ");
                res.append(body.as_str());
                res
            },
            ApiError::Unparsable => "Failed to parse response".to_owned(),
        }
    }
}

/// A client for one Discord webhook.
pub struct WebhookClient {
    url: String,
}

impl View for WebhookClient {
    type V = Seq<char>;

    closed spec fn view(&self) -> Seq<char> {
        self.url@
    }
}

/// Maps the status and body of a webhook's answer to the outcome of a send.
pub fn webhook_reply(status: u16, body: String) -> (res: Result<(), ApiError>)
    ensures
        is_success(status) ==> res is Ok,
        !is_success(status) ==> (res matches Err(ApiError::WebhookStatus { status: s, body: b })
            && s == status && b == body),
        200 <= status <= 299 <==> res is Ok,
        (status < 200 || status > 299) ==> (res matches Err(ApiError::WebhookStatus {
            status: s,
            body: b,
        }) && s == status && b == body),
{
    if 200 <= status && status <= 299 {
        Ok(())
    } else {
        Err(ApiError::WebhookStatus { status, body })
    }
}

impl WebhookClient {
    /// A client that posts to `url`.
    pub fn new(url: &str) -> (res: Self)
        ensures
            res@ == url@,
    {
        WebhookClient { url: url.to_owned() }
    }

    /// The request that posts a plain message: `{"content":<content>}` to the webhook's url.
    pub fn send(&self, content: &str) -> (res: HttpRequest)
        ensures
            res@ == (HttpRequestView {
                method: HttpMethod::Post,
                url: self@,
                authorization: None,
                json_body: Some(json_object_body("content"@, content@)),
            }),
    {
        HttpRequest {
            method: HttpMethod::Post,
            url: self.url.clone(),
            authorization: None,
            json_body: Some(json_object("content", content)),
        }
    }

    /// The request that posts an embed with the given title, description and color; absent
    /// parts are left out of the embed.
    pub fn send_embed(&self, title: Option<&str>, description: Option<&str>, color: Option<u32>) -> (res: HttpRequest)
        ensures
            res@ == (HttpRequestView {
                method: HttpMethod::Post,
                url: self@,
                authorization: None,
                json_body: Some(embed_body(opt_str_ref_view(title), opt_str_ref_view(description), color)),
            }),
    {
        HttpRequest {
            method: HttpMethod::Post,
            url: self.url.clone(),
            authorization: None,
            json_body: Some(embed(title, description, color)),
        }
    }
}

/// The bot API's address for an endpoint path.
pub open spec fn api_url(endpoint: Seq<char>) -> Seq<char> {
    "https://discord.com/api/v10"@ + endpoint
}

/// The `Authorization` header that carries a bot token.
pub open spec fn bot_authorization(token: Seq<char>) -> Seq<char> {
    "Bot "@ + token
}

/// What the bot API's answer comes to: on a status in 200..=299, its JSON body re-written in
/// serde_json's pretty form (`Unparsable` when it is not JSON); otherwise the status and body.
pub fn api_answer(status: u16, body: String) -> (res: Result<String, ApiError>)
    ensures
        !is_success(status) ==> (res matches Err(ApiError::ApiStatus { status: s, body: b })
            && s == status && b@ == body@),
        (status < 200 || status > 299) ==> (res matches Err(ApiError::ApiStatus {
            status: s,
            body: b,
        }) && s == status && b@ == body@),
        is_success(status) ==> match json_reformatted(body@) {
            Some(p) => res matches Ok(t) && t@ == p,
            None => res == Err::<String, ApiError>(ApiError::Unparsable),
        },
        200 <= status <= 299 ==> match json_reformatted(body@) {
            Some(p) => res matches Ok(t) && t@ == p,
            None => res == Err::<String, ApiError>(ApiError::Unparsable),
        },
{
    if 200 <= status && status <= 299 {
        match reformat_json(body.as_str()) {
            Some(p) => Ok(p),
            None => Err(ApiError::Unparsable),
        }
    } else {
        Err(ApiError::ApiStatus { status, body })
    }
}

/// A client for the Discord bot API, authenticated by a bot token.
pub struct BotClient {
    token: String,
}

impl View for BotClient {
    type V = Seq<char>;

    closed spec fn view(&self) -> Seq<char> {
        self.token@
    }
}

impl BotClient {
    /// A client that authenticates with `token`.
    pub fn new(token: &str) -> (res: Self)
        ensures
            res@ == token@,
    {
        BotClient { token: token.to_owned() }
    }

    /// The request for `endpoint`, authenticated with the bot token.
    fn request(&self, method: HttpMethod, endpoint: &str, body: Option<String>) -> (res: HttpRequest)
        ensures
            res@ == (HttpRequestView {
                method,
                url: api_url(endpoint@),
                authorization: Some(bot_authorization(self@)),
                json_body: opt_str_view(body),
            }),
    {
        let mut url = "https://discord.com/api/v10".to_owned();
        url.append(endpoint);
        let mut authorization = "Bot ".to_owned();
        authorization.append(self.token.as_str());
        HttpRequest { method, url, authorization: Some(authorization), json_body: body }
    }

    fn get(&self, endpoint: &str) -> (res: HttpRequest)
        ensures
            res@ == (HttpRequestView {
                method: HttpMethod::Get,
                url: api_url(endpoint@),
                authorization: Some(bot_authorization(self@)),
                json_body: None,
            }),
    {
        self.request(HttpMethod::Get, endpoint, None)
    }

    fn post(&self, endpoint: &str, body: String) -> (res: HttpRequest)
        ensures
            res@ == (HttpRequestView {
                method: HttpMethod::Post,
                url: api_url(endpoint@),
                authorization: Some(bot_authorization(self@)),
                json_body: Some(body@),
            }),
    {
        self.request(HttpMethod::Post, endpoint, Some(body))
    }

    /// The request that lists the bot's guilds.
    pub fn guilds(&self) -> (res: HttpRequest)
        ensures
            res@ == (HttpRequestView {
                method: HttpMethod::Get,
                url: api_url("/users/@me/guilds"@),
                authorization: Some(bot_authorization(self@)),
                json_body: None,
            }),
    {
        self.get("/users/@me/guilds")
    }

    /// The request that lists the channels of a guild.
    pub fn channels(&self, guild_id: &str) -> (res: HttpRequest)
        ensures
            res@ == (HttpRequestView {
                method: HttpMethod::Get,
                url: api_url("/guilds/"@ + guild_id@ + "/channels"@),
                authorization: Some(bot_authorization(self@)),
                json_body: None,
            }),
    {
        let mut endpoint = "/guilds/".to_owned();
        endpoint.append(guild_id);
        endpoint.append("/channels");
        self.get(endpoint.as_str())
    }

    /// The request that reads up to `limit` messages of a channel.
    pub fn messages(&self, channel_id: &str, limit: u32) -> (res: HttpRequest)
        ensures
            res@ == (HttpRequestView {
                method: HttpMethod::Get,
                url: api_url("/channels/"@ + channel_id@ + "/messages?limit="@ + decimal_text(limit as nat)),
                authorization: Some(bot_authorization(self@)),
                json_body: None,
            }),
    {
        let mut endpoint = "/channels/".to_owned();
        endpoint.append(channel_id);
        endpoint.append("/messages?limit=");
        let digits = decimal(limit);
        endpoint.append(digits.as_str());
        self.get(endpoint.as_str())
    }

    /// The request that posts a message `{"content":<content>}` to a channel.
    pub fn send_message(&self, channel_id: &str, content: &str) -> (res: HttpRequest)
        ensures
            res@ == (HttpRequestView {
                method: HttpMethod::Post,
                url: api_url("/channels/"@ + channel_id@ + "/messages"@),
                authorization: Some(bot_authorization(self@)),
                json_body: Some(json_object_body("content"@, content@)),
            }),
    {
        let mut endpoint = "/channels/".to_owned();
        endpoint.append(channel_id);
        endpoint.append("/messages");
        self.post(endpoint.as_str(), json_object("content", content))
    }

    /// The request that creates a webhook called `name` in a channel: `{"name":<name>}`.
    pub fn create_webhook(&self, channel_id: &str, name: &str) -> (res: HttpRequest)
        ensures
            res@ == (HttpRequestView {
                method: HttpMethod::Post,
                url: api_url("/channels/"@ + channel_id@ + "/webhooks"@),
                authorization: Some(bot_authorization(self@)),
                json_body: Some(json_object_body("name"@, name@)),
            }),
    {
        let mut endpoint = "/channels/".to_owned();
        endpoint.append(channel_id);
        endpoint.append("/webhooks");
        self.post(endpoint.as_str(), json_object("name", name))
    }
}

} // verus!

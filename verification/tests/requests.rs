use discord_cli::api::{api_answer, webhook_reply, ApiError, BotClient, HttpMethod, WebhookClient};
use discord_cli::commands::created_webhook;
use discord_cli::config::{add_webhook_to_config, Config};
use discord_cli::json::{embed, embed_from, json_object, json_object_from};
use serde_json::{Number, Value};

fn object(fields: Vec<(&str, Value)>) -> serde_json::Map<String, Value> {
    let mut m = serde_json::Map::new();
    for (k, v) in fields {
        m.insert(k.to_string(), v);
    }
    m
}

#[test]
fn webhook_send_posts_content_json() {
    let client = WebhookClient::new("https://discord/webhook/x");
    let content = "hi \"there\"\n\\ é";
    let req = client.send(content);
    assert_eq!(req.method, HttpMethod::Post);
    assert_eq!(req.url, "https://discord/webhook/x");
    assert_eq!(req.authorization, None);
    let expected = serde_json::to_string(&Value::Object(object(vec![(
        "content",
        Value::String(content.to_string()),
    )])))
    .unwrap();
    assert_eq!(req.json_body.unwrap(), expected);
}

#[test]
fn string_literals_escape_as_serde_json_does() {
    let samples = [
        "", "plain", "\"", "\\", "\u{8}\t\n\u{c}\r", "\u{0}\u{1}\u{1f}\u{7f}", "/slash", "é😀",
        "a\"b\\c\u{1b}d",
    ];
    for s in samples {
        let expected = serde_json::to_string(&Value::Object(object(vec![(
            "k",
            Value::String(s.to_string()),
        )])))
        .unwrap();
        assert_eq!(json_object("k", s), expected, "{:?}", s);
    }
    assert_eq!(json_object("k", "\u{1}"), r#"{"k":"\u0001"}"#);
    assert_eq!(json_object("k", "\u{1f}"), r#"{"k":"\u001f"}"#);
}

#[test]
fn webhook_embed_matches_json_serialization() {
    let client = WebhookClient::new("u");
    let req = client.send_embed(Some("T\""), Some("D"), Some(0x00ff00));
    let embed_value = object(vec![
        ("title", Value::String("T\"".into())),
        ("description", Value::String("D".into())),
        ("color", Value::Number(Number::from(0x00ff00u32))),
    ]);
    let expected = serde_json::to_string(&Value::Object(object(vec![(
        "embeds",
        Value::Array(vec![Value::Object(embed_value)]),
    )])))
    .unwrap();
    assert_eq!(req.json_body.unwrap(), expected);

    assert_eq!(embed(Some("x"), None, None), r#"{"embeds":[{"title":"x"}]}"#);
    assert_eq!(embed(None, None, None), r#"{"embeds":[{}]}"#);
    assert_eq!(embed(None, None, Some(4294967295)), r#"{"embeds":[{"color":4294967295}]}"#);
}

#[test]
fn bot_requests_target_api_endpoints() {
    let bot = BotClient::new("abc");
    let g = bot.guilds();
    assert_eq!(g.method, HttpMethod::Get);
    assert_eq!(g.url, "https://discord.com/api/v10/users/@me/guilds");
    assert_eq!(g.authorization.as_deref(), Some("Bot abc"));
    assert_eq!(g.json_body, None);

    let c = bot.channels("42");
    assert_eq!(c.url, "https://discord.com/api/v10/guilds/42/channels");

    let m = bot.messages("7", 10);
    assert_eq!(m.url, "https://discord.com/api/v10/channels/7/messages?limit=10");
    assert_eq!(m.method, HttpMethod::Get);

    let s = bot.send_message("7", "hello");
    assert_eq!(s.method, HttpMethod::Post);
    assert_eq!(s.url, "https://discord.com/api/v10/channels/7/messages");
    assert_eq!(s.json_body.as_deref(), Some(r#"{"content":"hello"}"#));

    let w = bot.create_webhook("7", "hook");
    assert_eq!(w.url, "https://discord.com/api/v10/channels/7/webhooks");
    assert_eq!(w.json_body.as_deref(), Some(r#"{"name":"hook"}"#));
    assert_eq!(w.authorization.as_deref(), Some("Bot abc"));
}

#[test]
fn webhook_replies_succeed_only_on_2xx() {
    assert_eq!(webhook_reply(204, String::new()), Ok(()));
    assert_eq!(webhook_reply(200, "x".into()), Ok(()));
    assert_eq!(
        webhook_reply(404, "nope".into()),
        Err(ApiError::WebhookStatus { status: 404, body: "nope".into() })
    );
    assert_eq!(
        webhook_reply(199, String::new()),
        Err(ApiError::WebhookStatus { status: 199, body: String::new() })
    );
}

#[test]
fn api_answers_are_pretty_json() {
    let body = r#"[{"id":"1","name":"g"}]"#;
    let expected =
        serde_json::to_string_pretty(&serde_json::from_str::<Value>(body).unwrap()).unwrap();
    assert_eq!(api_answer(200, body.into()), Ok(expected));
    assert_eq!(api_answer(299, "{}".into()), Ok("{}".to_string()));
    assert_eq!(api_answer(200, "not json".into()), Err(ApiError::Unparsable));
    assert_eq!(api_answer(200, String::new()), Err(ApiError::Unparsable));
    assert_eq!(
        api_answer(300, "moved".into()),
        Err(ApiError::ApiStatus { status: 300, body: "moved".into() })
    );
}

#[test]
fn api_error_messages_show_status_and_body() {
    assert_eq!(
        ApiError::WebhookStatus { status: 404, body: "nope".into() }.message(),
        "Webhook failed with status 404 Not Found: nope"
    );
    assert_eq!(
        ApiError::ApiStatus { status: 401, body: "{}".into() }.message(),
        "API error 401 Unauthorized: {}"
    );
    assert_eq!(
        ApiError::ApiStatus { status: 599, body: "x".into() }.message(),
        "API error 599 <unknown status code>: x"
    );
    assert_eq!(ApiError::Unparsable.message(), "Failed to parse response");
    let code = reqwest::StatusCode::from_u16(429).unwrap();
    assert_eq!(
        ApiError::ApiStatus { status: 429, body: "b".into() }.message(),
        format!("API error {}: b", code)
    );
}

#[test]
fn created_webhook_reads_url_and_saves_alias() {
    let body = r#"{"id":"9","url":"https://discord.com/api/webhooks/9/tok"}"#;
    let (url, saved) = created_webhook(None, 200, body.into(), None).unwrap();
    assert_eq!(url, "https://discord.com/api/webhooks/9/tok");
    assert!(saved.is_none());

    let mut cfg = Config::default();
    add_webhook_to_config(&mut cfg, "old", "u0".into());
    let (url, saved) = created_webhook(Some(cfg), 200, body.into(), Some("new")).unwrap();
    let saved = saved.unwrap();
    assert_eq!(saved.webhooks.get("new").unwrap(), &url);
    assert_eq!(saved.default_webhook.as_deref(), Some("old"));

    let (url, saved) = created_webhook(None, 200, r#"{"id":"9"}"#.into(), Some("a")).unwrap();
    assert_eq!(url, "");
    let saved = saved.unwrap();
    assert_eq!(saved.webhooks.get("a").unwrap(), "");
    assert_eq!(saved.default_webhook.as_deref(), Some("a"));

    assert!(matches!(
        created_webhook(None, 200, "oops".into(), Some("a")),
        Err(ApiError::Unparsable)
    ));
    assert!(matches!(
        created_webhook(None, 403, "denied".into(), Some("a")),
        Err(ApiError::ApiStatus { status: 403, .. })
    ));
    let (url, _) = created_webhook(None, 200, r#"{"url":5}"#.into(), None).unwrap();
    assert_eq!(url, "");
}

#[test]
fn bodies_frame_given_literals() {
    assert_eq!(json_object_from("content", "\"a\""), r#"{"content":"a"}"#);
    assert_eq!(json_object_from("name", "\"x\\\"y\""), r#"{"name":"x\"y"}"#);
    assert_eq!(
        embed_from(Some("\"t\""), None, Some(5)),
        r#"{"embeds":[{"color":5,"title":"t"}]}"#
    );
    assert_eq!(
        embed_from(Some("\"t\""), Some("\"d\""), None),
        r#"{"embeds":[{"description":"d","title":"t"}]}"#
    );
    assert_eq!(embed_from(None, None, None), r#"{"embeds":[{}]}"#);
}

use discord_cli::commands::{
    config_or_default, get_bot_client, get_webhook_url, handle_config, show_config_lines,
    ConfigCommand, ConfigOutcome,
};
use discord_cli::config::{
    add_webhook_to_config, get_webhook_url_from_config, remove_webhook_from_config,
    set_bot_token_in_config, set_default_webhook_in_config, Config, ConfigError,
};

fn sample_config() -> Config {
    let mut cfg = Config::default();
    cfg.webhooks
        .insert("alerts".into(), "https://discord/webhook/alerts".into());
    cfg.webhooks
        .insert("ops".into(), "https://discord/webhook/ops".into());
    cfg.default_webhook = Some("alerts".into());
    cfg
}

#[test]
fn webhook_url_uses_named_or_default_webhook() {
    let cfg = sample_config();

    assert_eq!(
        get_webhook_url_from_config(&cfg, Some("ops")).expect("named webhook"),
        "https://discord/webhook/ops"
    );
    assert_eq!(
        get_webhook_url_from_config(&cfg, None).expect("default webhook"),
        "https://discord/webhook/alerts"
    );
}

#[test]
fn webhook_url_errors_without_default_or_missing_name() {
    let mut cfg = sample_config();
    cfg.default_webhook = None;

    assert!(get_webhook_url_from_config(&cfg, None)
        .expect_err("default missing")
        .message()
        .contains("No default webhook"));
    assert!(get_webhook_url_from_config(&cfg, Some("missing"))
        .expect_err("webhook missing")
        .message()
        .contains("Webhook 'missing' not found"));
}

#[test]
fn add_webhook_sets_first_webhook_as_default_only_once() {
    let mut cfg = Config::default();

    add_webhook_to_config(&mut cfg, "first", "url1".into());
    add_webhook_to_config(&mut cfg, "second", "url2".into());

    assert_eq!(cfg.webhooks.get("first").unwrap(), "url1");
    assert_eq!(cfg.webhooks.get("second").unwrap(), "url2");
    assert_eq!(cfg.default_webhook.as_deref(), Some("first"));
}

#[test]
fn remove_webhook_clears_default_and_errors_when_missing() {
    let mut cfg = sample_config();

    remove_webhook_from_config(&mut cfg, "alerts").expect("remove default");

    assert!(!cfg.webhooks.contains_key("alerts"));
    assert_eq!(cfg.default_webhook, None);
    assert!(remove_webhook_from_config(&mut cfg, "missing").is_err());
}

#[test]
fn set_default_webhook_requires_existing_name() {
    let mut cfg = sample_config();

    set_default_webhook_in_config(&mut cfg, "ops").expect("set default");

    assert_eq!(cfg.default_webhook.as_deref(), Some("ops"));
    assert!(set_default_webhook_in_config(&mut cfg, "missing").is_err());
}

#[test]
fn set_bot_token_replaces_token() {
    let mut cfg = Config::default();

    set_bot_token_in_config(&mut cfg, "secret".into());

    assert_eq!(cfg.bot_token.as_deref(), Some("secret"));
}

#[test]
fn error_messages_are_exact() {
    assert_eq!(
        ConfigError::NoDefaultWebhook.message(),
        "No default webhook set. Use 'discord config default-webhook <name>'"
    );
    assert_eq!(
        ConfigError::WebhookNotFound("x y".into()).message(),
        "Webhook 'x y' not found"
    );
    assert_eq!(
        ConfigError::NoBotToken.message(),
        "No bot token configured. Use 'discord config bot-token <token>'"
    );
}

#[test]
fn added_webhook_is_found_and_replaces_same_name() {
    let mut cfg = sample_config();
    add_webhook_to_config(&mut cfg, "ops", "https://new/ops".into());
    assert_eq!(get_webhook_url_from_config(&cfg, Some("ops")).unwrap(), "https://new/ops");
    assert_eq!(cfg.default_webhook.as_deref(), Some("alerts"));
    assert_eq!(cfg.webhooks.entries().len(), 2);
    assert_eq!(
        get_webhook_url_from_config(&cfg, Some("alerts")).unwrap(),
        "https://discord/webhook/alerts"
    );
}

#[test]
fn removed_webhook_is_gone_and_others_stay() {
    let mut cfg = sample_config();
    remove_webhook_from_config(&mut cfg, "ops").unwrap();
    assert_eq!(
        get_webhook_url_from_config(&cfg, Some("ops")),
        Err(ConfigError::WebhookNotFound("ops".into()))
    );
    assert_eq!(cfg.default_webhook.as_deref(), Some("alerts"));
    assert_eq!(
        get_webhook_url_from_config(&cfg, None).unwrap(),
        "https://discord/webhook/alerts"
    );
}

#[test]
fn refused_changes_leave_config_unchanged() {
    let mut cfg = sample_config();
    assert_eq!(
        remove_webhook_from_config(&mut cfg, "nope"),
        Err(ConfigError::WebhookNotFound("nope".into()))
    );
    assert_eq!(
        set_default_webhook_in_config(&mut cfg, "nope"),
        Err(ConfigError::WebhookNotFound("nope".into()))
    );
    assert_eq!(cfg.default_webhook.as_deref(), Some("alerts"));
    assert_eq!(cfg.webhooks.entries().len(), 2);
}

#[test]
fn default_set_is_used_without_a_name() {
    let mut cfg = sample_config();
    set_default_webhook_in_config(&mut cfg, "ops").unwrap();
    assert_eq!(get_webhook_url_from_config(&cfg, None).unwrap(), "https://discord/webhook/ops");
}

#[test]
fn nothing_loaded_means_empty_config() {
    let cfg = config_or_default(None);
    assert!(cfg.webhooks.entries().is_empty());
    assert_eq!(cfg.default_webhook, None);
    assert_eq!(cfg.bot_token, None);
    assert_eq!(get_webhook_url(None, None), Err(ConfigError::NoDefaultWebhook));
    assert_eq!(
        get_webhook_url(None, Some("a")),
        Err(ConfigError::WebhookNotFound("a".into()))
    );
    assert_eq!(
        get_webhook_url(Some(sample_config()), Some("ops")).unwrap(),
        "https://discord/webhook/ops"
    );
}

#[test]
fn bot_client_needs_a_token() {
    assert!(matches!(get_bot_client(None), Err(ConfigError::NoBotToken)));
    let mut cfg = Config::default();
    set_bot_token_in_config(&mut cfg, "tok".into());
    let client = get_bot_client(Some(cfg)).unwrap();
    let req = client.guilds();
    assert_eq!(req.authorization.as_deref(), Some("Bot tok"));
}

#[test]
fn handle_config_reports_each_change() {
    match handle_config(
        ConfigCommand::AddWebhook { name: "a".into(), url: "u".into() },
        None,
    ) {
        Ok(ConfigOutcome::Save { config, message }) => {
            assert_eq!(message, "Added webhook 'a'");
            assert_eq!(config.default_webhook.as_deref(), Some("a"));
            assert_eq!(config.webhooks.get("a").unwrap(), "u");
        }
        _ => panic!("expected a save"),
    }
    match handle_config(ConfigCommand::RemoveWebhook { name: "ops".into() }, Some(sample_config())) {
        Ok(ConfigOutcome::Save { config, message }) => {
            assert_eq!(message, "Removed webhook 'ops'");
            assert!(!config.webhooks.contains_key("ops"));
        }
        _ => panic!("expected a save"),
    }
    assert!(matches!(
        handle_config(ConfigCommand::RemoveWebhook { name: "zz".into() }, None),
        Err(ConfigError::WebhookNotFound(n)) if n == "zz"
    ));
    match handle_config(ConfigCommand::DefaultWebhook { name: "ops".into() }, Some(sample_config())) {
        Ok(ConfigOutcome::Save { config, message }) => {
            assert_eq!(message, "Default webhook set to 'ops'");
            assert_eq!(config.default_webhook.as_deref(), Some("ops"));
        }
        _ => panic!("expected a save"),
    }
    assert!(matches!(
        handle_config(ConfigCommand::DefaultWebhook { name: "zz".into() }, None),
        Err(ConfigError::WebhookNotFound(_))
    ));
    match handle_config(ConfigCommand::BotToken { token: "t".into() }, None) {
        Ok(ConfigOutcome::Save { config, message }) => {
            assert_eq!(message, "Bot token saved");
            assert_eq!(config.bot_token.as_deref(), Some("t"));
        }
        _ => panic!("expected a save"),
    }
}

#[test]
fn show_lists_webhooks_with_default_marker_and_token_state() {
    let mut cfg = sample_config();
    cfg.webhooks.insert(
        "long".into(),
        "https://discord.com/api/webhooks/1234567890/abcdefghijklmnopqrstuvwxyz".into(),
    );
    let lines = show_config_lines(&cfg);
    assert_eq!(lines.len(), 5);
    assert_eq!(lines[0], "Webhooks:");
    assert!(lines.contains(&"  alerts (default): https://discord/webhook/alerts".to_string()));
    assert!(lines.contains(&"  ops: https://discord/webhook/ops".to_string()));
    assert!(lines.contains(
        &"  long: https://discord.com/api/webhooks/1234567...qrstuvwxyz".to_string()
    ));
    assert_eq!(lines[4], "Bot token: not set");

    set_bot_token_in_config(&mut cfg, "x".into());
    match handle_config(ConfigCommand::Show, Some(cfg)) {
        Ok(ConfigOutcome::Print { lines }) => assert_eq!(lines[4], "Bot token: configured"),
        _ => panic!("expected a listing"),
    }
}

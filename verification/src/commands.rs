use vstd::prelude::*;

use crate::api::{is_success, ApiError, BotClient};
use crate::config::{
    add_webhook_to_config, bot_token_for, empty_config, get_webhook_url_from_config,
    remove_webhook_from_config, set_bot_token_in_config, set_default_webhook_in_config,
    string_result_view, webhook_url_for, with_bot_token, with_default_set, with_webhook_added,
    with_webhook_removed, Config, ConfigError, ConfigView,
};
use crate::json::{json_url_member, url_member};
use crate::text::{mask_defined, mask_webhook, masked};
use crate::webhooks::{entry_view, lemma_pairs_map_at, names_unique, pairs_map};

verus! {

/// The `config` subcommands.
#[derive(Debug)]
pub enum ConfigCommand {
    /// Store a webhook url under a name.
    AddWebhook { name: String, url: String },
    /// Forget the webhook stored under a name.
    RemoveWebhook { name: String },
    /// Make the named webhook the default.
    DefaultWebhook { name: String },
    /// Store the bot token.
    BotToken { token: String },
    /// List the configuration.
    Show,
}

/// What a `config` subcommand leaves to be done: save a changed configuration and report it,
/// or print a listing.
pub enum ConfigOutcome {
    Save { config: Config, message: String },
    Print { lines: Vec<String> },
}

/// The configuration in use: the one that was read, or the empty one when none could be read.
pub open spec fn loaded_view(loaded: Option<Config>) -> ConfigView {
    match loaded {
        Some(c) => c@,
        None => empty_config(),
    }
}

/// Every stored url can be shown masked.
pub open spec fn urls_maskable(c: ConfigView) -> bool {
    forall|n: Seq<char>| #[trigger] c.webhooks.contains_key(n) ==> mask_defined(c.webhooks[n])
}

/// One line of the listing: a webhook's name, a marker when it is the default, its masked url.
pub open spec fn webhook_line(name: Seq<char>, url: Seq<char>, default: Option<Seq<char>>) -> Seq<char> {
    "  "@ + name + (if default == Some(name) {
        " (default)"@
    } else {
        Seq::<char>::empty()
    }) + ": "@ + masked(url)
}

/// The last line of the listing: whether a bot token is configured.
pub open spec fn token_line(token: Option<Seq<char>>) -> Seq<char> {
    "Bot token: "@ + if token is Some {
        "configured"@
    } else {
        "not set"@
    }
}

/// The listing of a configuration whose webhooks are stored as `pairs`.
pub open spec fn config_listing(pairs: Seq<(Seq<char>, Seq<char>)>, c: ConfigView) -> Seq<Seq<char>> {
    seq!["Webhooks:"@] + pairs.map_values(
        |p: (Seq<char>, Seq<char>)| webhook_line(p.0, p.1, c.default_webhook),
    ) + seq![token_line(c.bot_token)]
}

pub open spec fn lines_view(lines: Vec<String>) -> Seq<Seq<char>> {
    lines@.map_values(|l: String| l@)
}

/// The configuration that was read, or the empty configuration when none could be read.
pub fn config_or_default(loaded: Option<Config>) -> (res: Config)
    ensures
        res@ == loaded_view(loaded),
{
    match loaded {
        Some(c) => c,
        None => Config::default(),
    }
}

/// The url that a send command uses, from the configuration that was read (`None` when there
/// was none): the named webhook's, or the default webhook's.
pub fn get_webhook_url(loaded: Option<Config>, name: Option<&str>) -> (res: Result<String, ConfigError>)
    ensures
        string_result_view(res) == webhook_url_for(loaded_view(loaded), match name {
            Some(n) => Some(n@),
            None => None,
        }),
{
    let config = config_or_default(loaded);
    get_webhook_url_from_config(&config, name)
}

/// The bot client for bot commands, from the configuration that was read (`None` when there
/// was none); refused when no bot token is configured.
pub fn get_bot_client(loaded: Option<Config>) -> (res: Result<BotClient, ConfigError>)
    ensures
        match bot_token_for(loaded_view(loaded)) {
            Ok(token) => res matches Ok(client) && client@ == token,
            Err(f) => res matches Err(e) && e@ == f,
        },
{
    let config = config_or_default(loaded);
    match config.bot_token {
        Some(token) => Ok(BotClient::new(token.as_str())),
        None => Err(ConfigError::NoBotToken),
    }
}

/// `prefix + name + suffix`.
fn framed(prefix: &str, name: &str, suffix: &str) -> (res: String)
    ensures
        res@ == prefix@ + name@ + suffix@,
{
    let mut res = prefix.to_owned();
    res.append(name);
    res.append(suffix);
    res
}

/// The lines that list a configuration: its webhooks with masked urls, then whether a bot
/// token is set.
pub fn show_config_lines(config: &Config) -> (res: Vec<String>)
    requires
        urls_maskable(config@),
    ensures
        names_unique(config.webhooks.pairs()),
        pairs_map(config.webhooks.pairs()) == config@.webhooks,
        lines_view(res) == config_listing(config.webhooks.pairs(), config@),
{
    let entries = config.webhooks.entries();
    let ghost pairs = config.webhooks.pairs();
    let mut lines: Vec<String> = Vec::new();
    lines.push("Webhooks:".to_owned());
    let mut i: usize = 0;
    while i < entries.len()
        invariant
            i <= entries@.len(),
            pairs == config.webhooks.pairs(),
            entries@.map_values(|e: (String, String)| entry_view(e)) == pairs,
            names_unique(pairs),
            pairs_map(pairs) == config@.webhooks,
            urls_maskable(config@),
            lines_view(lines) =~= seq!["Webhooks:"@] + pairs.subrange(0, i as int).map_values(
                |p: (Seq<char>, Seq<char>)| webhook_line(p.0, p.1, config@.default_webhook),
            ),
        decreases entries@.len() - i,
    {
        let name = &entries[i].0;
        let url = &entries[i].1;
        proof {
            assert(pairs[i as int] == (name@, url@));
            lemma_pairs_map_at(pairs, i as int);
            assert(config@.webhooks.contains_key(name@));
        }
        let is_default = match &config.default_webhook {
            Some(d) => *d == *name,
            None => false,
        };
        let mut line = "  ".to_owned();
        line.append(name.as_str());
        if is_default {
            line.append(" (default)");
        }
        line.append(": ");
        let shown = mask_webhook(url.as_str());
        line.append(shown.as_str());
        let ghost before = lines_view(lines);
        lines.push(line);
        proof {
            assert(lines_view(lines) =~= before.push(webhook_line(name@, url@, config@.default_webhook)));
            assert(pairs.subrange(0, i + 1) =~= pairs.subrange(0, i as int).push(pairs[i as int]));
        }
        i = i + 1;
    }
    let status = if config.bot_token.is_some() {
        "configured"
    } else {
        "not set"
    };
    lines.push(framed("Bot token: ", status, ""));
    proof {
        reveal_strlit("");
        assert(pairs.subrange(0, i as int) =~= pairs);
    }
    assert(lines_view(lines) =~= config_listing(pairs, config@));
    lines
}

/// Carries out a `config` subcommand on the configuration that was read (`None` when there
/// was none): the changed configuration to save with its report, or the listing to print.
pub fn handle_config(command: ConfigCommand, loaded: Option<Config>) -> (res: Result<ConfigOutcome, ConfigError>)
    requires
        command is Show ==> urls_maskable(loaded_view(loaded)),
    ensures
        match command {
            ConfigCommand::AddWebhook { name, url } => res matches Ok(
                ConfigOutcome::Save { config: c, message: m },
            ) && c@ == with_webhook_added(loaded_view(loaded), name@, url@) && m@ == "Added webhook '"@
                + name@ + "'"@,
            ConfigCommand::RemoveWebhook { name } => match with_webhook_removed(
                loaded_view(loaded),
                name@,
            ) {
                Ok(c2) => res matches Ok(ConfigOutcome::Save { config: c, message: m }) && c@ == c2
                    && m@ == "Removed webhook '"@ + name@ + "'"@,
                Err(f) => res matches Err(e) && e@ == f,
            },
            ConfigCommand::DefaultWebhook { name } => match with_default_set(
                loaded_view(loaded),
                name@,
            ) {
                Ok(c2) => res matches Ok(ConfigOutcome::Save { config: c, message: m }) && c@ == c2
                    && m@ == "Default webhook set to '"@ + name@ + "'"@,
                Err(f) => res matches Err(e) && e@ == f,
            },
            ConfigCommand::BotToken { token } => res matches Ok(
                ConfigOutcome::Save { config: c, message: m },
            ) && c@ == with_bot_token(loaded_view(loaded), token@) && m@ == "Bot token saved"@,
            ConfigCommand::Show => res matches Ok(ConfigOutcome::Print { lines }) && exists|
                c: Config,
            |
                c@ == loaded_view(loaded) && lines_view(lines) == config_listing(
                    c.webhooks.pairs(),
                    c@,
                ) && names_unique(c.webhooks.pairs()) && pairs_map(c.webhooks.pairs())
                    == c@.webhooks,
        },
{
    let mut config = config_or_default(loaded);
    match command {
        ConfigCommand::AddWebhook { name, url } => {
            add_webhook_to_config(&mut config, name.as_str(), url);
            let message = framed("Added webhook '", name.as_str(), "'");
            Ok(ConfigOutcome::Save { config, message })
        },
        ConfigCommand::RemoveWebhook { name } => {
            match remove_webhook_from_config(&mut config, name.as_str()) {
                Ok(()) => {
                    let message = framed("Removed webhook '", name.as_str(), "'");
                    Ok(ConfigOutcome::Save { config, message })
                },
                Err(e) => Err(e),
            }
        },
        ConfigCommand::DefaultWebhook { name } => {
            match set_default_webhook_in_config(&mut config, name.as_str()) {
                Ok(()) => {
                    let message = framed("Default webhook set to '", name.as_str(), "'");
                    Ok(ConfigOutcome::Save { config, message })
                },
                Err(e) => Err(e),
            }
        },
        ConfigCommand::BotToken { token } => {
            set_bot_token_in_config(&mut config, token);
            Ok(ConfigOutcome::Save { config, message: "Bot token saved".to_owned() })
        },
        ConfigCommand::Show => {
            let lines = show_config_lines(&config);
            Ok(ConfigOutcome::Print { lines })
        },
    }
}

/// A text, or the empty text when there is none.
pub open spec fn text_or_empty(text: Option<Seq<char>>) -> Seq<char> {
    match text {
        Some(t) => t,
        None => Seq::empty(),
    }
}

/// What the bot API's answer to creating a webhook comes to: the new webhook's url (its
/// `url` member, empty when it has none) and, when an alias is given, the configuration that
/// was read (`None` when there was none) with the url stored under the alias. Refused when
/// the status is outside 200..=299 or the answer is not JSON.
pub fn created_webhook(loaded: Option<Config>, status: u16, body: String, alias: Option<&str>) -> (res: Result<(String, Option<Config>), ApiError>)
    ensures
        !is_success(status) ==> (res matches Err(ApiError::ApiStatus { status: s, body: b }) && s
            == status && b@ == body@),
        (status < 200 || status > 299) ==> (res matches Err(ApiError::ApiStatus {
            status: s,
            body: b,
        }) && s == status && b@ == body@),
        is_success(status) ==> match json_url_member(body@) {
            None => res == Err::<(String, Option<Config>), ApiError>(ApiError::Unparsable),
            Some(u) => (res matches Ok((url, saved)) && url@ == text_or_empty(u) && match alias {
                Some(a) => (saved matches Some(c) && c@ == with_webhook_added(
                    loaded_view(loaded),
                    a@,
                    url@,
                )),
                None => saved is None,
            }),
        },
        200 <= status <= 299 ==> match json_url_member(body@) {
            None => res == Err::<(String, Option<Config>), ApiError>(ApiError::Unparsable),
            Some(u) => (res matches Ok((url, saved)) && url@ == text_or_empty(u) && match alias {
                Some(a) => (saved matches Some(c) && c@ == with_webhook_added(
                    loaded_view(loaded),
                    a@,
                    url@,
                )),
                None => saved is None,
            }),
        },
{
    if !(200 <= status && status <= 299) {
        return Err(ApiError::ApiStatus { status, body });
    }
    let url = match url_member(body.as_str()) {
        None => {
            return Err(ApiError::Unparsable);
        },
        Some(Some(u)) => u,
        Some(None) => String::new(),
    };
    match alias {
        Some(a) => {
            let mut config = config_or_default(loaded);
            add_webhook_to_config(&mut config, a, url.clone());
            Ok((url, Some(config)))
        },
        None => Ok((url, None)),
    }
}

/// The line for a webhook marked as the default.
pub open spec fn marked_line(name: Seq<char>, url: Seq<char>) -> Seq<char> {
    "  "@ + name + " (default)"@ + ": "@ + masked(url)
}

/// The line for a webhook that is not the default.
pub open spec fn plain_line(name: Seq<char>, url: Seq<char>) -> Seq<char> {
    "  "@ + name + ": "@ + masked(url)
}

/// The listing shows a header, one line per stored webhook in storage order, and the token
/// line. A webhook's line carries " (default)" exactly when the default webhook is set and
/// is that webhook: with no default no line is marked, and at most one line ever is.
pub proof fn law_listing_marks_only_the_default(pairs: Seq<(Seq<char>, Seq<char>)>, c: ConfigView)
    requires
        names_unique(pairs),
    ensures
        config_listing(pairs, c).len() == pairs.len() + 2,
        config_listing(pairs, c)[0] == "Webhooks:"@,
        config_listing(pairs, c)[pairs.len() + 1 as int] == token_line(c.bot_token),
        forall|i: int|
            0 <= i < pairs.len() ==> (#[trigger] config_listing(pairs, c)[i + 1] == marked_line(
                pairs[i].0,
                pairs[i].1,
            ) <==> c.default_webhook == Some(pairs[i].0)),
        forall|i: int|
            0 <= i < pairs.len() ==> (#[trigger] config_listing(pairs, c)[i + 1] == plain_line(
                pairs[i].0,
                pairs[i].1,
            ) <==> c.default_webhook != Some(pairs[i].0)),
        c.default_webhook is None ==> forall|i: int|
            0 <= i < pairs.len() ==> #[trigger] config_listing(pairs, c)[i + 1] != marked_line(
                pairs[i].0,
                pairs[i].1,
            ),
        forall|i: int, j: int|
            0 <= i < pairs.len() && 0 <= j < pairs.len() && #[trigger] config_listing(pairs, c)[i
                + 1] == marked_line(pairs[i].0, pairs[i].1) && #[trigger] config_listing(pairs, c)[j
                + 1] == marked_line(pairs[j].0, pairs[j].1) ==> i == j,
{
    reveal_strlit(" (default)");
    let l = config_listing(pairs, c);
    let lines = pairs.map_values(
        |p: (Seq<char>, Seq<char>)| webhook_line(p.0, p.1, c.default_webhook),
    );
    assert forall|i: int| 0 <= i < pairs.len() implies #[trigger] l[i + 1] == webhook_line(
        pairs[i].0,
        pairs[i].1,
        c.default_webhook,
    ) by {
        assert(l[i + 1] == lines[i]);
    }
    assert forall|i: int| 0 <= i < pairs.len() implies (marked_line(pairs[i].0, pairs[i].1)
        != plain_line(pairs[i].0, pairs[i].1)) by {
        assert(marked_line(pairs[i].0, pairs[i].1).len() == plain_line(pairs[i].0, pairs[i].1).len()
            + 10);
    }
    assert forall|i: int| 0 <= i < pairs.len() implies webhook_line(
        pairs[i].0,
        pairs[i].1,
        c.default_webhook,
    ) == (if c.default_webhook == Some(pairs[i].0) {
        marked_line(pairs[i].0, pairs[i].1)
    } else {
        plain_line(pairs[i].0, pairs[i].1)
    }) by {
        if c.default_webhook != Some(pairs[i].0) {
            assert("  "@ + pairs[i].0 + Seq::<char>::empty() =~= "  "@ + pairs[i].0);
        }
    }
    assert(l[0] == "Webhooks:"@);
    assert(l[pairs.len() + 1 as int] == token_line(c.bot_token));
}

} // verus!

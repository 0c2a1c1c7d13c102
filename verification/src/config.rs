use vstd::prelude::*;

use crate::webhooks::WebhookMap;

verus! {

/// The CLI's settings: named webhook urls, the default webhook's name and the bot token.
pub struct Config {
    pub webhooks: WebhookMap,
    pub default_webhook: Option<String>,
    pub bot_token: Option<String>,
}

/// What a `Config` holds, as mathematical values.
pub struct ConfigView {
    pub webhooks: Map<Seq<char>, Seq<char>>,
    pub default_webhook: Option<Seq<char>>,
    pub bot_token: Option<Seq<char>>,
}

pub open spec fn opt_view(o: Option<String>) -> Option<Seq<char>> {
    match o {
        Some(s) => Some(s@),
        None => None,
    }
}

impl View for Config {
    type V = ConfigView;

    open spec fn view(&self) -> ConfigView {
        ConfigView {
            webhooks: self.webhooks@,
            default_webhook: opt_view(self.default_webhook),
            bot_token: opt_view(self.bot_token),
        }
    }
}

/// The configuration used when none has been saved: no webhooks, no default, no token.
pub open spec fn empty_config() -> ConfigView {
    ConfigView {
        webhooks: Map::empty(),
        default_webhook: None,
        bot_token: None,
    }
}

impl Default for Config {
    fn default() -> (res: Self)
        ensures
            res@ == empty_config(),
    {
        Config { webhooks: WebhookMap::new(), default_webhook: None, bot_token: None }
    }
}

/// Why a configuration request was refused, as a mathematical value.
pub enum ConfigFault {
    NoDefaultWebhook,
    WebhookNotFound(Seq<char>),
    NoBotToken,
}

/// Why a configuration request was refused.
#[derive(Debug, PartialEq, Eq)]
pub enum ConfigError {
    /// No webhook name was given and no default webhook is set.
    NoDefaultWebhook,
    /// No webhook is stored under the given name.
    WebhookNotFound(String),
    /// A bot command was asked for but no bot token is configured.
    NoBotToken,
}

impl View for ConfigError {
    type V = ConfigFault;

    open spec fn view(&self) -> ConfigFault {
        match self {
            ConfigError::NoDefaultWebhook => ConfigFault::NoDefaultWebhook,
            ConfigError::WebhookNotFound(name) => ConfigFault::WebhookNotFound(name@),
            ConfigError::NoBotToken => ConfigFault::NoBotToken,
        }
    }
}

/// The text that reports a refusal to the user.
pub open spec fn fault_message(f: ConfigFault) -> Seq<char> {
    match f {
        ConfigFault::NoDefaultWebhook => "No default webhook set. Use 'discord config default-webhook <name>'"@,
        ConfigFault::WebhookNotFound(name) => "Webhook '"@ + name + "' not found"@,
        ConfigFault::NoBotToken => "No bot token configured. Use 'discord config bot-token <token>'"@,
    }
}

impl ConfigError {
    /// The text that reports this refusal to the user.
    pub fn message(&self) -> (res: String)
        ensures
            res@ == fault_message(self@),
    {
        match self {
            ConfigError::NoDefaultWebhook => {
                "No default webhook set. Use 'discord config default-webhook <name>'".to_owned()
            },
            ConfigError::WebhookNotFound(name) => {
                let mut res = "Webhook '".to_owned();
                res.append(name.as_str());
                res.append("' not found");
                res
            },
            ConfigError::NoBotToken => {
                "No bot token configured. Use 'discord config bot-token <token>'".to_owned()
            },
        }
    }
}

pub open spec fn string_result_view(r: Result<String, ConfigError>) -> Result<Seq<char>, ConfigFault> {
    match r {
        Ok(s) => Ok(s@),
        Err(e) => Err(e@),
    }
}

pub open spec fn unit_result_view(r: Result<(), ConfigError>) -> Result<(), ConfigFault> {
    match r {
        Ok(()) => Ok(()),
        Err(e) => Err(e@),
    }
}

/// The url that a send command uses: the named webhook's, or the default webhook's when no
/// name is given.
pub open spec fn webhook_url_for(c: ConfigView, name: Option<Seq<char>>) -> Result<Seq<char>, ConfigFault> {
    let wanted = match name {
        Some(n) => Some(n),
        None => c.default_webhook,
    };
    match wanted {
        None => Err(ConfigFault::NoDefaultWebhook),
        Some(n) => if c.webhooks.contains_key(n) {
            Ok(c.webhooks[n])
        } else {
            Err(ConfigFault::WebhookNotFound(n))
        },
    }
}

/// The configuration after adding a webhook: the first webhook added becomes the default.
pub open spec fn with_webhook_added(c: ConfigView, name: Seq<char>, url: Seq<char>) -> ConfigView {
    ConfigView {
        webhooks: c.webhooks.insert(name, url),
        default_webhook: match c.default_webhook {
            None => Some(name),
            Some(d) => Some(d),
        },
        bot_token: c.bot_token,
    }
}

/// The configuration after removing a webhook, which clears the default if it named it;
/// refused when no webhook has that name.
pub open spec fn with_webhook_removed(c: ConfigView, name: Seq<char>) -> Result<ConfigView, ConfigFault> {
    if !c.webhooks.contains_key(name) {
        Err(ConfigFault::WebhookNotFound(name))
    } else {
        Ok(
            ConfigView {
                webhooks: c.webhooks.remove(name),
                default_webhook: if c.default_webhook == Some(name) {
                    None
                } else {
                    c.default_webhook
                },
                bot_token: c.bot_token,
            },
        )
    }
}

/// The configuration after choosing the default webhook; refused when no webhook has that name.
pub open spec fn with_default_set(c: ConfigView, name: Seq<char>) -> Result<ConfigView, ConfigFault> {
    if !c.webhooks.contains_key(name) {
        Err(ConfigFault::WebhookNotFound(name))
    } else {
        Ok(ConfigView { default_webhook: Some(name), ..c })
    }
}

/// The configuration after storing a bot token.
pub open spec fn with_bot_token(c: ConfigView, token: Seq<char>) -> ConfigView {
    ConfigView { bot_token: Some(token), ..c }
}

/// The token that bot commands use; refused when none is configured.
pub open spec fn bot_token_for(c: ConfigView) -> Result<Seq<char>, ConfigFault> {
    match c.bot_token {
        Some(t) => Ok(t),
        None => Err(ConfigFault::NoBotToken),
    }
}

/// The default webhook, when set, names a stored webhook.
pub open spec fn default_is_registered(c: ConfigView) -> bool {
    match c.default_webhook {
        Some(d) => c.webhooks.contains_key(d),
        None => true,
    }
}

/// Looks up the url to send to: the webhook called `name`, or the default webhook when no
/// name is given.
pub fn get_webhook_url_from_config(config: &Config, name: Option<&str>) -> (res: Result<String, ConfigError>)
    ensures
        string_result_view(res) == webhook_url_for(config@, match name {
            Some(n) => Some(n@),
            None => None,
        }),
{
    let webhook_name: String = match name {
        Some(n) => n.to_owned(),
        None => match &config.default_webhook {
            Some(d) => d.clone(),
            None => {
                return Err(ConfigError::NoDefaultWebhook);
            },
        },
    };
    match config.webhooks.get(webhook_name.as_str()) {
        Some(url) => Ok(url.clone()),
        None => Err(ConfigError::WebhookNotFound(webhook_name)),
    }
}

/// Stores `url` under `name`; the first webhook stored becomes the default.
pub fn add_webhook_to_config(config: &mut Config, name: &str, url: String)
    ensures
        final(config)@ == with_webhook_added(old(config)@, name@, url@),
{
    config.webhooks.insert(name.to_owned(), url);
    if config.default_webhook.is_none() {
        config.default_webhook = Some(name.to_owned());
    }
}

/// Removes the webhook called `name`, clearing the default if it named it.
pub fn remove_webhook_from_config(config: &mut Config, name: &str) -> (res: Result<(), ConfigError>)
    ensures
        match with_webhook_removed(old(config)@, name@) {
            Ok(c) => res is Ok && final(config)@ == c,
            Err(f) => unit_result_view(res) == Err::<(), ConfigFault>(f) && final(config)@ == old(
                config,
            )@,
        },
{
    if config.webhooks.remove(name).is_none() {
        assert(config.webhooks@ =~= old(config).webhooks@);
        return Err(ConfigError::WebhookNotFound(name.to_owned()));
    }
    let clear = match &config.default_webhook {
        Some(d) => d.as_str().to_owned() == name.to_owned(),
        None => false,
    };
    if clear {
        config.default_webhook = None;
    }
    Ok(())
}

/// Makes the webhook called `name` the default.
pub fn set_default_webhook_in_config(config: &mut Config, name: &str) -> (res: Result<(), ConfigError>)
    ensures
        match with_default_set(old(config)@, name@) {
            Ok(c) => res is Ok && final(config)@ == c,
            Err(f) => unit_result_view(res) == Err::<(), ConfigFault>(f) && final(config)@ == old(
                config,
            )@,
        },
{
    if !config.webhooks.contains_key(name) {
        return Err(ConfigError::WebhookNotFound(name.to_owned()));
    }
    config.default_webhook = Some(name.to_owned());
    Ok(())
}

/// Stores the bot token, replacing any earlier one.
pub fn set_bot_token_in_config(config: &mut Config, token: String)
    ensures
        final(config)@ == with_bot_token(old(config)@, token@),
{
    config.bot_token = Some(token);
}

/// A webhook that was just added is what a send to its name uses.
pub proof fn law_added_webhook_is_found(c: ConfigView, name: Seq<char>, url: Seq<char>)
    ensures
        webhook_url_for(with_webhook_added(c, name, url), Some(name)) == Ok::<Seq<char>, ConfigFault>(url),
{
}

/// The first webhook added becomes the default; adding never replaces a default that is set.
pub proof fn law_first_webhook_becomes_default(c: ConfigView, name: Seq<char>, url: Seq<char>)
    ensures
        c.default_webhook is None ==> webhook_url_for(with_webhook_added(c, name, url), None)
            == Ok::<Seq<char>, ConfigFault>(url),
        c.default_webhook is Some ==> with_webhook_added(c, name, url).default_webhook
            == c.default_webhook,
{
}

/// Adding or removing one webhook leaves what the other names resolve to unchanged.
pub proof fn law_other_webhooks_untouched(c: ConfigView, name: Seq<char>, url: Seq<char>, other: Seq<char>)
    requires
        other != name,
    ensures
        webhook_url_for(with_webhook_added(c, name, url), Some(other)) == webhook_url_for(c, Some(other)),
        with_webhook_removed(c, name) matches Ok(c2) ==> webhook_url_for(c2, Some(other))
            == webhook_url_for(c, Some(other)),
{
}

/// A removed webhook can no longer be sent to, and is no longer the default.
pub proof fn law_removed_webhook_is_gone(c: ConfigView, name: Seq<char>)
    ensures
        with_webhook_removed(c, name) matches Ok(c2) ==> webhook_url_for(c2, Some(name))
            == Err::<Seq<char>, ConfigFault>(ConfigFault::WebhookNotFound(name))
            && c2.default_webhook != Some(name),
        with_webhook_removed(c, name) is Err <==> !c.webhooks.contains_key(name),
{
}

/// After the default is chosen, a send without a name goes where a send to that name goes.
pub proof fn law_default_is_used(c: ConfigView, name: Seq<char>)
    ensures
        with_default_set(c, name) is Ok <==> c.webhooks.contains_key(name),
        with_default_set(c, name) matches Ok(c2) ==> webhook_url_for(c2, None) == webhook_url_for(
            c,
            Some(name),
        ) && webhook_url_for(c2, None) == Ok::<Seq<char>, ConfigFault>(c.webhooks[name]),
{
}

/// A stored token is what bot commands use.
pub proof fn law_token_is_used(c: ConfigView, token: Seq<char>)
    ensures
        bot_token_for(with_bot_token(c, token)) == Ok::<Seq<char>, ConfigFault>(token),
{
}

/// Every change keeps the default webhook naming a stored webhook, once it does.
pub proof fn law_default_stays_registered(c: ConfigView, name: Seq<char>, url: Seq<char>)
    requires
        default_is_registered(c),
    ensures
        default_is_registered(with_webhook_added(c, name, url)),
        with_webhook_removed(c, name) matches Ok(c2) ==> default_is_registered(c2),
        with_default_set(c, name) matches Ok(c2) ==> default_is_registered(c2),
        default_is_registered(with_bot_token(c, url)),
{
}

/// A send resolves only to a url that is stored under some name.
pub proof fn law_resolved_url_is_stored(c: ConfigView, name: Option<Seq<char>>)
    ensures
        webhook_url_for(c, name) matches Ok(url) ==> exists|n: Seq<char>|
            c.webhooks.contains_key(n) && #[trigger] c.webhooks[n] == url,
{
    if let Ok(url) = webhook_url_for(c, name) {
        let n = match name {
            Some(n) => n,
            None => c.default_webhook->0,
        };
        assert(c.webhooks[n] == url);
    }
}

} // verus!

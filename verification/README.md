# discord_cli

A command line client for Discord webhooks and the Discord bot API, whose logic is
verified with Verus.

- `src/` — the verified library:
  - `webhooks.rs`: the named webhook urls, kept as a list in which no name occurs twice,
    viewed as a map from names to urls;
  - `config.rs`: the configuration (webhooks, default webhook, bot token), its changes and
    lookups, and the laws that relate them;
  - `commands.rs`: the `config` subcommands, the configuration listing, choosing the
    webhook url or bot client that a command uses, and saving a newly created webhook;
  - `api.rs`: the HTTP requests sent to webhooks and to the bot API, how answers are judged,
    and the error texts;
  - `json.rs`: JSON string literals and request bodies, and reading the bot API's answers
    through serde_json;
  - `color.rs`: reading an embed color (`#rrggbb`, `0xrrggbb` or bare hex);
  - `text.rs`: masking long webhook urls, decimal numbers.
- `app/` — the program around it: argument parsing (clap), the configuration file (dirs,
  serde_json) and HTTP (reqwest, tokio).
- `tests/` — tests of the library.

//! The bot's configuration and the rules that loading it checks.
use vstd::prelude::*;
use vstd::string::StringExecFns;

use crate::util::{discord_token_shape, validate_token, TokenError};

verus! {

/// A Discord bot token whose shape has been checked.
#[derive(Debug, Clone)]
pub struct DiscordToken(String);

impl DiscordToken {
    /// The token text.
    pub closed spec fn text(&self) -> Seq<char> {
        self.0@
    }

    /// Accepts `value` when it has the shape of a Discord token; otherwise the error reads
    /// `"token error: "` followed by the reason.
    pub fn try_from(value: String) -> (r: Result<DiscordToken, String>)
        ensures
            discord_token_shape(value@) ==> (r matches Ok(t) && t.text() == value@),
            !discord_token_shape(value@) ==> (r matches Err(e) && e@ == "token error: "@
                + TokenError::Invalid.text()),
    {
        let checked = validate_token(Some(value.as_str()));
        match checked {
            Ok(_) => Ok(DiscordToken(value)),
            Err(e) => {
                let mut msg = String::from_str("token error: ");
                let reason = e.message();
                msg.append(reason.as_str());
                Err(msg)
            },
        }
    }

    /// The token text.
    pub fn as_ref(&self) -> (r: &str)
        ensures
            r@ == self.text(),
    {
        self.0.as_str()
    }
}

/// The Discord side of the configuration.
#[derive(Debug, Clone)]
pub struct BotConfig {
    pub token: DiscordToken,
}

/// The web side of the configuration.
#[derive(Debug, Clone)]
pub struct WebConfig {
    pub password: String,
}

/// Where an external database is.
#[derive(Debug, Clone)]
pub struct DbConfig {
    pub uri: String,
}

/// The whole configuration.
#[derive(Debug, Clone)]
pub struct Config {
    pub bot: BotConfig,
    pub web: WebConfig,
    pub db: Option<DbConfig>,
}

/// The settings as they were found in the configuration file and the `SKEKBOT_*`
/// environment, before they are checked.
pub struct ConfigSource {
    /// `bot.token`
    pub bot_token: Option<String>,
    /// `web.password`
    pub web_password: Option<String>,
    /// The `db` table, when there is one, with its `uri` if set.
    pub db: Option<Option<String>>,
}

/// Why the configuration could not be loaded.
#[derive(Debug, Clone, PartialEq, Eq)]
pub enum ConfigError {
    /// `bot.token` is not set.
    MissingBotToken,
    /// `bot.token` is set but refused; holds the reason.
    InvalidToken(String),
    /// `web.password` is not set.
    MissingWebPassword,
    /// There is a `db` table without `uri`.
    MissingDbUri,
}

impl ConfigError {
    /// The text of the error: the missing setting, or the reason the token was refused.
    pub open spec fn text(&self) -> Seq<char> {
        match self {
            ConfigError::MissingBotToken => "missing field `token`"@,
            ConfigError::InvalidToken(reason) => reason@,
            ConfigError::MissingWebPassword => "missing field `password`"@,
            ConfigError::MissingDbUri => "missing field `uri`"@,
        }
    }

    /// The text of the error.
    pub fn message(&self) -> (r: String)
        ensures
            r@ == self.text(),
    {
        match self {
            ConfigError::MissingBotToken => String::from_str("missing field `token`"),
            ConfigError::InvalidToken(reason) => reason.clone(),
            ConfigError::MissingWebPassword => String::from_str("missing field `password`"),
            ConfigError::MissingDbUri => String::from_str("missing field `uri`"),
        }
    }
}

impl Config {
    /// Checks the settings: the token and the password are required, and so is the database
    /// `uri` when there is a `db` table. The first fault in that order is reported.
    pub fn load(source: ConfigSource) -> (r: Result<Config, ConfigError>)
        ensures
            match source.bot_token {
                None => r == Err::<Config, ConfigError>(ConfigError::MissingBotToken),
                Some(t) => if !discord_token_shape(t@) {
                    r matches Err(ConfigError::InvalidToken(e)) && e@ == "token error: "@
                        + TokenError::Invalid.text()
                } else if source.web_password is None {
                    r == Err::<Config, ConfigError>(ConfigError::MissingWebPassword)
                } else if source.db == Some(None::<String>) {
                    r == Err::<Config, ConfigError>(ConfigError::MissingDbUri)
                } else {
                    r matches Ok(c) && c.bot.token.text() == t@ && Some(c.web.password)
                        == source.web_password && (match source.db {
                        None => c.db is None,
                        Some(u) => c.db matches Some(d) && Some(d.uri) == u,
                    })
                },
            },
    {
        let token_text = match source.bot_token {
            None => return Err(ConfigError::MissingBotToken),
            Some(t) => t,
        };
        let token = match DiscordToken::try_from(token_text) {
            Ok(t) => t,
            Err(e) => return Err(ConfigError::InvalidToken(e)),
        };
        let password = match source.web_password {
            None => return Err(ConfigError::MissingWebPassword),
            Some(p) => p,
        };
        let db = match source.db {
            None => None,
            Some(None) => return Err(ConfigError::MissingDbUri),
            Some(Some(uri)) => Some(DbConfig { uri }),
        };
        Ok(Config { bot: BotConfig { token }, web: WebConfig { password }, db })
    }
}

} // verus!

use skekbot_rs::config::{BotConfig, Config, ConfigError, ConfigSource, DbConfig, DiscordToken, WebConfig};
use skekbot_rs::db::{
    after_insert, db_target, external_db_uri, guild_db_id, server_after_upsert, sqlite_url,
    DbTarget, InsertOutcome,
};

fn source(token: Option<&str>, password: Option<&str>, db: Option<Option<&str>>) -> ConfigSource {
    ConfigSource {
        bot_token: token.map(String::from),
        web_password: password.map(String::from),
        db: db.map(|d| d.map(String::from)),
    }
}

fn sample_config(db: Option<&str>) -> Config {
    Config {
        bot: BotConfig { token: DiscordToken::try_from("a.b.c".to_string()).unwrap() },
        web: WebConfig { password: "pw".to_string() },
        db: db.map(|u| DbConfig { uri: u.to_string() }),
    }
}

#[test]
fn discord_token_checks_its_shape() {
    let t = DiscordToken::try_from("Bot x.y.z".to_string()).unwrap();
    assert_eq!(t.as_ref(), "Bot x.y.z");
    assert_eq!(
        DiscordToken::try_from("nope".to_string()).unwrap_err(),
        "token error: an invalid token was provided"
    );
}

#[test]
fn config_loads_when_complete() {
    let c = Config::load(source(Some("a.b.c"), Some("secret"), None)).unwrap();
    assert_eq!(c.bot.token.as_ref(), "a.b.c");
    assert_eq!(c.web.password, "secret");
    assert!(c.db.is_none());
    let c = Config::load(source(Some("a.b.c"), Some("secret"), Some(Some("postgres://x")))).unwrap();
    assert_eq!(c.db.unwrap().uri, "postgres://x");
}

#[test]
fn config_errors_come_in_order() {
    assert_eq!(Config::load(source(None, None, Some(None))).unwrap_err(), ConfigError::MissingBotToken);
    assert_eq!(
        Config::load(source(Some("bad"), None, None)).unwrap_err(),
        ConfigError::InvalidToken("token error: an invalid token was provided".to_string())
    );
    assert_eq!(
        Config::load(source(Some("a.b.c"), None, Some(None))).unwrap_err(),
        ConfigError::MissingWebPassword
    );
    assert_eq!(
        Config::load(source(Some("a.b.c"), Some("pw"), Some(None))).unwrap_err(),
        ConfigError::MissingDbUri
    );
    assert_eq!(ConfigError::MissingBotToken.message(), "missing field `token`");
    assert_eq!(ConfigError::MissingWebPassword.message(), "missing field `password`");
    assert_eq!(ConfigError::MissingDbUri.message(), "missing field `uri`");
    assert_eq!(ConfigError::InvalidToken("bad".to_string()).message(), "bad");
}

#[test]
fn database_choice_follows_the_config() {
    match db_target(&sample_config(Some("mysql://db"))) {
        DbTarget::External(u) => assert_eq!(u, "mysql://db"),
        DbTarget::Sqlite => panic!("expected the configured database"),
    }
    assert!(matches!(db_target(&sample_config(None)), DbTarget::Sqlite));
    assert_eq!(external_db_uri(&sample_config(Some("mysql://db"))), Ok("mysql://db".to_string()));
    assert_eq!(
        external_db_uri(&sample_config(None)),
        Err("no db connection config was provided".to_string())
    );
}

#[test]
fn sqlite_url_opens_read_write_create() {
    assert_eq!(sqlite_url("data/skekbot.sqlite3"), "sqlite:data/skekbot.sqlite3?mode=rwc");
}

#[test]
fn guild_ids_map_to_row_keys() {
    assert_eq!(guild_db_id(0), Ok(0));
    assert_eq!(guild_db_id(123456789012345678), Ok(123456789012345678));
    assert_eq!(guild_db_id(9223372036854775807), Ok(i64::MAX));
    assert_eq!(
        guild_db_id(9223372036854775808),
        Err("9223372036854775808 could not be converted to i64".to_string())
    );
}

#[test]
fn upsert_steps() {
    assert_eq!(after_insert(InsertOutcome::Inserted), Ok(()));
    assert_eq!(after_insert(InsertOutcome::AlreadyThere), Ok(()));
    assert_eq!(after_insert(InsertOutcome::Failed("disk full".to_string())), Err("disk full".to_string()));
    assert_eq!(server_after_upsert(Some(5)), Ok(5));
    assert_eq!(
        server_after_upsert::<i32>(None),
        Err("critical: server was not found immediately after upsert".to_string())
    );
}

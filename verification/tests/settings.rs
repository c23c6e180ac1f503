use mail_admin::settings::{
    parse_flag, parse_unsigned, AppSettings, PgSettings, PgVars, RedisSettings, RmqSettings, RmqVars, SettingVar,
    SettingsError,
};

fn some(s: &str) -> Option<String> {
    Some(s.to_string())
}

fn pg(max: &str, warm: &str, warm_size: &str) -> PgVars {
    PgVars {
        url: some("postgres://db"),
        conn_timeout: some("5"),
        max_pool_size: some(max),
        wait_timeout: some("+10"),
        new_connection_timeout: some("15"),
        recycle_timeout: some("20"),
        warm_pool: some(warm),
        warm_pool_size: some(warm_size),
    }
}

#[test]
fn numbers_parse_like_std() {
    assert_eq!(parse_unsigned("42", u64::MAX), Some(42));
    assert_eq!(parse_unsigned("+42", u64::MAX), Some(42));
    assert_eq!(parse_unsigned("007", u64::MAX), Some(7));
    assert_eq!(parse_unsigned("18446744073709551615", u64::MAX), Some(u64::MAX));
    for text in ["", "+", "-1", " 1", "1 ", "1e3", "18446744073709551616", "99999999999999999999999"] {
        assert_eq!(parse_unsigned(text, u64::MAX), None, "{text:?}");
        assert_eq!(parse_unsigned(text, u64::MAX), text.parse::<u64>().ok(), "{text:?}");
    }
    assert_eq!(parse_unsigned("256", 255), None);
    assert_eq!(parse_unsigned("255", 255), Some(255));
}

#[test]
fn flags_ignore_case() {
    assert_eq!(parse_flag("true"), Some(true));
    assert_eq!(parse_flag("TRUE"), Some(true));
    assert_eq!(parse_flag("False"), Some(false));
    assert_eq!(parse_flag("yes"), None);
    assert_eq!(parse_flag(" true"), None);
}

#[test]
fn pg_settings_from_valid_vars() {
    let s = PgSettings::from_vars(pg("32", "TRUE", "16")).ok().unwrap();
    assert_eq!(s.url, "postgres://db");
    assert_eq!(s.conn_timeout, 5);
    assert_eq!(s.max_pool_size, 32);
    assert_eq!(s.wait_timeout, 10);
    assert_eq!(s.new_connection_timeout, 15);
    assert_eq!(s.recycle_timeout, 20);
    assert!(s.warm_pool);
    assert_eq!(s.warm_pool_size, 16);
}

#[test]
fn pg_settings_report_first_bad_variable() {
    let mut v = pg("32", "true", "16");
    v.conn_timeout = some("soon");
    v.warm_pool = None;
    assert!(PgSettings::from_vars(v).err() == Some(SettingsError::Invalid(SettingVar::PgConnTimeout)));
    let mut v = pg("32", "maybe", "16");
    v.url = None;
    assert!(PgSettings::from_vars(v).err() == Some(SettingsError::Invalid(SettingVar::PostgresDbUrl)));
    assert!(PgSettings::from_vars(pg("32", "maybe", "16")).err() == Some(SettingsError::Invalid(SettingVar::PgPoolWarmPool)));
    assert!(PgSettings::from_vars(pg("-1", "true", "16")).err() == Some(SettingsError::Invalid(SettingVar::PgPoolMaxSize)));
}

#[test]
fn pg_settings_pool_limits() {
    assert!(PgSettings::from_vars(pg("8", "false", "9")).err() == Some(SettingsError::WarmPoolAboveMax(8)));
    assert!(PgSettings::from_vars(pg("500", "true", "129")).err() == Some(SettingsError::WarmPoolAbove128));
    assert!(PgSettings::from_vars(pg("500", "false", "129")).is_ok());
    assert!(PgSettings::from_vars(pg("500", "true", "128")).is_ok());
}

#[test]
fn app_settings_check_logging_first() {
    let r = AppSettings::from_vars(some("loud"), pg("32", "x", "16"), None);
    assert!(r.err() == Some(SettingsError::Invalid(SettingVar::EnableLogging)));
    let r = AppSettings::from_vars(some("true"), pg("32", "x", "16"), None);
    assert!(r.err() == Some(SettingsError::Invalid(SettingVar::PgPoolWarmPool)));
    let r = AppSettings::from_vars(some("true"), pg("32", "false", "16"), None);
    assert!(r.err() == Some(SettingsError::Invalid(SettingVar::RedisUrl)));
    let s = AppSettings::from_vars(some("FALSE"), pg("32", "false", "16"), some("redis://cache")).ok().unwrap();
    assert!(!s.enable_logging);
    assert_eq!(s.redis_settings.url, "redis://cache");
    assert_eq!(s.pg_settings.max_pool_size, 32);
}

#[test]
fn redis_settings_need_url() {
    assert!(RedisSettings::from_vars(None).err() == Some(SettingsError::Invalid(SettingVar::RedisUrl)));
    assert_eq!(RedisSettings::from_vars(some("redis://x")).ok().unwrap().url, "redis://x");
}

fn rmq() -> RmqVars {
    RmqVars {
        domain: some("mq.example"),
        user_name: some("user"),
        password: some("pass"),
        virtual_host: some("/"),
        exchange_name: some("ex"),
        routing_key: some("rk"),
        mailbox_mgr_queue: some("mailboxes"),
    }
}

#[test]
fn rmq_token_is_base64_of_credentials() {
    let s = RmqSettings::from_vars(rmq()).ok().unwrap();
    assert_eq!(s.auth_token, "dXNlcjpwYXNz");
    assert_eq!(s.domain, "mq.example");
    assert_eq!(s.virtual_host, "/");
    assert_eq!(s.exchange_name, "ex");
    assert_eq!(s.routing_key, "rk");
    assert_eq!(s.mailbox_mgr_queue, "mailboxes");
}

#[test]
fn rmq_reports_first_missing_variable() {
    let mut v = rmq();
    v.password = None;
    v.routing_key = None;
    assert!(RmqSettings::from_vars(v).err() == Some(SettingsError::Invalid(SettingVar::RabbitmqPassword)));
}

#[test]
fn pg_check_agrees_with_from_vars() {
    for (max, warm, size) in [("32", "TRUE", "16"), ("8", "false", "9"), ("500", "true", "129"), ("32", "x", "16"), ("64", "false", "64")] {
        let check = PgSettings::check_vars(&pg(max, warm, size));
        let built = PgSettings::from_vars(pg(max, warm, size));
        assert_eq!(check.is_ok(), built.is_ok());
        if let Err(e) = check {
            assert!(built.err() == Some(e));
        }
    }
}

#[test]
fn pg_settings_from_accepted_vars() {
    let v = pg("64", "true", "64");
    assert!(PgSettings::check_vars(&v).is_ok());
    let s = PgSettings::from_accepted_vars(v);
    assert_eq!(s.max_pool_size, 64);
    assert_eq!(s.warm_pool_size, 64);
    assert!(s.warm_pool);
    assert_eq!(s.url, "postgres://db");
}

#[test]
fn app_settings_check_and_build() {
    let v = pg("32", "false", "16");
    assert!(AppSettings::check_vars(&some("true"), &v, &None).err() == Some(SettingsError::Invalid(SettingVar::RedisUrl)));
    assert!(AppSettings::check_vars(&None, &v, &some("redis://c")).err() == Some(SettingsError::Invalid(SettingVar::EnableLogging)));
    assert!(AppSettings::check_vars(&some("True"), &pg("8", "false", "9"), &some("redis://c")).err() == Some(SettingsError::WarmPoolAboveMax(8)));
    assert!(AppSettings::check_vars(&some("true"), &v, &some("redis://c")).is_ok());
    let s = AppSettings::from_accepted_vars(some("true"), v, some("redis://c"));
    assert!(s.enable_logging);
    assert_eq!(s.redis_settings.url, "redis://c");
    assert_eq!(RedisSettings::from_accepted_var(some("redis://d")).url, "redis://d");
}

#[test]
fn rmq_check_and_build() {
    let mut v = rmq();
    v.domain = None;
    assert!(RmqSettings::check_vars(&v).err() == Some(SettingsError::Invalid(SettingVar::RabbitmqDomain)));
    assert!(RmqSettings::check_vars(&rmq()).is_ok());
    let s = RmqSettings::from_accepted_vars(rmq());
    assert_eq!(s.auth_token, "dXNlcjpwYXNz");
}

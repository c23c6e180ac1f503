//! Service configuration, built from the raw values of its environment
//! variables: numbers are parsed, flags read case-insensitively, and the
//! connection-pool limits checked.

use vstd::prelude::*;
use vstd::utf8::encode_utf8;
use crate::text::{chars_of, to_lowercase, unicode_lowercase, is_decimal_digit};
use crate::codec::{base64_encode, base64_standard_encode, base64_standard_decode};

verus! {

/// The environment variables the service is configured by.
#[derive(Clone, Copy, PartialEq, Eq, Structural)]
pub enum SettingVar {
    PostgresDbUrl,
    PgConnTimeout,
    PgPoolMaxSize,
    PgPoolWaitTimeout,
    PgPoolNewConnectionTimeout,
    PgPoolRecycleTimeout,
    PgPoolWarmPool,
    PgPoolWarmPoolSize,
    RedisUrl,
    EnableLogging,
    RabbitmqDomain,
    RabbitmqUserName,
    RabbitmqPassword,
    RabbitmqVirtualHost,
    RabbitmqExchangeName,
    RabbitmqRoutingKey,
    RabbitmqMailboxManagerQueue,
}

/// Why a configuration cannot be built.
#[derive(Clone, Copy, PartialEq, Eq, Structural)]
pub enum SettingsError {
    /// The variable is unset or its value is not of the expected kind.
    Invalid(SettingVar),
    /// The warm pool is larger than the pool, whose size is given.
    WarmPoolAboveMax(usize),
    /// The warm pool is enabled and larger than 128.
    WarmPoolAbove128,
}

/// The largest warm pool the service accepts when warming is enabled.
pub const MAX_WARM_POOL_SIZE: usize = 128;

/// PostgreSQL connection and pool settings.
pub struct PgSettings {
    pub url: String,
    pub conn_timeout: u64,
    pub max_pool_size: usize,
    pub wait_timeout: u64,
    pub new_connection_timeout: u64,
    pub recycle_timeout: u64,
    pub warm_pool: bool,
    pub warm_pool_size: usize,
}

/// Redis settings.
pub struct RedisSettings {
    pub url: String,
}

/// RabbitMQ settings; `auth_token` is the Base64 of `username:password`.
#[derive(Clone)]
pub struct RmqSettings {
    pub domain: String,
    pub auth_token: String,
    pub virtual_host: String,
    pub exchange_name: String,
    pub routing_key: String,
    pub mailbox_mgr_queue: String,
}

/// The settings of the whole service.
pub struct AppSettings {
    pub pg_settings: PgSettings,
    pub redis_settings: RedisSettings,
    pub enable_logging: bool,
}

/// The raw values of the PostgreSQL variables; `None` when a variable is unset.
pub struct PgVars {
    pub url: Option<String>,
    pub conn_timeout: Option<String>,
    pub max_pool_size: Option<String>,
    pub wait_timeout: Option<String>,
    pub new_connection_timeout: Option<String>,
    pub recycle_timeout: Option<String>,
    pub warm_pool: Option<String>,
    pub warm_pool_size: Option<String>,
}

/// The raw values of the RabbitMQ variables; `None` when a variable is unset.
pub struct RmqVars {
    pub domain: Option<String>,
    pub user_name: Option<String>,
    pub password: Option<String>,
    pub virtual_host: Option<String>,
    pub exchange_name: Option<String>,
    pub routing_key: Option<String>,
    pub mailbox_mgr_queue: Option<String>,
}

/// The value of a non-empty string of decimal digits.
pub open spec fn digits_value(s: Seq<char>) -> int
    decreases s.len(),
{
    if s.len() == 0 {
        0
    } else {
        digits_value(s.drop_last()) * 10 + ((s.last() as u32) - ('0' as u32))
    }
}

/// What `str::parse` gives for an unsigned integer type whose largest value
/// is `max`: an optional `+` followed by at least one decimal digit, with a
/// value of at most `max`.
pub open spec fn parsed_unsigned(s: Seq<char>, max: int) -> Option<int> {
    let digits = unsigned_digits(s);
    if digits.len() > 0 && all_decimal_digits(digits) && digits_value(digits) <= max {
        Some(digits_value(digits))
    } else {
        None
    }
}

/// The digits of a number: the text without a leading `+`.
pub open spec fn unsigned_digits(s: Seq<char>) -> Seq<char> {
    if s.len() > 0 && s[0] == '+' { s.drop_first() } else { s }
}

/// Every character is a decimal digit.
pub open spec fn all_decimal_digits(s: Seq<char>) -> bool {
    forall|i: int| 0 <= i < s.len() ==> is_decimal_digit(#[trigger] s[i])
}

/// A flag is `true` or `false` in any case.
pub open spec fn flag_value(lowered: Seq<char>) -> Option<bool> {
    if lowered == "true"@ {
        Some(true)
    } else if lowered == "false"@ {
        Some(false)
    } else {
        None
    }
}

pub open spec fn text_of(o: Option<String>) -> Option<Seq<char>> {
    match o {
        Some(s) => Some(s@),
        None => None,
    }
}

/// The number a variable holds, if it is set and holds one of at most `max`.
pub open spec fn number_setting(o: Option<String>, max: int) -> Option<int> {
    match o {
        Some(s) => parsed_unsigned(s@, max),
        None => None,
    }
}

/// The flag a variable holds, if it is set and holds one.
pub open spec fn flag_setting(o: Option<String>) -> Option<bool> {
    match o {
        Some(s) => flag_value(unicode_lowercase(s@)),
        None => None,
    }
}

proof fn lemma_digits_value_monotone(s: Seq<char>, k: int)
    requires
        0 <= k <= s.len(),
        forall|i: int| 0 <= i < s.len() ==> is_decimal_digit(#[trigger] s[i]),
    ensures
        digits_value(s.subrange(0, k)) <= digits_value(s),
    decreases s.len(),
{
    if k < s.len() {
        let t = s.drop_last();
        assert forall|i: int| 0 <= i < t.len() implies is_decimal_digit(#[trigger] t[i]) by {
            assert(t[i] == s[i]);
        }
        lemma_digits_value_monotone(t, k);
        assert(t.subrange(0, k) =~= s.subrange(0, k));
        lemma_digits_value_nonneg(t);
        assert(is_decimal_digit(s[s.len() - 1]));
    } else {
        assert(s.subrange(0, k) =~= s);
    }
}

/// A parsed number lies between 0 and the largest value of its type.
pub proof fn lemma_parsed_in_range(s: Seq<char>, max: int)
    ensures
        parsed_unsigned(s, max) matches Some(v) ==> 0 <= v <= max,
{
    if parsed_unsigned(s, max) is Some {
        lemma_digits_value_nonneg(unsigned_digits(s));
    }
}

proof fn lemma_digits_value_nonneg(s: Seq<char>)
    requires
        forall|i: int| 0 <= i < s.len() ==> is_decimal_digit(#[trigger] s[i]),
    ensures
        digits_value(s) >= 0,
    decreases s.len(),
{
    if s.len() > 0 {
        assert(is_decimal_digit(s[s.len() - 1]));
        lemma_digits_value_nonneg(s.drop_last());
    }
}

/// Parses an unsigned decimal number of at most `max`, as `str::parse` does
/// for an unsigned integer type whose largest value is `max`.
pub fn parse_unsigned(text: &str, max: u64) -> (r: Option<u64>)
    ensures
        r matches Some(v) ==> parsed_unsigned(text@, max as int) == Some(v as int),
        r is None ==> parsed_unsigned(text@, max as int) is None,
{
    let chars = chars_of(text);
    let start: usize = if chars.len() > 0 && chars[0] == '+' { 1 } else { 0 };
    let ghost digits = unsigned_digits(text@);
    assert(digits =~= chars@.skip(start as int));
    if start >= chars.len() {
        return None;
    }
    let mut value: u64 = 0;
    let mut i: usize = start;
    while i < chars.len()
        invariant
            start <= i <= chars@.len(),
            chars@ == text@,
            digits == unsigned_digits(text@),
            digits =~= chars@.skip(start as int),
            forall|j: int| start <= j < i ==> is_decimal_digit(#[trigger] chars@[j]),
            value as int == digits_value(chars@.subrange(start as int, i as int)),
            value <= max,
        decreases chars.len() - i,
    {
        let c = chars[i];
        proof {
            assert(chars@.subrange(start as int, i + 1).drop_last() =~= chars@.subrange(start as int, i as int));
        }
        if !('0' <= c && c <= '9') {
            proof {
                assert(digits[i - start] == c);
                assert(!is_decimal_digit(digits[i - start]));
                assert(!all_decimal_digits(digits));
            }
            return None;
        }
        let d: u64 = (c as u32 - '0' as u32) as u64;
        proof {
            assert(chars@.subrange(start as int, i + 1).last() == c);
            assert(digits_value(chars@.subrange(start as int, i + 1)) == value * 10 + d);
        }
        if d > max || value > (max - d) / 10 {
            proof {
                assert(value * 10 + d > max) by (nonlinear_arith)
                    requires d > max || value > (max - d) / 10, d <= 9, value >= 0, max >= 0;
                if all_decimal_digits(digits) {
                    assert(chars@.subrange(start as int, i + 1) =~= digits.subrange(0, i + 1 - start));
                    lemma_digits_value_monotone(digits, i + 1 - start);
                    assert(digits_value(digits) > max);
                }
            }
            return None;
        }
        value = value * 10 + d;
        i += 1;
    }
    assert(chars@.subrange(start as int, chars@.len() as int) =~= digits);
    Some(value)
}

/// Reads a flag: `true` or `false` in any case.
pub fn parse_flag(text: &str) -> (r: Option<bool>)
    ensures
        r == flag_value(unicode_lowercase(text@)),
{
    let lowered = to_lowercase(text);
    if lowered == "true".to_owned() {
        Some(true)
    } else if lowered == "false".to_owned() {
        Some(false)
    } else {
        None
    }
}

fn number_var(value: &Option<String>, max: u64, var: SettingVar) -> (r: Result<u64, SettingsError>)
    ensures
        r matches Ok(n) ==> n <= max,
        number_setting(*value, max as int) matches Some(n) ==> r == Ok::<u64, SettingsError>(n as u64),
        number_setting(*value, max as int) is None ==> r == Err::<u64, SettingsError>(SettingsError::Invalid(var)),
{
    proof {
        if value is Some {
            lemma_parsed_in_range(value.unwrap()@, max as int);
        }
    }
    match value {
        Some(s) => match parse_unsigned(s.as_str(), max) {
            Some(n) => Ok(n),
            None => Err(SettingsError::Invalid(var)),
        },
        None => Err(SettingsError::Invalid(var)),
    }
}

fn flag_var(value: &Option<String>, var: SettingVar) -> (r: Result<bool, SettingsError>)
    ensures
        flag_setting(*value) matches Some(b) ==> r == Ok::<bool, SettingsError>(b),
        flag_setting(*value) is None ==> r == Err::<bool, SettingsError>(SettingsError::Invalid(var)),
{
    match value {
        Some(s) => match parse_flag(s.as_str()) {
            Some(b) => Ok(b),
            None => Err(SettingsError::Invalid(var)),
        },
        None => Err(SettingsError::Invalid(var)),
    }
}

/// The value of a variable that is known to be set.
fn set_text(value: Option<String>) -> (t: String)
    requires
        value is Some,
    ensures
        t@ == value.unwrap()@,
{
    match value {
        Some(t) => t,
        None => { proof { assert(false); } String::new() },
    }
}

/// The first PostgreSQL variable, in the order the service reads them, that
/// is unset or does not hold a value of its kind.
pub open spec fn pg_first_invalid(v: PgVars) -> Option<SettingVar> {
    if v.url is None {
        Some(SettingVar::PostgresDbUrl)
    } else if number_setting(v.conn_timeout, u64::MAX as int) is None {
        Some(SettingVar::PgConnTimeout)
    } else if number_setting(v.max_pool_size, usize::MAX as int) is None {
        Some(SettingVar::PgPoolMaxSize)
    } else if number_setting(v.wait_timeout, u64::MAX as int) is None {
        Some(SettingVar::PgPoolWaitTimeout)
    } else if number_setting(v.new_connection_timeout, u64::MAX as int) is None {
        Some(SettingVar::PgPoolNewConnectionTimeout)
    } else if number_setting(v.recycle_timeout, u64::MAX as int) is None {
        Some(SettingVar::PgPoolRecycleTimeout)
    } else if flag_setting(v.warm_pool) is None {
        Some(SettingVar::PgPoolWarmPool)
    } else if number_setting(v.warm_pool_size, usize::MAX as int) is None {
        Some(SettingVar::PgPoolWarmPoolSize)
    } else {
        None
    }
}

/// Settings built from `v`: every field holds the value of its variable.
pub open spec fn pg_settings_from(s: PgSettings, v: PgVars) -> bool {
    &&& text_of(v.url) == Some(s.url@)
    &&& number_setting(v.conn_timeout, u64::MAX as int) == Some(s.conn_timeout as int)
    &&& number_setting(v.max_pool_size, usize::MAX as int) == Some(s.max_pool_size as int)
    &&& number_setting(v.wait_timeout, u64::MAX as int) == Some(s.wait_timeout as int)
    &&& number_setting(v.new_connection_timeout, u64::MAX as int) == Some(s.new_connection_timeout as int)
    &&& number_setting(v.recycle_timeout, u64::MAX as int) == Some(s.recycle_timeout as int)
    &&& flag_setting(v.warm_pool) == Some(s.warm_pool)
    &&& number_setting(v.warm_pool_size, usize::MAX as int) == Some(s.warm_pool_size as int)
}

/// Pool settings the service accepts: the warm pool fits in the pool, and a
/// warmed pool holds at most 128 connections.
pub open spec fn pool_limits_hold(s: PgSettings) -> bool {
    &&& s.warm_pool_size <= s.max_pool_size
    &&& s.warm_pool ==> s.warm_pool_size <= 128
}

/// What `PgSettings::from_vars` gives for `v`: the first unset or malformed
/// variable, else a warm pool above the pool size, else a warmed pool above
/// 128, else settings holding the values of the variables.
pub open spec fn pg_outcome(r: Result<PgSettings, SettingsError>, v: PgVars) -> bool {
    match pg_first_invalid(v) {
        Some(var) => r == Err::<PgSettings, SettingsError>(SettingsError::Invalid(var)),
        None => {
            let max = number_setting(v.max_pool_size, usize::MAX as int).unwrap();
            let warm_size = number_setting(v.warm_pool_size, usize::MAX as int).unwrap();
            let warm = flag_setting(v.warm_pool).unwrap();
            if warm_size > max {
                r == Err::<PgSettings, SettingsError>(SettingsError::WarmPoolAboveMax(max as usize))
            } else if warm && warm_size > 128 {
                r == Err::<PgSettings, SettingsError>(SettingsError::WarmPoolAbove128)
            } else {
                r matches Ok(s) && pg_settings_from(s, v)
            }
        },
    }
}

/// The bounds of the parsed PostgreSQL numbers, as `number_var` gives them.
proof fn lemma_pg_numbers_in_range(v: PgVars)
    ensures
        number_setting(v.conn_timeout, u64::MAX as int) matches Some(n) ==> 0 <= n <= u64::MAX,
        number_setting(v.max_pool_size, usize::MAX as int) matches Some(n) ==> 0 <= n <= usize::MAX,
        number_setting(v.wait_timeout, u64::MAX as int) matches Some(n) ==> 0 <= n <= u64::MAX,
        number_setting(v.new_connection_timeout, u64::MAX as int) matches Some(n) ==> 0 <= n <= u64::MAX,
        number_setting(v.recycle_timeout, u64::MAX as int) matches Some(n) ==> 0 <= n <= u64::MAX,
        number_setting(v.warm_pool_size, usize::MAX as int) matches Some(n) ==> 0 <= n <= usize::MAX,
{
    if v.max_pool_size is Some {
        lemma_parsed_in_range(v.max_pool_size.unwrap()@, usize::MAX as int);
    }
    if v.warm_pool_size is Some {
        lemma_parsed_in_range(v.warm_pool_size.unwrap()@, usize::MAX as int);
    }
    if v.conn_timeout is Some {
        lemma_parsed_in_range(v.conn_timeout.unwrap()@, u64::MAX as int);
    }
    if v.wait_timeout is Some {
        lemma_parsed_in_range(v.wait_timeout.unwrap()@, u64::MAX as int);
    }
    if v.new_connection_timeout is Some {
        lemma_parsed_in_range(v.new_connection_timeout.unwrap()@, u64::MAX as int);
    }
    if v.recycle_timeout is Some {
        lemma_parsed_in_range(v.recycle_timeout.unwrap()@, u64::MAX as int);
    }
}

impl PgSettings {
    /// Checks the raw values of the PostgreSQL variables: `Ok` exactly when
    /// the service accepts them, else the first reason it does not (an unset
    /// or malformed variable, a warm pool above the pool size, a warmed pool
    /// above 128), which is what `from_vars` reports.
    pub fn check_vars(vars: &PgVars) -> (r: Result<(), SettingsError>)
        ensures
            r is Ok <==> pg_accepted(*vars),
            r matches Err(e) ==> pg_outcome(Err(e), *vars),
    {
        proof {
            lemma_pg_numbers_in_range(*vars);
        }
        if vars.url.is_none() {
            return Err(SettingsError::Invalid(SettingVar::PostgresDbUrl));
        }
        if let Err(e) = number_var(&vars.conn_timeout, u64::MAX, SettingVar::PgConnTimeout) {
            return Err(e);
        }
        let max_pool_size = match number_var(&vars.max_pool_size, usize::MAX as u64, SettingVar::PgPoolMaxSize) {
            Ok(n) => n as usize,
            Err(e) => return Err(e),
        };
        if let Err(e) = number_var(&vars.wait_timeout, u64::MAX, SettingVar::PgPoolWaitTimeout) {
            return Err(e);
        }
        if let Err(e) = number_var(&vars.new_connection_timeout, u64::MAX, SettingVar::PgPoolNewConnectionTimeout) {
            return Err(e);
        }
        if let Err(e) = number_var(&vars.recycle_timeout, u64::MAX, SettingVar::PgPoolRecycleTimeout) {
            return Err(e);
        }
        let warm_pool = match flag_var(&vars.warm_pool, SettingVar::PgPoolWarmPool) {
            Ok(b) => b,
            Err(e) => return Err(e),
        };
        let warm_pool_size = match number_var(&vars.warm_pool_size, usize::MAX as u64, SettingVar::PgPoolWarmPoolSize) {
            Ok(n) => n as usize,
            Err(e) => return Err(e),
        };
        if warm_pool_size > max_pool_size {
            return Err(SettingsError::WarmPoolAboveMax(max_pool_size));
        }
        if warm_pool && warm_pool_size > MAX_WARM_POOL_SIZE {
            return Err(SettingsError::WarmPoolAbove128);
        }
        Ok(())
    }

    /// Builds the PostgreSQL settings from values the service accepts; on
    /// any other values the service stops with the error `check_vars` gives.
    pub fn from_accepted_vars(vars: PgVars) -> (s: PgSettings)
        requires
            pg_accepted(vars),
        ensures
            pg_settings_from(s, vars),
            pool_limits_hold(s),
    {
        let ghost v = vars;
        proof {
            lemma_pg_numbers_in_range(v);
        }
        let conn_timeout = match number_var(&vars.conn_timeout, u64::MAX, SettingVar::PgConnTimeout) {
            Ok(n) => n,
            Err(_) => { proof { assert(false); } 0 },
        };
        let max_pool_size = match number_var(&vars.max_pool_size, usize::MAX as u64, SettingVar::PgPoolMaxSize) {
            Ok(n) => n as usize,
            Err(_) => { proof { assert(false); } 0 },
        };
        let wait_timeout = match number_var(&vars.wait_timeout, u64::MAX, SettingVar::PgPoolWaitTimeout) {
            Ok(n) => n,
            Err(_) => { proof { assert(false); } 0 },
        };
        let new_connection_timeout = match number_var(&vars.new_connection_timeout, u64::MAX,
            SettingVar::PgPoolNewConnectionTimeout) {
            Ok(n) => n,
            Err(_) => { proof { assert(false); } 0 },
        };
        let recycle_timeout = match number_var(&vars.recycle_timeout, u64::MAX, SettingVar::PgPoolRecycleTimeout) {
            Ok(n) => n,
            Err(_) => { proof { assert(false); } 0 },
        };
        let warm_pool = match flag_var(&vars.warm_pool, SettingVar::PgPoolWarmPool) {
            Ok(b) => b,
            Err(_) => { proof { assert(false); } false },
        };
        let warm_pool_size = match number_var(&vars.warm_pool_size, usize::MAX as u64, SettingVar::PgPoolWarmPoolSize) {
            Ok(n) => n as usize,
            Err(_) => { proof { assert(false); } 0 },
        };
        let url = set_text(vars.url);
        PgSettings {
            url,
            conn_timeout,
            max_pool_size,
            wait_timeout,
            new_connection_timeout,
            recycle_timeout,
            warm_pool,
            warm_pool_size,
        }
    }

    /// Builds the PostgreSQL settings from the raw values of their variables,
    /// or reports why the service does not accept them.
    pub fn from_vars(vars: PgVars) -> (r: Result<PgSettings, SettingsError>)
        ensures
            pg_outcome(r, vars),
            r matches Ok(s) ==> pool_limits_hold(s),
    {
        match PgSettings::check_vars(&vars) {
            Ok(()) => Ok(PgSettings::from_accepted_vars(vars)),
            Err(e) => Err(e),
        }
    }
}

impl RedisSettings {
    /// Builds the Redis settings from a set `REDIS_URL`; when it is unset
    /// the service stops instead.
    pub fn from_accepted_var(url: Option<String>) -> (s: RedisSettings)
        requires
            url is Some,
        ensures
            s.url@ == url.unwrap()@,
    {
        match url {
            Some(u) => RedisSettings { url: u },
            None => { proof { assert(false); } RedisSettings { url: String::new() } },
        }
    }

    /// Builds the Redis settings from the raw value of `REDIS_URL`.
    pub fn from_vars(url: Option<String>) -> (r: Result<RedisSettings, SettingsError>)
        ensures
            url matches Some(u) ==> (r matches Ok(s) && s.url@ == u@),
            url is None ==> r == Err::<RedisSettings, SettingsError>(SettingsError::Invalid(SettingVar::RedisUrl)),
    {
        if url.is_none() {
            return Err(SettingsError::Invalid(SettingVar::RedisUrl));
        }
        Ok(RedisSettings::from_accepted_var(url))
    }
}

/// The service settings are accepted: the logging flag reads as true or
/// false, the PostgreSQL variables are accepted and `REDIS_URL` is set.
pub open spec fn app_accepted(enable_logging: Option<String>, pg: PgVars, redis_url: Option<String>) -> bool {
    &&& flag_setting(enable_logging) is Some
    &&& pg_accepted(pg)
    &&& redis_url is Some
}

/// Settings built from the values of their variables.
pub open spec fn app_settings_from(s: AppSettings, enable_logging: Option<String>, pg: PgVars, redis_url: Option<String>) -> bool {
    &&& s.enable_logging == flag_setting(enable_logging).unwrap()
    &&& pg_settings_from(s.pg_settings, pg)
    &&& pool_limits_hold(s.pg_settings)
    &&& s.redis_settings.url@ == redis_url.unwrap()@
}

/// The error the service settings are refused with: the logging flag first,
/// then the PostgreSQL settings, then the Redis URL.
pub open spec fn app_error_is(e: SettingsError, enable_logging: Option<String>, pg: PgVars, redis_url: Option<String>) -> bool {
    if flag_setting(enable_logging) is None {
        e == SettingsError::Invalid(SettingVar::EnableLogging)
    } else if !pg_accepted(pg) {
        pg_outcome(Err(e), pg)
    } else {
        e == SettingsError::Invalid(SettingVar::RedisUrl)
    }
}

impl AppSettings {
    /// Checks the raw values of the service variables: `Ok` exactly when the
    /// service accepts them, else the first reason it does not.
    pub fn check_vars(enable_logging: &Option<String>, pg: &PgVars, redis_url: &Option<String>) -> (r: Result<(), SettingsError>)
        ensures
            r is Ok <==> app_accepted(*enable_logging, *pg, *redis_url),
            r matches Err(e) ==> app_error_is(e, *enable_logging, *pg, *redis_url),
    {
        if let Err(e) = flag_var(enable_logging, SettingVar::EnableLogging) {
            return Err(e);
        }
        if let Err(e) = PgSettings::check_vars(pg) {
            return Err(e);
        }
        if redis_url.is_none() {
            return Err(SettingsError::Invalid(SettingVar::RedisUrl));
        }
        Ok(())
    }

    /// Builds the service settings from values the service accepts; on any
    /// other values the service stops with the error `check_vars` gives.
    pub fn from_accepted_vars(enable_logging: Option<String>, pg: PgVars, redis_url: Option<String>) -> (s: AppSettings)
        requires
            app_accepted(enable_logging, pg, redis_url),
        ensures
            app_settings_from(s, enable_logging, pg, redis_url),
    {
        let enable_logging = match flag_var(&enable_logging, SettingVar::EnableLogging) {
            Ok(b) => b,
            Err(_) => { proof { assert(false); } false },
        };
        let pg_settings = PgSettings::from_accepted_vars(pg);
        let redis_settings = RedisSettings::from_accepted_var(redis_url);
        AppSettings { pg_settings, redis_settings, enable_logging }
    }

    /// Builds the service settings from the raw values of their variables:
    /// the logging flag first, then the PostgreSQL settings, then the Redis
    /// settings; or reports why the service does not accept them.
    pub fn from_vars(enable_logging: Option<String>, pg: PgVars, redis_url: Option<String>) -> (r: Result<AppSettings, SettingsError>)
        ensures
            r is Ok <==> app_accepted(enable_logging, pg, redis_url),
            r matches Ok(s) ==> app_settings_from(s, enable_logging, pg, redis_url),
            r matches Err(e) ==> app_error_is(e, enable_logging, pg, redis_url),
    {
        match AppSettings::check_vars(&enable_logging, &pg, &redis_url) {
            Ok(()) => Ok(AppSettings::from_accepted_vars(enable_logging, pg, redis_url)),
            Err(e) => Err(e),
        }
    }
}

/// The PostgreSQL variables are all set and well formed, and their pool limits hold.
pub open spec fn pg_accepted(v: PgVars) -> bool {
    let max = number_setting(v.max_pool_size, usize::MAX as int).unwrap();
    let warm_size = number_setting(v.warm_pool_size, usize::MAX as int).unwrap();
    let warm = flag_setting(v.warm_pool).unwrap();
    pg_first_invalid(v) is None && warm_size <= max && !(warm && warm_size > 128)
}

/// The bytes the RabbitMQ token encodes: `username:password` in UTF-8.
pub open spec fn rmq_credentials(user_name: Seq<char>, password: Seq<char>) -> Seq<u8> {
    encode_utf8(user_name) + seq![58u8] + encode_utf8(password)
}

/// The first RabbitMQ variable, in the order the service reads them, that is unset.
pub open spec fn rmq_first_missing(v: RmqVars) -> Option<SettingVar> {
    if v.domain is None {
        Some(SettingVar::RabbitmqDomain)
    } else if v.user_name is None {
        Some(SettingVar::RabbitmqUserName)
    } else if v.password is None {
        Some(SettingVar::RabbitmqPassword)
    } else if v.virtual_host is None {
        Some(SettingVar::RabbitmqVirtualHost)
    } else if v.exchange_name is None {
        Some(SettingVar::RabbitmqExchangeName)
    } else if v.routing_key is None {
        Some(SettingVar::RabbitmqRoutingKey)
    } else if v.mailbox_mgr_queue is None {
        Some(SettingVar::RabbitmqMailboxManagerQueue)
    } else {
        None
    }
}

fn append_bytes(out: &mut Vec<u8>, bytes: &[u8])
    ensures
        final(out)@ == old(out)@ + bytes@,
{
    let mut i: usize = 0;
    while i < bytes.len()
        invariant
            i <= bytes@.len(),
            out@ == old(out)@ + bytes@.subrange(0, i as int),
        decreases bytes.len() - i,
    {
        out.push(bytes[i]);
        i += 1;
    }
    assert(bytes@.subrange(0, bytes@.len() as int) =~= bytes@);
}

/// RabbitMQ settings built from the values of their variables; the token
/// is the Base64 of `username:password`, which decodes back to those bytes.
pub open spec fn rmq_settings_from(s: RmqSettings, v: RmqVars) -> bool {
    &&& s.domain@ == v.domain.unwrap()@
    &&& s.virtual_host@ == v.virtual_host.unwrap()@
    &&& s.exchange_name@ == v.exchange_name.unwrap()@
    &&& s.routing_key@ == v.routing_key.unwrap()@
    &&& s.mailbox_mgr_queue@ == v.mailbox_mgr_queue.unwrap()@
    &&& s.auth_token@ == base64_standard_encode(rmq_credentials(v.user_name.unwrap()@, v.password.unwrap()@))
    &&& base64_standard_decode(s.auth_token@) == Some(rmq_credentials(v.user_name.unwrap()@, v.password.unwrap()@))
}

impl RmqSettings {
    /// Checks that every RabbitMQ variable is set: `Ok` exactly then, else
    /// the first unset one, in the order the service reads them.
    pub fn check_vars(vars: &RmqVars) -> (r: Result<(), SettingsError>)
        ensures
            r is Ok <==> rmq_first_missing(*vars) is None,
            r matches Err(e) ==> rmq_first_missing(*vars) == Some(e->Invalid_0) && e is Invalid,
    {
        if vars.domain.is_none() {
            return Err(SettingsError::Invalid(SettingVar::RabbitmqDomain));
        }
        if vars.user_name.is_none() {
            return Err(SettingsError::Invalid(SettingVar::RabbitmqUserName));
        }
        if vars.password.is_none() {
            return Err(SettingsError::Invalid(SettingVar::RabbitmqPassword));
        }
        if vars.virtual_host.is_none() {
            return Err(SettingsError::Invalid(SettingVar::RabbitmqVirtualHost));
        }
        if vars.exchange_name.is_none() {
            return Err(SettingsError::Invalid(SettingVar::RabbitmqExchangeName));
        }
        if vars.routing_key.is_none() {
            return Err(SettingsError::Invalid(SettingVar::RabbitmqRoutingKey));
        }
        if vars.mailbox_mgr_queue.is_none() {
            return Err(SettingsError::Invalid(SettingVar::RabbitmqMailboxManagerQueue));
        }
        Ok(())
    }

    /// Builds the RabbitMQ settings when every variable is set; otherwise the
    /// service stops with the error `check_vars` gives.
    pub fn from_accepted_vars(vars: RmqVars) -> (s: RmqSettings)
        requires
            rmq_first_missing(vars) is None,
        ensures
            rmq_settings_from(s, vars),
    {
        let ghost v = vars;
        let domain = set_text(vars.domain);
        let user_name = set_text(vars.user_name);
        let password = set_text(vars.password);
        let virtual_host = set_text(vars.virtual_host);
        let exchange_name = set_text(vars.exchange_name);
        let routing_key = set_text(vars.routing_key);
        let mailbox_mgr_queue = set_text(vars.mailbox_mgr_queue);
        let mut credentials: Vec<u8> = Vec::new();
        append_bytes(&mut credentials, user_name.as_str().as_bytes());
        credentials.push(58u8);
        append_bytes(&mut credentials, password.as_str().as_bytes());
        assert(credentials@ =~= rmq_credentials(user_name@, password@));
        let auth_token = base64_encode(credentials.as_slice());
        RmqSettings { domain, auth_token, virtual_host, exchange_name, routing_key, mailbox_mgr_queue }
    }

    /// Builds the RabbitMQ settings from the raw values of their variables,
    /// or reports the first unset one.
    pub fn from_vars(vars: RmqVars) -> (r: Result<RmqSettings, SettingsError>)
        ensures
            rmq_first_missing(vars) matches Some(var) ==> r == Err::<RmqSettings, SettingsError>(SettingsError::Invalid(var)),
            rmq_first_missing(vars) is None ==> (r matches Ok(s) && rmq_settings_from(s, vars)),
    {
        match RmqSettings::check_vars(&vars) {
            Ok(()) => Ok(RmqSettings::from_accepted_vars(vars)),
            Err(e) => Err(e),
        }
    }
}

} // verus!

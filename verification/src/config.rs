//! User configuration: its defaults, its setters, and editing it key by key.
use vstd::prelude::*;
use crate::text::{chars_of, decimal, decimal_chars, string_of};
use crate::json::str_eq;

verus! {

/// Where uploads go and the token they carry.
#[derive(Debug, Clone)]
pub struct ServerConfig {
    pub url: String,
    pub api_token: String,
}

/// Upload behaviour and the upload watermark (milliseconds since the epoch).
#[derive(Debug, Clone)]
pub struct UploadConfig {
    pub auto_upload: bool,
    pub upload_today_only: bool,
    pub retry_attempts: u32,
    pub last_date_uploaded: i64,
}

/// How numbers and health are displayed.
#[derive(Debug, Clone)]
pub struct FormattingConfig {
    pub number_comma: bool,
    pub number_human: bool,
    pub locale: String,
    pub decimal_places: usize,
    pub health_display_style: String,
}

/// Slack delivery of waiting-conversation notifications.
#[derive(Debug, Clone)]
pub struct SlackConfig {
    pub enabled: bool,
    pub webhook_url: Option<String>,
    pub channel: Option<String>,
    pub username: Option<String>,
}

/// Waiting-conversation notifications.
#[derive(Debug, Clone)]
pub struct NotificationConfig {
    pub enabled: bool,
    pub waiting_seconds: u64,
    pub stale_minutes: u64,
    pub sample_messages: usize,
    pub slack: SlackConfig,
}

/// Warp terminal sync.
#[derive(Debug, Clone)]
pub struct WarpConfig {
    pub auth_token: Option<String>,
    pub auto_sync: bool,
    pub sync_interval_hours: u64,
}

/// The whole configuration file.
#[derive(Debug, Clone)]
pub struct Config {
    pub server: ServerConfig,
    pub upload: UploadConfig,
    pub formatting: FormattingConfig,
    pub notifications: NotificationConfig,
    pub warp: WarpConfig,
}

pub ghost struct ServerView {
    pub url: Seq<char>,
    pub api_token: Seq<char>,
}

pub ghost struct FormattingView {
    pub number_comma: bool,
    pub number_human: bool,
    pub locale: Seq<char>,
    pub decimal_places: usize,
    pub health_display_style: Seq<char>,
}

pub ghost struct SlackView {
    pub enabled: bool,
    pub webhook_url: Option<Seq<char>>,
    pub channel: Option<Seq<char>>,
    pub username: Option<Seq<char>>,
}

pub ghost struct NotificationView {
    pub enabled: bool,
    pub waiting_seconds: u64,
    pub stale_minutes: u64,
    pub sample_messages: usize,
    pub slack: SlackView,
}

pub ghost struct WarpView {
    pub auth_token: Option<Seq<char>>,
    pub auto_sync: bool,
    pub sync_interval_hours: u64,
}

/// The configuration as the contracts see it.
pub ghost struct ConfigView {
    pub server: ServerView,
    pub upload: UploadConfig,
    pub formatting: FormattingView,
    pub notifications: NotificationView,
    pub warp: WarpView,
}

pub open spec fn ostr(s: Option<String>) -> Option<Seq<char>> {
    match s {
        Some(t) => Some(t@),
        None => None,
    }
}

impl View for Config {
    type V = ConfigView;

    open spec fn view(&self) -> ConfigView {
        ConfigView {
            server: ServerView { url: self.server.url@, api_token: self.server.api_token@ },
            upload: self.upload,
            formatting: FormattingView {
                number_comma: self.formatting.number_comma,
                number_human: self.formatting.number_human,
                locale: self.formatting.locale@,
                decimal_places: self.formatting.decimal_places,
                health_display_style: self.formatting.health_display_style@,
            },
            notifications: NotificationView {
                enabled: self.notifications.enabled,
                waiting_seconds: self.notifications.waiting_seconds,
                stale_minutes: self.notifications.stale_minutes,
                sample_messages: self.notifications.sample_messages,
                slack: SlackView {
                    enabled: self.notifications.slack.enabled,
                    webhook_url: ostr(self.notifications.slack.webhook_url),
                    channel: ostr(self.notifications.slack.channel),
                    username: ostr(self.notifications.slack.username),
                },
            },
            warp: WarpView {
                auth_token: ostr(self.warp.auth_token),
                auto_sync: self.warp.auto_sync,
                sync_interval_hours: self.warp.sync_interval_hours,
            },
        }
    }
}

fn string_from(s: &str) -> (r: String)
    ensures
        r@ == s@,
{
    s.to_owned()
}

/// Warp sync is on unless the file says otherwise.
pub fn default_warp_auto_sync() -> (b: bool)
    ensures
        b,
{
    true
}

/// Warp syncs every six hours unless the file says otherwise.
pub fn default_warp_sync_interval_hours() -> (h: u64)
    ensures
        h == 6,
{
    6
}

/// Health is shown as text unless the file says otherwise.
pub fn default_health_display_style() -> (s: String)
    ensures
        s@ == "text"@,
{
    string_from("text")
}

/// Notifications are off unless the file says otherwise.
pub fn default_notifications_enabled() -> (b: bool)
    ensures
        !b,
{
    false
}

/// A conversation counts as waiting after three minutes unless the file says otherwise.
pub fn default_waiting_seconds() -> (s: u64)
    ensures
        s == 180,
{
    180
}

/// A conversation counts as stale after three hours unless the file says otherwise.
pub fn default_stale_minutes() -> (m: u64)
    ensures
        m == 180,
{
    180
}

/// Notifications quote five messages unless the file says otherwise.
pub fn default_sample_messages() -> (n: usize)
    ensures
        n == 5,
{
    5
}

/// Slack delivery is off unless the file says otherwise.
pub fn default_slack_enabled() -> (b: bool)
    ensures
        !b,
{
    false
}

impl Default for SlackConfig {
    fn default() -> (c: SlackConfig)
        ensures
            !c.enabled,
            c.webhook_url is None,
            c.channel is None,
            c.username is None,
    {
        SlackConfig { enabled: false, webhook_url: None, channel: None, username: None }
    }
}

impl Default for NotificationConfig {
    fn default() -> (c: NotificationConfig)
        ensures
            !c.enabled,
            c.waiting_seconds == 0,
            c.stale_minutes == 0,
            c.sample_messages == 0,
            !c.slack.enabled,
            c.slack.webhook_url is None,
            c.slack.channel is None,
            c.slack.username is None,
    {
        NotificationConfig {
            enabled: false,
            waiting_seconds: 0,
            stale_minutes: 0,
            sample_messages: 0,
            slack: SlackConfig::default(),
        }
    }
}

impl Default for WarpConfig {
    fn default() -> (c: WarpConfig)
        ensures
            c.auth_token is None,
            !c.auto_sync,
            c.sync_interval_hours == 0,
    {
        WarpConfig { auth_token: None, auto_sync: false, sync_interval_hours: 0 }
    }
}

/// The configuration written by `config init`.
pub open spec fn default_config_view() -> ConfigView {
    ConfigView {
        server: ServerView { url: "https://splitrail.dev"@, api_token: ""@ },
        upload: UploadConfig { auto_upload: false, upload_today_only: false, retry_attempts: 3, last_date_uploaded: 0 },
        formatting: FormattingView {
            number_comma: false,
            number_human: false,
            locale: "en"@,
            decimal_places: 2,
            health_display_style: "text"@,
        },
        notifications: NotificationView {
            enabled: false,
            waiting_seconds: 180,
            stale_minutes: 180,
            sample_messages: 5,
            slack: SlackView { enabled: false, webhook_url: None, channel: None, username: None },
        },
        warp: WarpView { auth_token: None, auto_sync: false, sync_interval_hours: 0 },
    }
}

impl Default for Config {
    fn default() -> (c: Config)
        ensures
            c@ == default_config_view(),
    {
        Config {
            server: ServerConfig { url: string_from("https://splitrail.dev"), api_token: string_from("") },
            upload: UploadConfig {
                auto_upload: false,
                upload_today_only: false,
                retry_attempts: 3,
                last_date_uploaded: 0,
            },
            formatting: FormattingConfig {
                number_comma: false,
                number_human: false,
                locale: string_from("en"),
                decimal_places: 2,
                health_display_style: string_from("text"),
            },
            notifications: NotificationConfig {
                enabled: default_notifications_enabled(),
                waiting_seconds: default_waiting_seconds(),
                stale_minutes: default_stale_minutes(),
                sample_messages: default_sample_messages(),
                slack: SlackConfig::default(),
            },
            warp: WarpConfig::default(),
        }
    }
}

impl Config {
    pub fn set_api_token(&mut self, token: String)
        ensures
            final(self)@ == (ConfigView { server: ServerView { api_token: token@, ..old(self)@.server }, ..old(self)@ }),
    {
        self.server.api_token = token;
    }

    pub fn set_auto_upload(&mut self, enabled: bool)
        ensures
            final(self)@ == (ConfigView { upload: UploadConfig { auto_upload: enabled, ..old(self)@.upload }, ..old(self)@ }),
    {
        self.upload.auto_upload = enabled;
    }

    pub fn set_upload_today_only(&mut self, enabled: bool)
        ensures
            final(self)@ == (ConfigView { upload: UploadConfig { upload_today_only: enabled, ..old(self)@.upload }, ..old(self)@ }),
    {
        self.upload.upload_today_only = enabled;
    }

    /// Uploading is possible: both a token and a server URL are set.
    pub fn is_configured(&self) -> (b: bool)
        ensures
            b == (self.server.api_token@.len() > 0 && self.server.url@.len() > 0),
    {
        !self.server.api_token.as_str().is_empty() && !self.server.url.as_str().is_empty()
    }

    pub fn is_api_token_missing(&self) -> (b: bool)
        ensures
            b == (self.server.api_token@.len() == 0),
    {
        self.server.api_token.as_str().is_empty()
    }

    pub fn is_server_url_missing(&self) -> (b: bool)
        ensures
            b == (self.server.url@.len() == 0),
    {
        self.server.url.as_str().is_empty()
    }

    pub fn set_last_date_uploaded(&mut self, date: i64)
        ensures
            final(self)@ == (ConfigView { upload: UploadConfig { last_date_uploaded: date, ..old(self)@.upload }, ..old(self)@ }),
    {
        self.upload.last_date_uploaded = date;
    }
}

/// `s` as `bool`'s `FromStr` reads it: exactly `true` or `false`.
pub open spec fn parse_bool_spec(s: Seq<char>) -> Option<bool> {
    if s == "true"@ { Some(true) } else if s == "false"@ { Some(false) } else { None }
}

pub open spec fn is_digit(c: char) -> bool {
    '0' <= c && c <= '9'
}

/// The value of a string of decimal digits.
pub open spec fn digits_value(d: Seq<char>) -> int
    decreases d.len(),
{
    if d.len() == 0 { 0 } else { digits_value(d.drop_last()) * 10 + (d.last() as int - '0' as int) }
}

/// `s` without one leading `+`.
pub open spec fn unsigned_digits(s: Seq<char>) -> Seq<char> {
    if s.len() > 0 && s[0] == '+' { s.drop_first() } else { s }
}

/// Every character of `d` is a decimal digit.
pub open spec fn all_digits(d: Seq<char>) -> bool {
    forall|i: int| 0 <= i < d.len() ==> is_digit(#[trigger] d[i])
}

/// `s` as an unsigned integer type's `FromStr` reads it: an optional `+`, then one or more
/// decimal digits, with a value no larger than `max`.
pub open spec fn parse_unsigned_spec(s: Seq<char>, max: int) -> Option<int> {
    let d = unsigned_digits(s);
    if d.len() > 0 && all_digits(d) && digits_value(d) <= max {
        Some(digits_value(d))
    } else {
        None
    }
}

pub proof fn lemma_digits_value_mono(d: Seq<char>, n: int)
    requires
        0 <= n <= d.len(),
        forall|i: int| 0 <= i < d.len() ==> is_digit(#[trigger] d[i]),
    ensures
        0 <= digits_value(d.take(n)) <= digits_value(d),
    decreases d.len() - n,
{
    if n < d.len() {
        assert(d.drop_last().take(n) =~= d.take(n));
        lemma_digits_value_mono(d.drop_last(), n);
        lemma_digits_value_nonneg(d.drop_last());
    } else {
        assert(d.take(n) =~= d);
        lemma_digits_value_nonneg(d);
    }
}

pub proof fn lemma_digits_value_nonneg(d: Seq<char>)
    requires
        forall|i: int| 0 <= i < d.len() ==> is_digit(#[trigger] d[i]),
    ensures
        digits_value(d) >= 0,
    decreases d.len(),
{
    if d.len() > 0 {
        lemma_digits_value_nonneg(d.drop_last());
    }
}

/// Reads a `bool` as `str::parse::<bool>` does.
pub fn parse_bool(s: &str) -> (r: Option<bool>)
    ensures
        r == parse_bool_spec(s@),
{
    if str_eq(s, "true") {
        Some(true)
    } else if str_eq(s, "false") {
        Some(false)
    } else {
        None
    }
}

/// Reads a `u64` as `str::parse::<u64>` does.
pub fn parse_u64(s: &str) -> (r: Option<u64>)
    ensures
        match r {
            Some(v) => parse_unsigned_spec(s@, u64::MAX as int) == Some(v as int),
            None => parse_unsigned_spec(s@, u64::MAX as int) is None,
        },
{
    let cs = chars_of(s);
    let start: usize = if cs.len() > 0 && cs[0] == '+' { 1 } else { 0 };
    let ghost d = unsigned_digits(s@);
    if start >= cs.len() {
        proof {
            assert(d.len() == 0);
        }
        return None;
    }
    let mut v: u64 = 0;
    let mut i: usize = start;
    proof {
        assert(d =~= cs@.skip(start as int));
        assert(d.take(0) =~= Seq::<char>::empty());
    }
    while i < cs.len()
        invariant
            start <= i <= cs.len(),
            start < cs.len(),
            d == unsigned_digits(s@),
            d =~= cs@.skip(start as int),
            forall|k: int| 0 <= k < i - start ==> is_digit(#[trigger] d[k]),
            v as int == digits_value(d.take(i - start)),
        decreases cs.len() - i,
    {
        let c = cs[i];
        if !('0' <= c && c <= '9') {
            proof {
                assert(!is_digit(d[i - start]));
                assert(!all_digits(d));
            }
            return None;
        }
        let dig = (c as u32 - '0' as u32) as u64;
        proof {
            assert(d.take(i - start + 1).drop_last() =~= d.take(i - start));
            assert(d.take(i - start + 1).last() == c);
        }
        let t = v.checked_mul(10);
        match t {
            None => {
                proof {
                    if all_digits(d) {
                        lemma_digits_value_mono(d, i - start + 1);
                        assert(digits_value(d.take(i - start + 1)) == v * 10 + (c as int - '0' as int));
                    }
                }
                return None;
            },
            Some(t) => match t.checked_add(dig) {
                None => {
                    proof {
                        if all_digits(d) {
                            lemma_digits_value_mono(d, i - start + 1);
                            assert(digits_value(d.take(i - start + 1)) == t * 1 + (c as int - '0' as int));
                        }
                    }
                    return None;
                },
                Some(n) => {
                    v = n;
                },
            },
        }
        i = i + 1;
    }
    proof {
        assert(d.take(i - start) =~= d);
    }
    Some(v)
}

/// Reads a `usize` as `str::parse::<usize>` does.
pub fn parse_usize(s: &str) -> (r: Option<usize>)
    ensures
        match r {
            Some(v) => parse_unsigned_spec(s@, usize::MAX as int) == Some(v as int),
            None => parse_unsigned_spec(s@, usize::MAX as int) is None,
        },
{
    match parse_u64(s) {
        Some(v) => {
            if v <= usize::MAX as u64 {
                Some(v as usize)
            } else {
                None
            }
        },
        None => None,
    }
}

/// Why a `config set` was refused.
#[derive(Debug, Clone)]
pub enum ConfigError {
    /// A boolean key got something other than `true` or `false`.
    InvalidBool,
    /// `decimal-places` got something that is not a `usize`.
    InvalidNumber,
    /// `notifications-wait-seconds` got something that is not a `u64`.
    InvalidWaitSeconds,
    /// `notifications-stale-minutes` got something that is not a `u64`.
    InvalidStaleMinutes,
    /// `notifications-sample-messages` got something that is not a `usize`.
    InvalidSampleMessages,
    /// `health-display-style` got something other than `text` or `braille`.
    InvalidHealthStyle,
    /// The key is not one of the settable keys.
    UnknownKey(String),
}

/// The kind of a [`ConfigError`], without the key text.
pub enum ConfigErrorKind {
    InvalidBool,
    InvalidNumber,
    InvalidWaitSeconds,
    InvalidStaleMinutes,
    InvalidSampleMessages,
    InvalidHealthStyle,
    UnknownKey,
}

impl ConfigError {
    pub open spec fn kind(self) -> ConfigErrorKind {
        match self {
            ConfigError::InvalidBool => ConfigErrorKind::InvalidBool,
            ConfigError::InvalidNumber => ConfigErrorKind::InvalidNumber,
            ConfigError::InvalidWaitSeconds => ConfigErrorKind::InvalidWaitSeconds,
            ConfigError::InvalidStaleMinutes => ConfigErrorKind::InvalidStaleMinutes,
            ConfigError::InvalidSampleMessages => ConfigErrorKind::InvalidSampleMessages,
            ConfigError::InvalidHealthStyle => ConfigErrorKind::InvalidHealthStyle,
            ConfigError::UnknownKey(_) => ConfigErrorKind::UnknownKey,
        }
    }

    /// The text of the message shown for this error.
    pub open spec fn message_text(self) -> Seq<char> {
        match self {
            ConfigError::InvalidBool => "Invalid boolean value. Use 'true' or 'false'"@,
            ConfigError::InvalidNumber => "Invalid number value"@,
            ConfigError::InvalidWaitSeconds => "Invalid number value for wait seconds"@,
            ConfigError::InvalidStaleMinutes => "Invalid number value for stale minutes"@,
            ConfigError::InvalidSampleMessages => "Invalid number value for sample messages"@,
            ConfigError::InvalidHealthStyle => "Invalid health display style. Use 'text' or 'braille'"@,
            ConfigError::UnknownKey(k) => "Unknown config key: "@ + k@,
        }
    }

    /// The message shown for this error.
    pub fn message(&self) -> (s: String)
        ensures
            s@ == self.message_text(),
    {
        match self {
            ConfigError::InvalidBool => string_from("Invalid boolean value. Use 'true' or 'false'"),
            ConfigError::InvalidNumber => string_from("Invalid number value"),
            ConfigError::InvalidWaitSeconds => string_from("Invalid number value for wait seconds"),
            ConfigError::InvalidStaleMinutes => string_from("Invalid number value for stale minutes"),
            ConfigError::InvalidSampleMessages => string_from("Invalid number value for sample messages"),
            ConfigError::InvalidHealthStyle => string_from("Invalid health display style. Use 'text' or 'braille'"),
            ConfigError::UnknownKey(k) => {
                let mut cs = chars_of("Unknown config key: ");
                let kc = chars_of(k.as_str());
                crate::text::append_chars(&mut cs, &kc);
                crate::text::string_of(&cs)
            },
        }
    }
}

/// A boolean setting: the new configuration, or the error for a value that is not a `bool`.
pub open spec fn bool_edit(value: Seq<char>, f: spec_fn(bool) -> ConfigView) -> Result<ConfigView, ConfigErrorKind> {
    match parse_bool_spec(value) {
        Some(b) => Ok(f(b)),
        None => Err(ConfigErrorKind::InvalidBool),
    }
}

/// What `config set key value` makes of configuration `c`.
pub open spec fn config_edit(c: ConfigView, key: Seq<char>, value: Seq<char>) -> Result<ConfigView, ConfigErrorKind> {
    if key == "api-token"@ {
        Ok(ConfigView { server: ServerView { api_token: value, ..c.server }, ..c })
    } else if key == "auto-upload"@ {
        bool_edit(value, |b: bool| ConfigView { upload: UploadConfig { auto_upload: b, ..c.upload }, ..c })
    } else if key == "upload-today-only"@ {
        bool_edit(value, |b: bool| ConfigView { upload: UploadConfig { upload_today_only: b, ..c.upload }, ..c })
    } else if key == "number-comma"@ {
        bool_edit(value, |b: bool| ConfigView { formatting: FormattingView { number_comma: b, ..c.formatting }, ..c })
    } else if key == "number-human"@ {
        bool_edit(value, |b: bool| ConfigView { formatting: FormattingView { number_human: b, ..c.formatting }, ..c })
    } else if key == "locale"@ {
        Ok(ConfigView { formatting: FormattingView { locale: value, ..c.formatting }, ..c })
    } else if key == "decimal-places"@ {
        match parse_unsigned_spec(value, usize::MAX as int) {
            Some(n) => Ok(ConfigView { formatting: FormattingView { decimal_places: n as usize, ..c.formatting }, ..c }),
            None => Err(ConfigErrorKind::InvalidNumber),
        }
    } else if key == "health-display-style"@ {
        if value == "text"@ || value == "braille"@ {
            Ok(ConfigView { formatting: FormattingView { health_display_style: value, ..c.formatting }, ..c })
        } else {
            Err(ConfigErrorKind::InvalidHealthStyle)
        }
    } else if key == "notifications-enabled"@ {
        bool_edit(value, |b: bool| ConfigView { notifications: NotificationView { enabled: b, ..c.notifications }, ..c })
    } else if key == "notifications-wait-seconds"@ {
        match parse_unsigned_spec(value, u64::MAX as int) {
            Some(n) => Ok(ConfigView { notifications: NotificationView { waiting_seconds: n as u64, ..c.notifications }, ..c }),
            None => Err(ConfigErrorKind::InvalidWaitSeconds),
        }
    } else if key == "notifications-stale-minutes"@ {
        match parse_unsigned_spec(value, u64::MAX as int) {
            Some(n) => Ok(ConfigView { notifications: NotificationView { stale_minutes: n as u64, ..c.notifications }, ..c }),
            None => Err(ConfigErrorKind::InvalidStaleMinutes),
        }
    } else if key == "notifications-sample-messages"@ {
        match parse_unsigned_spec(value, usize::MAX as int) {
            Some(n) => Ok(ConfigView {
                notifications: NotificationView { sample_messages: if n < 1 { 1usize } else { n as usize }, ..c.notifications },
                ..c
            }),
            None => Err(ConfigErrorKind::InvalidSampleMessages),
        }
    } else if key == "slack-enabled"@ {
        bool_edit(value, |b: bool| ConfigView {
            notifications: NotificationView { slack: SlackView { enabled: b, ..c.notifications.slack }, ..c.notifications },
            ..c
        })
    } else if key == "slack-webhook-url"@ {
        Ok(ConfigView {
            notifications: NotificationView { slack: SlackView { webhook_url: Some(value), ..c.notifications.slack }, ..c.notifications },
            ..c
        })
    } else if key == "slack-channel"@ {
        Ok(ConfigView {
            notifications: NotificationView { slack: SlackView { channel: Some(value), ..c.notifications.slack }, ..c.notifications },
            ..c
        })
    } else if key == "slack-username"@ {
        Ok(ConfigView {
            notifications: NotificationView { slack: SlackView { username: Some(value), ..c.notifications.slack }, ..c.notifications },
            ..c
        })
    } else {
        Err(ConfigErrorKind::UnknownKey)
    }
}

/// Sets configuration key `key` to `value` (the `config set` command, without loading or saving
/// the file). On success the configuration is [`config_edit`]'s; on failure it is unchanged and
/// the error says why (an unknown key carries the key).
pub fn set_config_value(config: &mut Config, key: &str, value: &str) -> (r: Result<(), ConfigError>)
    ensures
        match config_edit(old(config)@, key@, value@) {
            Ok(c) => r is Ok && final(config)@ == c,
            Err(k) => r is Err && r->Err_0.kind() == k && final(config)@ == old(config)@,
        },
        r matches Err(ConfigError::UnknownKey(k)) ==> k@ == key@,
{
    if str_eq(key, "api-token") {
        config.set_api_token(string_from(value));
        Ok(())
    } else if str_eq(key, "auto-upload") {
        match parse_bool(value) {
            Some(b) => { config.set_auto_upload(b); Ok(()) },
            None => Err(ConfigError::InvalidBool),
        }
    } else if str_eq(key, "upload-today-only") {
        match parse_bool(value) {
            Some(b) => { config.set_upload_today_only(b); Ok(()) },
            None => Err(ConfigError::InvalidBool),
        }
    } else if str_eq(key, "number-comma") {
        match parse_bool(value) {
            Some(b) => { config.formatting.number_comma = b; Ok(()) },
            None => Err(ConfigError::InvalidBool),
        }
    } else if str_eq(key, "number-human") {
        match parse_bool(value) {
            Some(b) => { config.formatting.number_human = b; Ok(()) },
            None => Err(ConfigError::InvalidBool),
        }
    } else if str_eq(key, "locale") {
        config.formatting.locale = string_from(value);
        Ok(())
    } else if str_eq(key, "decimal-places") {
        match parse_usize(value) {
            Some(n) => { config.formatting.decimal_places = n; Ok(()) },
            None => Err(ConfigError::InvalidNumber),
        }
    } else if str_eq(key, "health-display-style") {
        if str_eq(value, "text") || str_eq(value, "braille") {
            config.formatting.health_display_style = string_from(value);
            Ok(())
        } else {
            Err(ConfigError::InvalidHealthStyle)
        }
    } else if str_eq(key, "notifications-enabled") {
        match parse_bool(value) {
            Some(b) => { config.notifications.enabled = b; Ok(()) },
            None => Err(ConfigError::InvalidBool),
        }
    } else if str_eq(key, "notifications-wait-seconds") {
        match parse_u64(value) {
            Some(n) => { config.notifications.waiting_seconds = n; Ok(()) },
            None => Err(ConfigError::InvalidWaitSeconds),
        }
    } else if str_eq(key, "notifications-stale-minutes") {
        match parse_u64(value) {
            Some(n) => { config.notifications.stale_minutes = n; Ok(()) },
            None => Err(ConfigError::InvalidStaleMinutes),
        }
    } else if str_eq(key, "notifications-sample-messages") {
        match parse_usize(value) {
            Some(n) => {
                config.notifications.sample_messages = if n < 1 { 1 } else { n };
                Ok(())
            },
            None => Err(ConfigError::InvalidSampleMessages),
        }
    } else if str_eq(key, "slack-enabled") {
        match parse_bool(value) {
            Some(b) => { config.notifications.slack.enabled = b; Ok(()) },
            None => Err(ConfigError::InvalidBool),
        }
    } else if str_eq(key, "slack-webhook-url") {
        config.notifications.slack.webhook_url = Some(string_from(value));
        Ok(())
    } else if str_eq(key, "slack-channel") {
        config.notifications.slack.channel = Some(string_from(value));
        Ok(())
    } else if str_eq(key, "slack-username") {
        config.notifications.slack.username = Some(string_from(value));
        Ok(())
    } else {
        Err(ConfigError::UnknownKey(string_from(key)))
    }
}

/// How `b` prints.
pub open spec fn bool_text(b: bool) -> Seq<char> {
    if b { "true"@ } else { "false"@ }
}

/// The lines that describe `c` to the user, in order.
pub open spec fn config_report(c: Config) -> Seq<Seq<char>> {
    seq![
        "🔧 Current configuration:"@,
        "   API Token: "@ + if c.server.api_token@.len() == 0 { "Not set"@ } else { "Set"@ },
        "   Auto Upload: "@ + bool_text(c.upload.auto_upload),
        "   Upload Today Only: "@ + bool_text(c.upload.upload_today_only),
        "   Number Comma: "@ + bool_text(c.formatting.number_comma),
        "   Number Human: "@ + bool_text(c.formatting.number_human),
        "   Locale: "@ + c.formatting.locale@,
        "   Decimal Places: "@ + decimal(c.formatting.decimal_places as nat),
        "   Health Display Style: "@ + c.formatting.health_display_style@,
        "   Notifications Enabled: "@ + bool_text(c.notifications.enabled),
        "   Notify After (sec): "@ + decimal(c.notifications.waiting_seconds as nat),
        "   Stale After (min): "@ + decimal(c.notifications.stale_minutes as nat),
        "   Sample Messages: "@ + decimal(c.notifications.sample_messages as nat),
        "   Slack: "@ + if c.notifications.slack.enabled {
            if c.notifications.slack.webhook_url is Some {
                "Enabled (webhook set)"@
            } else {
                "Enabled (no webhook configured)"@
            }
        } else {
            "Disabled"@
        },
    ]
}

fn labelled(label: &str, value: &str) -> (r: String)
    ensures
        r@ == label@ + value@,
{
    String::from_str(label).concat(value)
}

fn bool_word(b: bool) -> (r: &'static str)
    ensures
        r@ == bool_text(b),
{
    if b { "true" } else { "false" }
}

fn number_word(n: u64) -> (r: String)
    ensures
        r@ == decimal(n as nat),
{
    let d = decimal_chars(n);
    string_of(&d)
}

/// The lines that describe `config` to the user (see [`config_report`]).
pub fn config_lines(config: &Config) -> (r: Vec<String>)
    requires
        config.formatting.decimal_places <= u64::MAX,
        config.notifications.sample_messages <= u64::MAX,
    ensures
        r@.map_values(|s: String| s@) == config_report(*config),
{
    let mut out: Vec<String> = Vec::new();
    out.push(String::from_str("🔧 Current configuration:"));
    let token_chars = chars_of(config.server.api_token.as_str());
    out.push(labelled("   API Token: ", if token_chars.len() == 0 { "Not set" } else { "Set" }));
    out.push(labelled("   Auto Upload: ", bool_word(config.upload.auto_upload)));
    out.push(labelled("   Upload Today Only: ", bool_word(config.upload.upload_today_only)));
    out.push(labelled("   Number Comma: ", bool_word(config.formatting.number_comma)));
    out.push(labelled("   Number Human: ", bool_word(config.formatting.number_human)));
    out.push(labelled("   Locale: ", config.formatting.locale.as_str()));
    let places = number_word(config.formatting.decimal_places as u64);
    out.push(labelled("   Decimal Places: ", places.as_str()));
    out.push(labelled("   Health Display Style: ", config.formatting.health_display_style.as_str()));
    out.push(labelled("   Notifications Enabled: ", bool_word(config.notifications.enabled)));
    let wait = number_word(config.notifications.waiting_seconds);
    out.push(labelled("   Notify After (sec): ", wait.as_str()));
    let stale = number_word(config.notifications.stale_minutes);
    out.push(labelled("   Stale After (min): ", stale.as_str()));
    let sample = number_word(config.notifications.sample_messages as u64);
    out.push(labelled("   Sample Messages: ", sample.as_str()));
    let slack = if config.notifications.slack.enabled {
        if config.notifications.slack.webhook_url.is_some() {
            "Enabled (webhook set)"
        } else {
            "Enabled (no webhook configured)"
        }
    } else {
        "Disabled"
    };
    out.push(labelled("   Slack: ", slack));
    assert(out@.map_values(|s: String| s@) =~= config_report(*config));
    out
}

/// `config set number-human` with `true` or `false` succeeds and turns human-scale numbers on or
/// off as the value says, changing no other setting; any other value is refused and changes
/// nothing. The same holds of `number-comma` and comma grouping.
pub proof fn law_number_switches_set_only_themselves(c: ConfigView, value: Seq<char>)
    ensures
        (value == "true"@ || value == "false"@) ==> config_edit(c, "number-human"@, value) is Ok,
        !(value == "true"@ || value == "false"@) ==> config_edit(c, "number-human"@, value) == Err::<ConfigView, ConfigErrorKind>(ConfigErrorKind::InvalidBool),
        config_edit(c, "number-human"@, value) matches Ok(c2) ==> {
            &&& c2.formatting.number_human == (value == "true"@)
            &&& c2.formatting.number_comma == c.formatting.number_comma
            &&& c2.formatting.locale == c.formatting.locale
            &&& c2.formatting.decimal_places == c.formatting.decimal_places
            &&& c2.formatting.health_display_style == c.formatting.health_display_style
            &&& c2.server == c.server
            &&& c2.upload == c.upload
            &&& c2.notifications == c.notifications
            &&& c2.warp == c.warp
        },
        (value == "true"@ || value == "false"@) ==> config_edit(c, "number-comma"@, value) is Ok,
        config_edit(c, "number-comma"@, value) matches Ok(c2) ==> {
            &&& c2.formatting.number_comma == (value == "true"@)
            &&& c2.formatting.number_human == c.formatting.number_human
            &&& c2.formatting.locale == c.formatting.locale
            &&& c2.formatting.decimal_places == c.formatting.decimal_places
            &&& c2.formatting.health_display_style == c.formatting.health_display_style
            &&& c2.server == c.server
            &&& c2.upload == c.upload
            &&& c2.notifications == c.notifications
            &&& c2.warp == c.warp
        },
{
    reveal_strlit("api-token");
    reveal_strlit("auto-upload");
    reveal_strlit("upload-today-only");
    reveal_strlit("number-comma");
    reveal_strlit("number-human");
    reveal_strlit("true");
    reveal_strlit("false");
    assert("api-token"@ != "auto-upload"@) by {
        assert("api-token"@[1] != "auto-upload"@[1]);
    }
    assert("api-token"@ != "upload-today-only"@) by {
        assert("api-token"@[0] != "upload-today-only"@[0]);
    }
    assert("api-token"@ != "number-comma"@) by {
        assert("api-token"@[0] != "number-comma"@[0]);
    }
    assert("api-token"@ != "number-human"@) by {
        assert("api-token"@[0] != "number-human"@[0]);
    }
    assert("auto-upload"@ != "upload-today-only"@) by {
        assert("auto-upload"@[0] != "upload-today-only"@[0]);
    }
    assert("auto-upload"@ != "number-comma"@) by {
        assert("auto-upload"@[0] != "number-comma"@[0]);
    }
    assert("auto-upload"@ != "number-human"@) by {
        assert("auto-upload"@[0] != "number-human"@[0]);
    }
    assert("upload-today-only"@ != "number-comma"@) by {
        assert("upload-today-only"@[0] != "number-comma"@[0]);
    }
    assert("upload-today-only"@ != "number-human"@) by {
        assert("upload-today-only"@[0] != "number-human"@[0]);
    }
    assert("number-comma"@ != "number-human"@) by {
        assert("number-comma"@[7] != "number-human"@[7]);
    }
    assert("true"@ != "false"@) by {
        assert("true"@[0] != "false"@[0]);
    }
}

/// Every other on/off setting behaves alike: `config set` with `true` or `false` succeeds, sets
/// just that switch as the value says, and leaves every other setting as it was (restoring the
/// switch gives back the old configuration).
pub proof fn law_switches_set_only_themselves(c: ConfigView, value: Seq<char>)
    ensures
        (value == "true"@ || value == "false"@) ==> config_edit(c, "auto-upload"@, value) is Ok,
        config_edit(c, "auto-upload"@, value) matches Ok(c2) ==> (c2.upload.auto_upload == (value == "true"@) && (ConfigView { upload: UploadConfig { auto_upload: c.upload.auto_upload, ..c2.upload }, ..c2 }) == c),
        (value == "true"@ || value == "false"@) ==> config_edit(c, "upload-today-only"@, value) is Ok,
        config_edit(c, "upload-today-only"@, value) matches Ok(c2) ==> (c2.upload.upload_today_only == (value == "true"@) && (ConfigView { upload: UploadConfig { upload_today_only: c.upload.upload_today_only, ..c2.upload }, ..c2 }) == c),
        (value == "true"@ || value == "false"@) ==> config_edit(c, "notifications-enabled"@, value) is Ok,
        config_edit(c, "notifications-enabled"@, value) matches Ok(c2) ==> (c2.notifications.enabled == (value == "true"@) && (ConfigView { notifications: NotificationView { enabled: c.notifications.enabled, ..c2.notifications }, ..c2 }) == c),
        (value == "true"@ || value == "false"@) ==> config_edit(c, "slack-enabled"@, value) is Ok,
        config_edit(c, "slack-enabled"@, value) matches Ok(c2) ==> (c2.notifications.slack.enabled == (value == "true"@) && (ConfigView { notifications: NotificationView { slack: SlackView { enabled: c.notifications.slack.enabled, ..c2.notifications.slack }, ..c2.notifications }, ..c2 }) == c),
{
    reveal_strlit("api-token");
    reveal_strlit("auto-upload");
    reveal_strlit("upload-today-only");
    reveal_strlit("number-comma");
    reveal_strlit("number-human");
    reveal_strlit("locale");
    reveal_strlit("decimal-places");
    reveal_strlit("health-display-style");
    reveal_strlit("notifications-enabled");
    reveal_strlit("notifications-wait-seconds");
    reveal_strlit("notifications-stale-minutes");
    reveal_strlit("notifications-sample-messages");
    reveal_strlit("slack-enabled");
    reveal_strlit("true");
    reveal_strlit("false");
    assert("api-token"@ != "auto-upload"@) by {
        assert("api-token"@.len() != "auto-upload"@.len());
    }
    assert("api-token"@ != "upload-today-only"@) by {
        assert("api-token"@.len() != "upload-today-only"@.len());
    }
    assert("api-token"@ != "number-comma"@) by {
        assert("api-token"@.len() != "number-comma"@.len());
    }
    assert("api-token"@ != "number-human"@) by {
        assert("api-token"@.len() != "number-human"@.len());
    }
    assert("api-token"@ != "locale"@) by {
        assert("api-token"@.len() != "locale"@.len());
    }
    assert("api-token"@ != "decimal-places"@) by {
        assert("api-token"@.len() != "decimal-places"@.len());
    }
    assert("api-token"@ != "health-display-style"@) by {
        assert("api-token"@.len() != "health-display-style"@.len());
    }
    assert("api-token"@ != "notifications-enabled"@) by {
        assert("api-token"@.len() != "notifications-enabled"@.len());
    }
    assert("api-token"@ != "notifications-wait-seconds"@) by {
        assert("api-token"@.len() != "notifications-wait-seconds"@.len());
    }
    assert("api-token"@ != "notifications-stale-minutes"@) by {
        assert("api-token"@.len() != "notifications-stale-minutes"@.len());
    }
    assert("api-token"@ != "notifications-sample-messages"@) by {
        assert("api-token"@.len() != "notifications-sample-messages"@.len());
    }
    assert("api-token"@ != "slack-enabled"@) by {
        assert("api-token"@.len() != "slack-enabled"@.len());
    }
    assert("auto-upload"@ != "upload-today-only"@) by {
        assert("auto-upload"@.len() != "upload-today-only"@.len());
    }
    assert("auto-upload"@ != "number-comma"@) by {
        assert("auto-upload"@.len() != "number-comma"@.len());
    }
    assert("auto-upload"@ != "number-human"@) by {
        assert("auto-upload"@.len() != "number-human"@.len());
    }
    assert("auto-upload"@ != "locale"@) by {
        assert("auto-upload"@.len() != "locale"@.len());
    }
    assert("auto-upload"@ != "decimal-places"@) by {
        assert("auto-upload"@.len() != "decimal-places"@.len());
    }
    assert("auto-upload"@ != "health-display-style"@) by {
        assert("auto-upload"@.len() != "health-display-style"@.len());
    }
    assert("auto-upload"@ != "notifications-enabled"@) by {
        assert("auto-upload"@.len() != "notifications-enabled"@.len());
    }
    assert("auto-upload"@ != "notifications-wait-seconds"@) by {
        assert("auto-upload"@.len() != "notifications-wait-seconds"@.len());
    }
    assert("auto-upload"@ != "notifications-stale-minutes"@) by {
        assert("auto-upload"@.len() != "notifications-stale-minutes"@.len());
    }
    assert("auto-upload"@ != "notifications-sample-messages"@) by {
        assert("auto-upload"@.len() != "notifications-sample-messages"@.len());
    }
    assert("auto-upload"@ != "slack-enabled"@) by {
        assert("auto-upload"@.len() != "slack-enabled"@.len());
    }
    assert("upload-today-only"@ != "number-comma"@) by {
        assert("upload-today-only"@.len() != "number-comma"@.len());
    }
    assert("upload-today-only"@ != "number-human"@) by {
        assert("upload-today-only"@.len() != "number-human"@.len());
    }
    assert("upload-today-only"@ != "locale"@) by {
        assert("upload-today-only"@.len() != "locale"@.len());
    }
    assert("upload-today-only"@ != "decimal-places"@) by {
        assert("upload-today-only"@.len() != "decimal-places"@.len());
    }
    assert("upload-today-only"@ != "health-display-style"@) by {
        assert("upload-today-only"@.len() != "health-display-style"@.len());
    }
    assert("upload-today-only"@ != "notifications-enabled"@) by {
        assert("upload-today-only"@.len() != "notifications-enabled"@.len());
    }
    assert("upload-today-only"@ != "notifications-wait-seconds"@) by {
        assert("upload-today-only"@.len() != "notifications-wait-seconds"@.len());
    }
    assert("upload-today-only"@ != "notifications-stale-minutes"@) by {
        assert("upload-today-only"@.len() != "notifications-stale-minutes"@.len());
    }
    assert("upload-today-only"@ != "notifications-sample-messages"@) by {
        assert("upload-today-only"@.len() != "notifications-sample-messages"@.len());
    }
    assert("upload-today-only"@ != "slack-enabled"@) by {
        assert("upload-today-only"@.len() != "slack-enabled"@.len());
    }
    assert("number-comma"@ != "number-human"@) by {
        assert("number-comma"@[7] != "number-human"@[7]);
    }
    assert("number-comma"@ != "locale"@) by {
        assert("number-comma"@.len() != "locale"@.len());
    }
    assert("number-comma"@ != "decimal-places"@) by {
        assert("number-comma"@.len() != "decimal-places"@.len());
    }
    assert("number-comma"@ != "health-display-style"@) by {
        assert("number-comma"@.len() != "health-display-style"@.len());
    }
    assert("number-comma"@ != "notifications-enabled"@) by {
        assert("number-comma"@.len() != "notifications-enabled"@.len());
    }
    assert("number-comma"@ != "notifications-wait-seconds"@) by {
        assert("number-comma"@.len() != "notifications-wait-seconds"@.len());
    }
    assert("number-comma"@ != "notifications-stale-minutes"@) by {
        assert("number-comma"@.len() != "notifications-stale-minutes"@.len());
    }
    assert("number-comma"@ != "notifications-sample-messages"@) by {
        assert("number-comma"@.len() != "notifications-sample-messages"@.len());
    }
    assert("number-comma"@ != "slack-enabled"@) by {
        assert("number-comma"@.len() != "slack-enabled"@.len());
    }
    assert("number-human"@ != "locale"@) by {
        assert("number-human"@.len() != "locale"@.len());
    }
    assert("number-human"@ != "decimal-places"@) by {
        assert("number-human"@.len() != "decimal-places"@.len());
    }
    assert("number-human"@ != "health-display-style"@) by {
        assert("number-human"@.len() != "health-display-style"@.len());
    }
    assert("number-human"@ != "notifications-enabled"@) by {
        assert("number-human"@.len() != "notifications-enabled"@.len());
    }
    assert("number-human"@ != "notifications-wait-seconds"@) by {
        assert("number-human"@.len() != "notifications-wait-seconds"@.len());
    }
    assert("number-human"@ != "notifications-stale-minutes"@) by {
        assert("number-human"@.len() != "notifications-stale-minutes"@.len());
    }
    assert("number-human"@ != "notifications-sample-messages"@) by {
        assert("number-human"@.len() != "notifications-sample-messages"@.len());
    }
    assert("number-human"@ != "slack-enabled"@) by {
        assert("number-human"@.len() != "slack-enabled"@.len());
    }
    assert("locale"@ != "decimal-places"@) by {
        assert("locale"@.len() != "decimal-places"@.len());
    }
    assert("locale"@ != "health-display-style"@) by {
        assert("locale"@.len() != "health-display-style"@.len());
    }
    assert("locale"@ != "notifications-enabled"@) by {
        assert("locale"@.len() != "notifications-enabled"@.len());
    }
    assert("locale"@ != "notifications-wait-seconds"@) by {
        assert("locale"@.len() != "notifications-wait-seconds"@.len());
    }
    assert("locale"@ != "notifications-stale-minutes"@) by {
        assert("locale"@.len() != "notifications-stale-minutes"@.len());
    }
    assert("locale"@ != "notifications-sample-messages"@) by {
        assert("locale"@.len() != "notifications-sample-messages"@.len());
    }
    assert("locale"@ != "slack-enabled"@) by {
        assert("locale"@.len() != "slack-enabled"@.len());
    }
    assert("decimal-places"@ != "health-display-style"@) by {
        assert("decimal-places"@.len() != "health-display-style"@.len());
    }
    assert("decimal-places"@ != "notifications-enabled"@) by {
        assert("decimal-places"@.len() != "notifications-enabled"@.len());
    }
    assert("decimal-places"@ != "notifications-wait-seconds"@) by {
        assert("decimal-places"@.len() != "notifications-wait-seconds"@.len());
    }
    assert("decimal-places"@ != "notifications-stale-minutes"@) by {
        assert("decimal-places"@.len() != "notifications-stale-minutes"@.len());
    }
    assert("decimal-places"@ != "notifications-sample-messages"@) by {
        assert("decimal-places"@.len() != "notifications-sample-messages"@.len());
    }
    assert("decimal-places"@ != "slack-enabled"@) by {
        assert("decimal-places"@.len() != "slack-enabled"@.len());
    }
    assert("health-display-style"@ != "notifications-enabled"@) by {
        assert("health-display-style"@.len() != "notifications-enabled"@.len());
    }
    assert("health-display-style"@ != "notifications-wait-seconds"@) by {
        assert("health-display-style"@.len() != "notifications-wait-seconds"@.len());
    }
    assert("health-display-style"@ != "notifications-stale-minutes"@) by {
        assert("health-display-style"@.len() != "notifications-stale-minutes"@.len());
    }
    assert("health-display-style"@ != "notifications-sample-messages"@) by {
        assert("health-display-style"@.len() != "notifications-sample-messages"@.len());
    }
    assert("health-display-style"@ != "slack-enabled"@) by {
        assert("health-display-style"@.len() != "slack-enabled"@.len());
    }
    assert("notifications-enabled"@ != "notifications-wait-seconds"@) by {
        assert("notifications-enabled"@.len() != "notifications-wait-seconds"@.len());
    }
    assert("notifications-enabled"@ != "notifications-stale-minutes"@) by {
        assert("notifications-enabled"@.len() != "notifications-stale-minutes"@.len());
    }
    assert("notifications-enabled"@ != "notifications-sample-messages"@) by {
        assert("notifications-enabled"@.len() != "notifications-sample-messages"@.len());
    }
    assert("notifications-enabled"@ != "slack-enabled"@) by {
        assert("notifications-enabled"@.len() != "slack-enabled"@.len());
    }
    assert("notifications-wait-seconds"@ != "notifications-stale-minutes"@) by {
        assert("notifications-wait-seconds"@.len() != "notifications-stale-minutes"@.len());
    }
    assert("notifications-wait-seconds"@ != "notifications-sample-messages"@) by {
        assert("notifications-wait-seconds"@.len() != "notifications-sample-messages"@.len());
    }
    assert("notifications-wait-seconds"@ != "slack-enabled"@) by {
        assert("notifications-wait-seconds"@.len() != "slack-enabled"@.len());
    }
    assert("notifications-stale-minutes"@ != "notifications-sample-messages"@) by {
        assert("notifications-stale-minutes"@.len() != "notifications-sample-messages"@.len());
    }
    assert("notifications-stale-minutes"@ != "slack-enabled"@) by {
        assert("notifications-stale-minutes"@.len() != "slack-enabled"@.len());
    }
    assert("notifications-sample-messages"@ != "slack-enabled"@) by {
        assert("notifications-sample-messages"@.len() != "slack-enabled"@.len());
    }
    assert("true"@ != "false"@) by {
        assert("true"@[0] != "false"@[0]);
    }
}

} // verus!

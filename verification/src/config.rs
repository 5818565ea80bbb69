//! The bot's settings, as they are made from the values of its environment variables.
//! Reading the environment is not done here.
use vstd::prelude::*;
use crate::text::{
    append_str, chars_of, lowercase_of, same_text, string_of, to_lowercase, trimmed, trimmed_chars,
};

verus! {

/// `url::Url`, a parsed absolute URL. Nothing is said of what it holds.
#[verifier::external_type_specification]
#[verifier::external_body]
pub struct ExUrl(url::Url);

/// `url::ParseError`, the reason why a text is no URL.
#[verifier::external_type_specification]
#[verifier::external_body]
pub struct ExUrlParseError(url::ParseError);

/// Whether `text` is an absolute URL, as the `url` crate reads it.
pub uninterp spec fn url_parses(text: Seq<char>) -> bool;

/// Calls `url::Url::parse`.
/// Believed, not proved: a URL comes back exactly where the crate's parser takes the text as
/// an absolute URL.
#[verifier::external_body]
fn parse_url(text: &str) -> (parsed: Result<url::Url, url::ParseError>)
    ensures
        parsed is Ok <==> url_parses(text@),
{
    url::Url::parse(text)
}

/// Why the settings could not be made.
pub enum ConfigError {
    /// A variable that must be set is not; the name is the variable's.
    MissingEnv(&'static str),
    /// `HOSTING` is set to something that is neither yes nor no; the text is its value in
    /// lower case.
    InvalidHosting(String),
    /// `WEBHOOK_URL` is set to something that is no URL; the text is its value.
    InvalidWebhookUrl(String),
}

/// An error, as mathematics.
pub enum ErrorModel {
    MissingEnv(Seq<char>),
    InvalidHosting(Seq<char>),
    InvalidWebhookUrl(Seq<char>),
}

impl View for ConfigError {
    type V = ErrorModel;

    open spec fn view(&self) -> ErrorModel {
        match self {
            ConfigError::MissingEnv(name) => ErrorModel::MissingEnv(name@),
            ConfigError::InvalidHosting(value) => ErrorModel::InvalidHosting(value@),
            ConfigError::InvalidWebhookUrl(value) => ErrorModel::InvalidWebhookUrl(value@),
        }
    }
}

impl ErrorModel {
    /// The error in words.
    pub open spec fn message(self) -> Seq<char> {
        match self {
            ErrorModel::MissingEnv(name) => "missing environment variable: "@ + name,
            ErrorModel::InvalidHosting(value) => "invalid HOSTING value (expected true|false): "@
                + value,
            ErrorModel::InvalidWebhookUrl(value) => "invalid WEBHOOK_URL: "@ + value,
        }
    }
}

impl ConfigError {
    /// The error in words.
    pub fn message(&self) -> (text: String)
        ensures
            text@ == self@.message(),
    {
        let mut out: Vec<char> = Vec::new();
        match self {
            ConfigError::MissingEnv(name) => {
                append_str(&mut out, "missing environment variable: ");
                append_str(&mut out, name);
            },
            ConfigError::InvalidHosting(value) => {
                append_str(&mut out, "invalid HOSTING value (expected true|false): ");
                append_str(&mut out, value.as_str());
            },
            ConfigError::InvalidWebhookUrl(value) => {
                append_str(&mut out, "invalid WEBHOOK_URL: ");
                append_str(&mut out, value.as_str());
            },
        }
        proof {
            assert(out@ =~= self@.message());
        }
        string_of(&out)
    }
}

/// The settings.
#[derive(Clone)]
pub struct AppConfig {
    pub database_url: String,
    pub token: String,
    pub gemini_api_key: String,
    pub hosting: bool,
    pub webhook_url: Option<url::Url>,
    pub port: u16,
}

/// The values of the variables from which the settings are made; `None` where a variable is
/// not set.
pub struct EnvValues {
    pub database_url: Option<String>,
    pub teloxide_token: Option<String>,
    pub gemini_api_key: Option<String>,
    pub hosting: Option<String>,
    pub webhook_url: Option<String>,
    pub port: Option<String>,
}

/// The port that is taken where none is given, or none that can be read.
pub const DEFAULT_PORT: u16 = 8080;

/// What a value in lower case says of a switch: on, off, or nothing.
pub open spec fn switch_of(lowered: Seq<char>) -> Option<bool> {
    if lowered == "true"@ || lowered == "1"@ || lowered == "yes"@ {
        Some(true)
    } else if lowered == "false"@ || lowered == "0"@ || lowered == "no"@ {
        Some(false)
    } else {
        None
    }
}

/// What a value in lower case says of a switch.
pub fn switch_value(lowered: &str) -> (value: Option<bool>)
    ensures
        value == switch_of(lowered@),
{
    if same_text(lowered, "true") || same_text(lowered, "1") || same_text(lowered, "yes") {
        Some(true)
    } else if same_text(lowered, "false") || same_text(lowered, "0") || same_text(lowered, "no") {
        Some(false)
    } else {
        None
    }
}

/// Whether the file of variables is to be loaded, given the value of `DOTENV_DISABLE` in
/// lower case: it is, unless that value says yes.
pub fn dotenv_allowed(lowered: &str) -> (allowed: bool)
    ensures
        allowed == (switch_of(lowered@) != Some(true)),
{
    match switch_value(lowered) {
        Some(on) => !on,
        None => true,
    }
}

/// Whether the file of variables is to be loaded, given the value of `DOTENV_DISABLE`: it
/// is, unless that variable is set to `1`, `true` or `yes`, in any mix of cases.
pub fn dotenv_wanted(disable: Option<&str>) -> (wanted: bool)
    ensures
        wanted == (match disable {
            Some(value) => switch_of(lowercase_of(value@)) != Some(true),
            None => true,
        }),
{
    match disable {
        Some(value) => {
            let lowered = to_lowercase(value);
            dotenv_allowed(lowered.as_str())
        },
        None => true,
    }
}

/// The number that the first `n` digits of `s` write.
pub open spec fn digits_value(s: Seq<char>, n: int) -> nat
    decreases n,
{
    if n <= 0 || n > s.len() {
        0
    } else {
        digits_value(s, n - 1) * 10 + ((s[n - 1] as u32) - ('0' as u32)) as nat
    }
}

/// All of `s` is digits.
pub open spec fn all_digits(s: Seq<char>) -> bool {
    forall|i: int| 0 <= i < s.len() ==> '0' <= #[trigger] s[i] <= '9'
}

/// The number below 65536 that `s` writes in decimal notation: digits alone, or a plus sign
/// and digits.
pub open spec fn u16_of(s: Seq<char>) -> Option<u16> {
    let digits = if s.len() > 0 && s[0] == '+' {
        s.subrange(1, s.len() as int)
    } else {
        s
    };
    if digits.len() > 0 && all_digits(digits) && digits_value(digits, digits.len() as int)
        <= u16::MAX {
        Some(digits_value(digits, digits.len() as int) as u16)
    } else {
        None
    }
}

proof fn digits_value_grows(s: Seq<char>, n: int, m: int)
    requires
        0 <= n <= m <= s.len(),
        all_digits(s),
    ensures
        digits_value(s, n) <= digits_value(s, m),
    decreases m - n,
{
    if n < m {
        digits_value_grows(s, n, m - 1);
    }
}

/// Reads a number below 65536 in decimal notation.
pub fn parse_u16(s: &str) -> (number: Option<u16>)
    ensures
        number == u16_of(s@),
{
    let chars = chars_of(s);
    let start: usize = if chars.len() > 0 && chars[0] == '+' {
        1
    } else {
        0
    };
    let ghost digits = chars@.subrange(start as int, chars@.len() as int);
    proof {
        assert(start == 0 ==> digits =~= chars@);
    }
    if chars.len() == start {
        return None;
    }
    let mut value: u32 = 0;
    let mut i: usize = start;
    while i < chars.len()
        invariant
            start <= i <= chars.len(),
            chars@ == s@,
            start == (if chars@.len() > 0 && chars@[0] == '+' {
                1int
            } else {
                0int
            }),
            start == 0 ==> digits == chars@,
            digits == chars@.subrange(start as int, chars@.len() as int),
            all_digits(digits.subrange(0, i - start)),
            value == digits_value(digits, i - start),
            value <= u16::MAX,
        decreases chars.len() - i,
    {
        let c = chars[i];
        if !('0' <= c && c <= '9') {
            proof {
                assert(digits[i - start] == c);
            }
            return None;
        }
        let d: u32 = (c as u32) - ('0' as u32);
        let next: u32 = value * 10 + d;
        proof {
            assert(digits[i - start] == c);
            assert forall|k: int| 0 <= k < i - start + 1 implies '0' <= #[trigger] digits.subrange(
                0,
                i - start + 1,
            )[k] <= '9' by {
                if k < i - start {
                    assert(digits.subrange(0, i - start)[k] == digits[k]);
                }
            }
        }
        if next > 65535 {
            proof {
                assert(digits_value(digits, i - start + 1) == next);
                if all_digits(digits) {
                    digits_value_grows(digits, i - start + 1, digits.len() as int);
                }
            }
            return None;
        }
        value = next;
        i += 1;
    }
    proof {
        assert(digits.subrange(0, digits.len() as int) =~= digits);
    }
    Some(value as u16)
}

/// The port for the value of `PORT`: the number that it writes, or the default.
pub open spec fn port_of(value: Option<String>) -> u16 {
    match value {
        Some(text) => match u16_of(text@) {
            Some(port) => port,
            None => DEFAULT_PORT,
        },
        None => DEFAULT_PORT,
    }
}

/// The value of `WEBHOOK_URL` that is to be read as a URL: the value as it stands, unless it
/// is unset, empty or all white space.
pub open spec fn webhook_text(value: Option<String>) -> Option<Seq<char>> {
    match value {
        Some(text) => if trimmed(text@).len() > 0 {
            Some(text@)
        } else {
            None
        },
        None => None,
    }
}

/// What the settings hold besides the texts that are taken over.
pub struct Settled {
    pub hosting: bool,
    pub webhook: bool,
    pub port: u16,
}

/// What is to come of the values: the four variables that must be set are looked at in the
/// order database, token, key, hosting; then the hosting switch is read, then the URL.
pub open spec fn verdict(vars: EnvValues) -> Result<Settled, ErrorModel> {
    if vars.database_url is None {
        Err(ErrorModel::MissingEnv("DATABASE_URL"@))
    } else if vars.teloxide_token is None {
        Err(ErrorModel::MissingEnv("TELOXIDE_TOKEN"@))
    } else if vars.gemini_api_key is None {
        Err(ErrorModel::MissingEnv("GEMINI_API_KEY"@))
    } else {
        match vars.hosting {
            None => Err(ErrorModel::MissingEnv("HOSTING"@)),
            Some(raw) => match switch_of(lowercase_of(raw@)) {
                None => Err(ErrorModel::InvalidHosting(lowercase_of(raw@))),
                Some(hosting) => match webhook_text(vars.webhook_url) {
                    Some(text) => if url_parses(text) {
                        Ok(Settled { hosting, webhook: true, port: port_of(vars.port) })
                    } else {
                        Err(ErrorModel::InvalidWebhookUrl(text))
                    },
                    None => Ok(Settled { hosting, webhook: false, port: port_of(vars.port) }),
                },
            },
        }
    }
}

impl AppConfig {
    /// Makes the settings from the values of the variables, or says what is wrong with the
    /// first value that is missing or cannot be read.
    pub fn from_values(vars: EnvValues) -> (outcome: Result<AppConfig, ConfigError>)
        ensures
            match outcome {
                Ok(config) => {
                    &&& verdict(vars) == Ok::<Settled, ErrorModel>(
                        Settled {
                            hosting: config.hosting,
                            webhook: config.webhook_url is Some,
                            port: config.port,
                        },
                    )
                    &&& Some(config.database_url) == vars.database_url
                    &&& Some(config.token) == vars.teloxide_token
                    &&& Some(config.gemini_api_key) == vars.gemini_api_key
                },
                Err(error) => verdict(vars) == Err::<Settled, ErrorModel>(error@),
            },
    {
        let database_url = match vars.database_url {
            Some(value) => value,
            None => {
                return Err(ConfigError::MissingEnv("DATABASE_URL"));
            },
        };
        let token = match vars.teloxide_token {
            Some(value) => value,
            None => {
                return Err(ConfigError::MissingEnv("TELOXIDE_TOKEN"));
            },
        };
        let gemini_api_key = match vars.gemini_api_key {
            Some(value) => value,
            None => {
                return Err(ConfigError::MissingEnv("GEMINI_API_KEY"));
            },
        };
        let hosting_raw = match vars.hosting {
            Some(value) => value,
            None => {
                return Err(ConfigError::MissingEnv("HOSTING"));
            },
        };
        let lowered = to_lowercase(hosting_raw.as_str());
        let hosting = match switch_value(lowered.as_str()) {
            Some(on) => on,
            None => {
                return Err(ConfigError::InvalidHosting(lowered));
            },
        };
        let port = match &vars.port {
            Some(text) => match parse_u16(text.as_str()) {
                Some(port) => port,
                None => DEFAULT_PORT,
            },
            None => DEFAULT_PORT,
        };
        let webhook_url = match vars.webhook_url {
            Some(text) => {
                if trimmed_chars(text.as_str()).len() > 0 {
                    match parse_url(text.as_str()) {
                        Ok(url) => Some(url),
                        Err(_) => {
                            return Err(ConfigError::InvalidWebhookUrl(text));
                        },
                    }
                } else {
                    None
                }
            },
            None => None,
        };
        Ok(AppConfig { database_url, token, gemini_api_key, hosting, webhook_url, port })
    }
}

/// How the bot gets its updates.
#[derive(Clone, Copy, Debug, PartialEq, Eq, Structural)]
pub enum RunMode {
    /// It asks the chat service for them.
    Polling,
    /// The chat service sends them to the webhook.
    Webhook,
}

impl AppConfig {
    /// How the bot is to run: by polling where it is not hosted; by webhook where it is
    /// hosted and has the webhook's URL; and not at all where it is hosted without one.
    pub fn run_mode(&self) -> (mode: Result<RunMode, ConfigError>)
        ensures
            match mode {
                Ok(RunMode::Polling) => !self.hosting,
                Ok(RunMode::Webhook) => self.hosting && self.webhook_url is Some,
                Err(error) => self.hosting && self.webhook_url is None && error@
                    == ErrorModel::MissingEnv("WEBHOOK_URL"@),
            },
    {
        if !self.hosting {
            Ok(RunMode::Polling)
        } else if self.webhook_url.is_some() {
            Ok(RunMode::Webhook)
        } else {
            Err(ConfigError::MissingEnv("WEBHOOK_URL"))
        }
    }
}

} // verus!

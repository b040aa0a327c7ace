//! The configuration of the bot, as the environment gives it.
use vstd::prelude::*;

use crate::app_server::replies;
use crate::text;

verus! {

/// The configuration of the bot.
#[derive(Debug, Clone, PartialEq, Eq)]
pub struct BotConfig {
    pub token: String,
    pub allowed_user_id: i64,
    pub codex_path: String,
    pub drop_pending_updates: bool,
}

/// What a `BotConfig` says.
pub struct BotConfigModel {
    pub token: Seq<char>,
    pub allowed_user_id: i64,
    pub codex_path: Seq<char>,
    pub drop_pending_updates: bool,
}

impl View for BotConfig {
    type V = BotConfigModel;

    open spec fn view(&self) -> BotConfigModel {
        BotConfigModel {
            token: self.token@,
            allowed_user_id: self.allowed_user_id,
            codex_path: self.codex_path@,
            drop_pending_updates: self.drop_pending_updates,
        }
    }
}

/// The variables of the environment that configure the bot.
#[derive(Debug, Clone, PartialEq, Eq)]
pub struct BotEnv {
    pub telegram_bot_token: Option<String>,
    pub telegram_allowed_user_id: Option<String>,
    pub codex_path: Option<String>,
    pub drop_pending_updates: Option<String>,
}

/// The value of a variable that has to be set: trimmed, and not blank.
pub open spec fn required(name: Seq<char>, value: Option<Seq<char>>) -> Result<
    Seq<char>,
    Seq<char>,
> {
    match replies::trimmed_text(value) {
        Some(value) => Ok(value),
        None => Err(name + " 未配置"@),
    }
}

/// The text of an optional string.
pub fn as_opt_str(s: &Option<String>) -> (res: Option<&str>)
    ensures
        text::opt_str(res) == text::opt_text(*s),
{
    match s {
        Some(s) => Some(s.as_str()),
        None => None,
    }
}

/// The value of a variable that has to be set.
pub fn required_env(name: &str, value: Option<&str>) -> (res: Result<String, String>)
    ensures
        text::result_text(res) == required(name@, text::opt_str(value)),
{
    match replies::trimmed_or_none(value) {
        Some(value) => Ok(value.to_owned()),
        None => Err(text::cat(name, " 未配置")),
    }
}

/// Whether a value means yes.
pub open spec fn is_yes(value: Seq<char>) -> bool {
    ||| value == "1"@
    ||| value == "true"@
    ||| value == "TRUE"@
    ||| value == "yes"@
    ||| value == "YES"@
    ||| value == "on"@
    ||| value == "ON"@
}

/// The truth value of a variable: `default` where it is not set.
pub open spec fn flag(value: Option<Seq<char>>, default: bool) -> bool {
    match value {
        Some(value) => is_yes(text::trim(value)),
        None => default,
    }
}

/// The truth value of a variable.
pub fn env_bool(value: Option<&str>, default: bool) -> (res: bool)
    ensures
        res == flag(text::opt_str(value), default),
{
    match value {
        Some(value) => {
            let value = text::trimmed(value);
            text::eq(value, "1") || text::eq(value, "true") || text::eq(value, "TRUE")
                || text::eq(value, "yes") || text::eq(value, "YES") || text::eq(value, "on")
                || text::eq(value, "ON")
        },
        None => default,
    }
}

/// The value of a text of digits.
pub open spec fn digits_value(s: Seq<char>) -> int
    decreases s.len(),
{
    if s.len() == 0 {
        0
    } else {
        digits_value(s.drop_last()) * 10 + (s.last() as int - '0' as int)
    }
}

/// Whether `s` is made of digits, at least one.
pub open spec fn is_digits(s: Seq<char>) -> bool {
    s.len() > 0 && forall|i: int| 0 <= i < s.len() ==> '0' <= #[trigger] s[i] <= '9'
}

/// The integer that a text writes: digits, with a sign before them or without.
pub open spec fn integer_of(s: Seq<char>) -> Option<int> {
    if s.len() > 0 && s[0] == '-' {
        if is_digits(s.skip(1)) {
            Some(-digits_value(s.skip(1)))
        } else {
            None
        }
    } else if s.len() > 0 && s[0] == '+' {
        if is_digits(s.skip(1)) {
            Some(digits_value(s.skip(1)))
        } else {
            None
        }
    } else if is_digits(s) {
        Some(digits_value(s))
    } else {
        None
    }
}

/// The `i64` that a text writes.
pub open spec fn i64_of(s: Seq<char>) -> Option<i64> {
    match integer_of(s) {
        Some(n) => if i64::MIN <= n <= i64::MAX {
            Some(n as i64)
        } else {
            None
        },
        None => None,
    }
}

/// The message of `str::parse` for a text that writes no `i64`.
pub uninterp spec fn parse_i64_message(s: Seq<char>) -> Seq<char>;

/// The number of an outcome, where it has one.
pub open spec fn number_in(res: Result<i64, String>) -> Option<i64> {
    match res {
        Ok(n) => Some(n),
        Err(_) => None,
    }
}

/// The message of an outcome, where it has one.
pub open spec fn message_in(res: Result<i64, String>) -> Option<Seq<char>> {
    match res {
        Ok(_) => None,
        Err(message) => Some(message@),
    }
}

/// `str::parse` for an `i64`.
///
/// The contract claims that the number is the one that the text writes, that there is an error
/// exactly for a text that writes none, and that its message is the one that
/// `parse_i64_message` names.
#[verifier::external_body]
fn parse_i64(s: &str) -> (res: Result<i64, String>)
    ensures
        number_in(res) == i64_of(s@),
        res is Err ==> message_in(res) == Some(parse_i64_message(s@)),
{
    s.parse::<i64>().map_err(|err| err.to_string())
}

/// The configuration that variables of the environment give.
pub open spec fn config_of(
    token: Option<Seq<char>>,
    user_id: Option<Seq<char>>,
    codex_path: Option<Seq<char>>,
    drop_pending: Option<Seq<char>>,
) -> Result<BotConfigModel, Seq<char>> {
    match required("TELEGRAM_BOT_TOKEN"@, token) {
        Err(message) => Err(message),
        Ok(token) => match required("TELEGRAM_ALLOWED_USER_ID"@, user_id) {
            Err(message) => Err(message),
            Ok(user_id) => match i64_of(user_id) {
                None => Err(
                    "TELEGRAM_ALLOWED_USER_ID 不是有效数字："@ + parse_i64_message(user_id),
                ),
                Some(allowed_user_id) => Ok(
                    BotConfigModel {
                        token,
                        allowed_user_id,
                        codex_path: match codex_path {
                            Some(path) => path,
                            None => "codex"@,
                        },
                        drop_pending_updates: flag(drop_pending, true),
                    },
                ),
            },
        },
    }
}

/// Makes the configuration of the bot.
pub fn load_config(env: &BotEnv) -> (res: Result<BotConfig, String>)
    ensures
        match res {
            Ok(config) => config_of(
                text::opt_text(env.telegram_bot_token),
                text::opt_text(env.telegram_allowed_user_id),
                text::opt_text(env.codex_path),
                text::opt_text(env.drop_pending_updates),
            ) == Ok::<BotConfigModel, Seq<char>>(config@),
            Err(message) => config_of(
                text::opt_text(env.telegram_bot_token),
                text::opt_text(env.telegram_allowed_user_id),
                text::opt_text(env.codex_path),
                text::opt_text(env.drop_pending_updates),
            ) == Err::<BotConfigModel, Seq<char>>(message@),
        },
{
    let token = match required_env("TELEGRAM_BOT_TOKEN", as_opt_str(&env.telegram_bot_token)) {
        Ok(token) => token,
        Err(message) => {
            return Err(message);
        },
    };
    let user_id = match required_env(
        "TELEGRAM_ALLOWED_USER_ID",
        as_opt_str(&env.telegram_allowed_user_id),
    ) {
        Ok(user_id) => user_id,
        Err(message) => {
            return Err(message);
        },
    };
    let allowed_user_id = match parse_i64(user_id.as_str()) {
        Ok(id) => id,
        Err(message) => {
            return Err(
                text::cat("TELEGRAM_ALLOWED_USER_ID 不是有效数字：", message.as_str()),
            );
        },
    };
    let codex_path = match &env.codex_path {
        Some(path) => path.clone(),
        None => "codex".to_owned(),
    };
    let drop_pending_updates = env_bool(as_opt_str(&env.drop_pending_updates), true);
    Ok(BotConfig { token, allowed_user_id, codex_path, drop_pending_updates })
}

// ---------------------------------------------------------------------------
// Laws
// ---------------------------------------------------------------------------

/// A variable that has to be set is read trimmed; one that is missing or blank is reported by its
/// name.
pub proof fn law_required_variable_is_trimmed(
    name: &str,
    value: Option<&str>,
    res: Result<String, String>,
)
    requires
        call_ensures(required_env, (name, value), res),
    ensures
        match value {
            Some(value) => if text::is_blank(value@) {
                res is Err
            } else {
                res matches Ok(read) && read@ == text::trim(value@)
            },
            None => res is Err,
        },
        res matches Err(message) ==> message@ == name@ + " 未配置"@,
{
    if let Some(value) = value {
        text::lemma_trim_blank(value@);
    }
}

/// A variable means yes by the words for it alone, white space around them aside, and what was
/// meant by default where it is not set.
pub proof fn law_words_for_yes(value: Option<&str>, default: bool, res: bool)
    requires
        call_ensures(env_bool, (value, default), res),
    ensures
        value is None ==> res == default,
        value matches Some(value) ==> ({
            let said = text::trim(value@);
            res <==> {
                ||| said == "1"@
                ||| said == "true"@
                ||| said == "TRUE"@
                ||| said == "yes"@
                ||| said == "YES"@
                ||| said == "on"@
                ||| said == "ON"@
            }
        }),
{
}

/// The decimal text of a number writes that number.
pub proof fn lemma_decimal_value(n: nat)
    ensures
        digits_value(text::decimal(n)) == n,
        is_digits(text::decimal(n)),
    decreases n,
{
    text::lemma_decimal_digits(n);
    if n < 10 {
        let s = text::decimal(n);
        assert(s.drop_last() =~= Seq::<char>::empty());
        assert(digits_value(s.drop_last()) == 0);
        assert(s.last() as int - '0' as int == n);
    } else {
        lemma_decimal_value(n / 10);
        let s = text::decimal(n);
        assert(s.drop_last() =~= text::decimal(n / 10));
        assert(s.last() as int - '0' as int == n % 10);
    }
}

/// A text that writes a number in decimal, with a minus sign where it is negative, is read as that
/// number.
pub proof fn law_written_number_is_read(n: i64)
    ensures
        i64_of(text::signed_decimal(n as int)) == Some(n),
{
    let s = text::signed_decimal(n as int);
    if n < 0 {
        lemma_decimal_value((-n) as nat);
        assert(s.skip(1) =~= text::decimal((-n) as nat));
    } else {
        lemma_decimal_value(n as nat);
        assert(s[0] != '-' && s[0] != '+');
    }
}

/// The bot is configured by its variables: the token and the user are needed, the path of `codex`
/// is taken as it is or is `codex`, and updates that wait are dropped unless that is not wanted.
pub proof fn law_bot_is_configured_by_its_variables(
    env: &BotEnv,
    token: Result<String, String>,
    user: Result<String, String>,
    drop: bool,
    given_token: Option<&str>,
    given_user: Option<&str>,
    given_drop: Option<&str>,
    res: Result<BotConfig, String>,
)
    requires
        call_ensures(load_config, (env,), res),
        text::opt_str(given_token) == text::opt_text(env.telegram_bot_token),
        text::opt_str(given_user) == text::opt_text(env.telegram_allowed_user_id),
        text::opt_str(given_drop) == text::opt_text(env.drop_pending_updates),
        call_ensures(required_env, ("TELEGRAM_BOT_TOKEN", given_token), token),
        call_ensures(required_env, ("TELEGRAM_ALLOWED_USER_ID", given_user), user),
        call_ensures(env_bool, (given_drop, true), drop),
    ensures
        match (token, user) {
            (Err(message), _) => res matches Err(said) && said@ == message@,
            (Ok(_), Err(message)) => res matches Err(said) && said@ == message@,
            (Ok(token), Ok(user)) => match i64_of(user@) {
                Some(id) => res matches Ok(config) && {
                    &&& config.token@ == token@
                    &&& config.allowed_user_id == id
                    &&& config.codex_path@ == match env.codex_path {
                        Some(path) => path@,
                        None => "codex"@,
                    }
                    &&& config.drop_pending_updates == drop
                },
                None => res matches Err(said) && said@ == "TELEGRAM_ALLOWED_USER_ID 不是有效数字："@
                    + parse_i64_message(user@),
            },
        },
{
}

/// A number is written by digits that have its value, without a zero before them.
pub proof fn law_number_is_written_by_its_digits(n: u64, res: String)
    requires
        call_ensures(text::u64_text, (n,), res),
    ensures
        is_digits(res@),
        digits_value(res@) == n,
        n > 0 ==> res@[0] != '0',
        n == 0 ==> res@.len() == 1,
{
    lemma_decimal_value(n as nat);
    lemma_no_zero_before(n as nat);
}

/// No number but zero begins with a zero.
proof fn lemma_no_zero_before(n: nat)
    ensures
        n > 0 ==> text::decimal(n)[0] != '0',
    decreases n,
{
    text::lemma_decimal_digits(n);
    if n >= 10 {
        lemma_no_zero_before(n / 10);
        text::lemma_decimal_digits(n / 10);
        assert(text::decimal(n)[0] == text::decimal(n / 10)[0]);
    }
}

/// An optional text is handed on as it is.
pub proof fn law_optional_text_is_handed_on<'a>(s: &'a Option<String>, res: Option<&'a str>)
    requires
        call_ensures(as_opt_str, (s,), res),
    ensures
        match *s {
            Some(s) => res matches Some(found) && found@ == s@,
            None => res is None,
        },
{
}

} // verus!

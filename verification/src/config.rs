//! The bot's settings, from the values of its environment variables.
use vstd::prelude::*;

use crate::text::{all_digits, append_str, chars_of, digits_upto, digits_value, string_of};

verus! {

#[derive(Debug, Clone)]
pub struct Config {
    pub bot_token: String,
    pub order_chat_id: Option<i64>,
    pub calc_chat_id: Option<i64>,
}

/// What `i64::from_str` accepts: an optional sign and one or more decimal
/// digits whose value fits in `i64`.
pub open spec fn parse_i64(s: Seq<char>) -> Option<i64> {
    let neg = s.len() > 0 && s[0] == '-';
    let body = if s.len() > 0 && (s[0] == '+' || s[0] == '-') {
        s.drop_first()
    } else {
        s
    };
    if body.len() > 0 && all_digits(body) {
        if neg && digits_value(body) <= 0x8000_0000_0000_0000 {
            Some((0 - digits_value(body)) as i64)
        } else if !neg && digits_value(body) <= 0x7fff_ffff_ffff_ffff {
            Some(digits_value(body) as i64)
        } else {
            None
        }
    } else {
        None
    }
}

pub fn parse_i64_chars(s: &Vec<char>) -> (r: Option<i64>)
    ensures
        r == parse_i64(s@),
{
    let neg = s.len() > 0 && s[0] == '-';
    let start: usize = if s.len() > 0 && (s[0] == '+' || s[0] == '-') {
        1
    } else {
        0
    };
    assert(s@.skip(start as int) =~= (if s@.len() > 0 && (s@[0] == '+' || s@[0] == '-') {
        s@.drop_first()
    } else {
        s@
    }));
    if start >= s.len() {
        return None;
    }
    match digits_upto(s, start, 0x8000_0000_0000_0000u128) {
        Some(v) => {
            if neg {
                if v == 0x8000_0000_0000_0000u128 {
                    Some(i64::MIN)
                } else {
                    Some(0 - (v as i64))
                }
            } else if v <= 0x7fff_ffff_ffff_ffffu128 {
                Some(v as i64)
            } else {
                None
            }
        },
        None => None,
    }
}

pub open spec fn env_missing_error(name: Seq<char>) -> Seq<char> {
    name + " env berilmagan"@
}

pub open spec fn chat_id_error(name: Seq<char>) -> Seq<char> {
    name + " butun son bo'lishi kerak"@
}

/// A chat id variable: present and a whole number.
pub open spec fn chat_id_spec(name: Seq<char>, value: Option<Seq<char>>) -> Result<i64, Seq<char>> {
    match value {
        None => Err(env_missing_error(name)),
        Some(v) => match parse_i64(v) {
            Some(n) => Ok(n),
            None => Err(chat_id_error(name)),
        },
    }
}

fn require_env(name: &str, value: Option<String>) -> (r: Result<String, String>)
    ensures
        match (r, value) {
            (Ok(a), Some(b)) => a@ == b@,
            (Err(e), None) => e@ == env_missing_error(name@),
            _ => false,
        },
{
    match value {
        Some(v) => Ok(v),
        None => {
            let mut e = chars_of(name);
            append_str(&mut e, " env berilmagan");
            Err(string_of(&e))
        },
    }
}

pub fn parse_chat_id(name: &str, value: Option<String>) -> (r: Result<i64, String>)
    ensures
        match (r, chat_id_spec(name@, crate::order::opt_view(value))) {
            (Ok(a), Ok(b)) => a == b,
            (Err(a), Err(b)) => a@ == b,
            _ => false,
        },
{
    let text = require_env(name, value)?;
    let v = chars_of(text.as_str());
    match parse_i64_chars(&v) {
        Some(n) => Ok(n),
        None => {
            let mut e = chars_of(name);
            append_str(&mut e, " butun son bo'lishi kerak");
            Err(string_of(&e))
        },
    }
}

/// An optional chat id variable: left out, or a whole number.
pub open spec fn optional_chat_id_spec(name: Seq<char>, value: Option<Seq<char>>) -> Result<
    Option<i64>,
    Seq<char>,
> {
    match value {
        None => Ok(None),
        Some(v) => match parse_i64(v) {
            Some(n) => Ok(Some(n)),
            None => Err(chat_id_error(name)),
        },
    }
}

pub fn optional_chat_id(name: &str, value: Option<String>) -> (r: Result<Option<i64>, String>)
    ensures
        match (r, optional_chat_id_spec(name@, crate::order::opt_view(value))) {
            (Ok(a), Ok(b)) => a == b,
            (Err(a), Err(b)) => a@ == b,
            _ => false,
        },
{
    match value {
        None => Ok(None),
        Some(v) => {
            let n = parse_chat_id(name, Some(v))?;
            Ok(Some(n))
        },
    }
}

impl Config {
    /// The settings from the values of `BOT_TOKEN`, `ORDER_CHAT_ID` and
    /// `CALC_CHAT_ID` (`None` where a variable is not set). Only the token
    /// is required; the chats are usually registered with `/login`.
    pub fn from_env(
        bot_token: Option<String>,
        order_chat_id: Option<String>,
        calc_chat_id: Option<String>,
    ) -> (r: Result<Config, String>)
        ensures
            ({
                let o = optional_chat_id_spec("ORDER_CHAT_ID"@, crate::order::opt_view(order_chat_id));
                let c = optional_chat_id_spec("CALC_CHAT_ID"@, crate::order::opt_view(calc_chat_id));
                match bot_token {
                    None => r matches Err(e) && e@ == env_missing_error("BOT_TOKEN"@),
                    Some(t) => match (o, c) {
                        (Err(e), _) => r matches Err(m) && m@ == e,
                        (Ok(_), Err(e)) => r matches Err(m) && m@ == e,
                        (Ok(a), Ok(b)) => r matches Ok(cfg) && cfg.bot_token@ == t@
                            && cfg.order_chat_id == a && cfg.calc_chat_id == b,
                    },
                }
            }),
    {
        let bot_token = require_env("BOT_TOKEN", bot_token)?;
        let order_chat_id = optional_chat_id("ORDER_CHAT_ID", order_chat_id)?;
        let calc_chat_id = optional_chat_id("CALC_CHAT_ID", calc_chat_id)?;
        Ok(Config { bot_token, order_chat_id, calc_chat_id })
    }
}

} // verus!

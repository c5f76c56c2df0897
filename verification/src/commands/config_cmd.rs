//! `xfin config`: non-secret preferences (`path` / `show` / `set` /
//! `unset`). The session secret is not settable here; it belongs in the
//! keychain via `xfin auth login`.

use vstd::prelude::*;

use crate::config::{Config, ConfigV};
use crate::error::AppError;
use crate::text::{debug_quoted, debug_str, lower_chars, lower_seq, push_str, string_from, trim, trimmed};

verus! {

broadcast use {vstd::std_specs::vec::group_vec_axioms, vstd::seq::group_seq_axioms};

/// The booleans the CLI family accepts, after trimming and ASCII
/// lower-casing: `true`/`yes`/`on`/`1` and `false`/`no`/`off`/`0`.
pub open spec fn bool_word(w: Seq<char>) -> Option<bool> {
    if w == "true"@ || w == "yes"@ || w == "on"@ || w == "1"@ {
        Some(true)
    } else if w == "false"@ || w == "no"@ || w == "off"@ || w == "0"@ {
        Some(false)
    } else {
        None
    }
}

/// The word a boolean setting is read as.
pub open spec fn bool_text(v: Seq<char>) -> Seq<char> {
    lower_seq(trim(v))
}

/// The usage error for a value that is not a boolean.
pub open spec fn not_bool_msg(word: Seq<char>) -> Seq<char> {
    "expected a boolean (true/false), got "@ + debug_quoted(word)
}

/// Reads a boolean setting, with the family's aliases, in any case and
/// with surrounding whitespace.
pub fn parse_bool(v: &str) -> (res: Result<bool, AppError>)
    ensures
        match bool_word(bool_text(v@)) {
            Some(b) => res == Ok::<bool, AppError>(b),
            None => res matches Err(AppError::Usage(m)) && m@ == not_bool_msg(bool_text(v@)),
        },
{
    let t = trimmed(v);
    let w = lower_chars(&t);
    let yes = crate::text::is_text(&w, "true") || crate::text::is_text(&w, "yes")
        || crate::text::is_text(&w, "on") || crate::text::is_text(&w, "1");
    if yes {
        return Ok(true);
    }
    let no = crate::text::is_text(&w, "false") || crate::text::is_text(&w, "no")
        || crate::text::is_text(&w, "off") || crate::text::is_text(&w, "0");
    if no {
        return Ok(false);
    }
    let ws = string_from(&w);
    let mut m = String::new();
    push_str(&mut m, "expected a boolean (true/false), got ");
    let q = debug_str(ws.as_str());
    push_str(&mut m, q.as_str());
    Err(AppError::Usage(m))
}

/// The usage error for a key that is not a setting.
pub open spec fn unknown_key_msg(key: Seq<char>) -> Seq<char> {
    "unknown config key `"@ + key + "` (known: username, account, refresh_command, auto_refresh)"@
}

/// An optional text, by value.
pub open spec fn opt_text_view(o: Option<&str>) -> Option<Seq<char>> {
    crate::client::opt_text(o)
}

/// The config after setting (or, with `None`, clearing) `key`, or why not.
pub open spec fn applied(c: ConfigV, key: Seq<char>, value: Option<Seq<char>>) -> Result<
    ConfigV,
    (i32, Seq<char>),
> {
    if key == "username"@ {
        Ok(ConfigV { username: value, ..c })
    } else if key == "account"@ {
        Ok(ConfigV { account: value, ..c })
    } else if key == "refresh_command"@ {
        Ok(ConfigV { refresh_command: value, ..c })
    } else if key == "auto_refresh"@ {
        match value {
            None => Ok(ConfigV { auto_refresh: None, ..c }),
            Some(v) => match bool_word(bool_text(v)) {
                Some(b) => Ok(ConfigV { auto_refresh: Some(b), ..c }),
                None => Err((2, not_bool_msg(bool_text(v)))),
            },
        }
    } else {
        Err((2, unknown_key_msg(key)))
    }
}

fn owned_opt(value: Option<&str>) -> (res: Option<String>)
    ensures
        crate::profile::opt_string(res) == crate::client::opt_text(value),
{
    match value {
        Some(v) => Some(v.to_owned()),
        None => None,
    }
}

/// Applies one key/value to a config in memory; on an error the config is
/// left as it was.
pub fn apply_key(cfg: &mut Config, key: &str, value: Option<&str>) -> (res: Result<(), AppError>)
    ensures
        match applied(old(cfg)@, key@, opt_text_view(value)) {
            Ok(c) => res is Ok && final(cfg)@ == c,
            Err(v) => res matches Err(e) && crate::client::err_view(e) == v && final(cfg)@ == old(
                cfg,
            )@,
        },
{
    let k = crate::text::to_chars(key);
    if crate::text::is_text(&k, "username") {
        cfg.username = owned_opt(value);
    } else if crate::text::is_text(&k, "account") {
        cfg.account = owned_opt(value);
    } else if crate::text::is_text(&k, "refresh_command") {
        cfg.refresh_command = owned_opt(value);
    } else if crate::text::is_text(&k, "auto_refresh") {
        match value {
            None => {
                cfg.auto_refresh = None;
            },
            Some(v) => match parse_bool(v) {
                Ok(b) => {
                    cfg.auto_refresh = Some(b);
                },
                Err(e) => return Err(e),
            },
        }
    } else {
        let mut m = String::new();
        push_str(&mut m, "unknown config key `");
        push_str(&mut m, key);
        push_str(&mut m, "` (known: username, account, refresh_command, auto_refresh)");
        return Err(AppError::Usage(m));
    }
    Ok(())
}

/// The stderr line after a change: `set <key>` or `unset <key>`.
pub fn change_note(key: &str, set: bool) -> (res: String)
    ensures
        res@ == (if set {
            "set "@
        } else {
            "unset "@
        }) + key@,
{
    let mut m = String::new();
    if set {
        push_str(&mut m, "set ");
    } else {
        push_str(&mut m, "unset ");
    }
    push_str(&mut m, key);
    m
}

} // verus!

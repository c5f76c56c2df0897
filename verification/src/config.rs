//! Non-secret preferences: the default Xfinity username, optionally a default
//! account number, the refresh helper command, and whether to refresh
//! silently on session expiry. The session secret never lands here; it lives
//! in the OS keychain. The file is
//! `${XDG_CONFIG_HOME:-~/.config}/xfinity-cli/config.json`; this module
//! decides what it holds and where it is, the caller reads and writes it.

use vstd::prelude::*;

use crate::error::AppError;
use crate::json::{json_of, parse_json, push_member, text_value, view_members, Json, JsonV};
use crate::profile::{opt_string, text_member};
use crate::text::{push_str, to_chars};

verus! {

broadcast use {vstd::std_specs::vec::group_vec_axioms, vstd::seq::group_seq_axioms};

/// Non-secret preferences.
#[derive(Debug)]
pub struct Config {
    /// Default Xfinity login (email / username).
    pub username: Option<String>,
    /// Default Xfinity account number, if one was pinned.
    pub account: Option<String>,
    /// Shell command whose stdout is a fresh bearer token, for
    /// `xfin auth refresh`.
    pub refresh_command: Option<String>,
    /// Silently run the refresh command when a read fails with an expired
    /// session, then retry once. Unset means on.
    pub auto_refresh: Option<bool>,
}

/// Mathematical value of a [`Config`].
pub ghost struct ConfigV {
    pub username: Option<Seq<char>>,
    pub account: Option<Seq<char>>,
    pub refresh_command: Option<Seq<char>>,
    pub auto_refresh: Option<bool>,
}

impl View for Config {
    type V = ConfigV;

    open spec fn view(&self) -> ConfigV {
        ConfigV {
            username: opt_string(self.username),
            account: opt_string(self.account),
            refresh_command: opt_string(self.refresh_command),
            auto_refresh: self.auto_refresh,
        }
    }
}

impl Default for Config {
    fn default() -> (res: Config)
        ensures
            res.username is None,
            res.account is None,
            res.refresh_command is None,
            res.auto_refresh is None,
    {
        Config { username: None, account: None, refresh_command: None, auto_refresh: None }
    }
}

/// How removing the config file went.
pub enum Removal {
    /// The file was there and is gone.
    Removed,
    /// There was no file.
    Missing,
    /// The removal failed, with the system's reason.
    Failed(String),
}

/// A text member of a stored config: absent or null is unset, a string is
/// set, anything else is malformed.
pub open spec fn text_setting(v: JsonV, key: Seq<char>) -> Option<Option<Seq<char>>> {
    match v.get(key) {
        None => Some(None),
        Some(JsonV::Null) => Some(None),
        Some(JsonV::Str(s)) => Some(Some(s)),
        Some(_) => None,
    }
}

/// A boolean member of a stored config, read the same way.
pub open spec fn bool_setting(v: JsonV, key: Seq<char>) -> Option<Option<bool>> {
    match v.get(key) {
        None => Some(None),
        Some(JsonV::Null) => Some(None),
        Some(JsonV::Bool(b)) => Some(Some(b)),
        Some(_) => None,
    }
}

/// The config a stored document holds, when it is an object whose known
/// members have the right types (other members are ignored).
pub open spec fn config_of(v: JsonV) -> Option<ConfigV> {
    if v is Object && text_setting(v, "username"@) is Some && text_setting(v, "account"@) is Some
        && text_setting(v, "refresh_command"@) is Some && bool_setting(v, "auto_refresh"@) is Some {
        Some(
            ConfigV {
                username: text_setting(v, "username"@).unwrap(),
                account: text_setting(v, "account"@).unwrap(),
                refresh_command: text_setting(v, "refresh_command"@).unwrap(),
                auto_refresh: bool_setting(v, "auto_refresh"@).unwrap(),
            },
        )
    } else {
        None
    }
}

/// The stored form of a config: the set members only.
pub open spec fn config_json(c: ConfigV) -> JsonV {
    JsonV::Object(
        text_member("username"@, c.username) + text_member("account"@, c.account) + text_member(
            "refresh_command"@,
            c.refresh_command,
        ) + match c.auto_refresh {
            Some(b) => seq![("auto_refresh"@, JsonV::Bool(b))],
            None => Seq::empty(),
        },
    )
}

/// The config file path for the given `XDG_CONFIG_HOME` and `HOME` values:
/// under a non-empty `XDG_CONFIG_HOME`, else under `HOME/.config`.
pub open spec fn config_path(xdg: Option<Seq<char>>, home: Option<Seq<char>>) -> Option<Seq<char>> {
    match xdg {
        Some(x) if x.len() > 0 => Some(x + "/xfinity-cli/config.json"@),
        _ => match home {
            Some(h) if h.len() > 0 => Some(h + "/.config/xfinity-cli/config.json"@),
            _ => None,
        },
    }
}

/// The message for a stored config that is not well formed.
pub open spec fn malformed_config_msg(why: Seq<char>) -> Seq<char> {
    "config file is not valid: "@ + why
}

fn text_setting_of(v: &Json, key: &str) -> (res: Result<Option<String>, ()>)
    ensures
        match res {
            Ok(o) => text_setting(v@, key@) == Some(opt_string(o)),
            Err(_) => text_setting(v@, key@) is None,
        },
{
    match v.get(key) {
        None => Ok(None),
        Some(Json::Null) => Ok(None),
        Some(Json::Str(s)) => Ok(Some(s.clone())),
        Some(_) => Err(()),
    }
}

fn bool_setting_of(v: &Json, key: &str) -> (res: Result<Option<bool>, ()>)
    ensures
        match res {
            Ok(o) => bool_setting(v@, key@) == Some(o),
            Err(_) => bool_setting(v@, key@) is None,
        },
{
    match v.get(key) {
        None => Ok(None),
        Some(Json::Null) => Ok(None),
        Some(Json::Bool(b)) => Ok(Some(*b)),
        Some(_) => Err(()),
    }
}

fn push_text_setting(members: &mut Vec<(String, Json)>, key: &str, o: &Option<String>)
    ensures
        view_members(final(members)@) == view_members(old(members)@) + text_member(
            key@,
            opt_string(*o),
        ),
{
    match o {
        Some(t) => push_member(members, key, text_value(t.as_str())),
        None => {
            assert(view_members(members@) =~= view_members(members@) + Seq::empty());
        },
    }
}

fn message(prefix: &str, why: &str) -> (res: String)
    ensures
        res@ == prefix@ + why@,
{
    let mut s = String::new();
    push_str(&mut s, prefix);
    push_str(&mut s, why);
    s
}

impl Config {
    /// The config read from its file: `file` is the file's bytes, `None`
    /// when there is no file (all defaults); the bytes are read as JSON.
    pub fn load(file: Option<Vec<u8>>) -> (res: Result<Config, AppError>)
        ensures
            match file {
                None => res matches Ok(c) && c@ == (ConfigV {
                    username: None,
                    account: None,
                    refresh_command: None,
                    auto_refresh: None,
                }),
                Some(b) => match json_of(b@) {
                    Err(why) => res matches Err(AppError::Other(m)) && m@ == malformed_config_msg(
                        why,
                    ),
                    Ok(v) => match config_of(v) {
                        Some(c) => res matches Ok(r) && r@ == c,
                        None => res matches Err(AppError::Other(m)) && m@ == malformed_config_msg(
                            "unexpected value types"@,
                        ),
                    },
                },
            },
    {
        match file {
            None => Config::from_document(None),
            Some(b) => Config::from_document(Some(parse_json(b.as_slice()))),
        }
    }

    /// The config from its file already read as JSON: `file` is `None` when
    /// there is no file (all defaults), else a JSON document, or the
    /// parser's complaint.
    pub fn from_document(file: Option<Result<Json, String>>) -> (res: Result<Config, AppError>)
        ensures
            match file {
                None => res matches Ok(c) && c@ == (ConfigV {
                    username: None,
                    account: None,
                    refresh_command: None,
                    auto_refresh: None,
                }),
                Some(Err(why)) => res matches Err(AppError::Other(m)) && m@
                    == malformed_config_msg(why@),
                Some(Ok(v)) => match config_of(v@) {
                    Some(c) => res matches Ok(r) && r@ == c,
                    None => res matches Err(AppError::Other(m)) && m@ == malformed_config_msg(
                        "unexpected value types"@,
                    ),
                },
            },
    {
        match file {
            None => Ok(Config::default()),
            Some(Err(why)) => Err(
                AppError::Other(message("config file is not valid: ", why.as_str())),
            ),
            Some(Ok(v)) => {
                let bad = AppError::Other(
                    message("config file is not valid: ", "unexpected value types"),
                );
                if !matches!(v, Json::Object(_)) {
                    return Err(bad);
                }
                let username = match text_setting_of(&v, "username") {
                    Ok(o) => o,
                    Err(_) => return Err(bad),
                };
                let account = match text_setting_of(&v, "account") {
                    Ok(o) => o,
                    Err(_) => return Err(bad),
                };
                let refresh_command = match text_setting_of(&v, "refresh_command") {
                    Ok(o) => o,
                    Err(_) => return Err(bad),
                };
                let auto_refresh = match bool_setting_of(&v, "auto_refresh") {
                    Ok(o) => o,
                    Err(_) => return Err(bad),
                };
                Ok(Config { username, account, refresh_command, auto_refresh })
            },
        }
    }

    /// The document to store: the set members only.
    pub fn save(&self) -> (res: Json)
        ensures
            res@ == config_json(self@),
    {
        let mut members: Vec<(String, Json)> = Vec::new();
        push_text_setting(&mut members, "username", &self.username);
        push_text_setting(&mut members, "account", &self.account);
        push_text_setting(&mut members, "refresh_command", &self.refresh_command);
        let ghost head = view_members(members@);
        match self.auto_refresh {
            Some(b) => push_member(&mut members, "auto_refresh", Json::Bool(b)),
            None => {},
        }
        assert(view_members(members@) =~= text_member("username"@, self@.username) + text_member(
            "account"@,
            self@.account,
        ) + text_member("refresh_command"@, self@.refresh_command) + match self.auto_refresh {
            Some(b) => seq![("auto_refresh"@, JsonV::Bool(b))],
            None => Seq::<(Seq<char>, JsonV)>::empty(),
        });
        Json::Object(members)
    }

    /// The resolved config file path (`xfin config path`), from the values of
    /// `XDG_CONFIG_HOME` and `HOME`.
    pub fn path(xdg: Option<&str>, home: Option<&str>) -> (res: Result<String, AppError>)
        ensures
            match config_path(crate::client::opt_text(xdg), crate::client::opt_text(home)) {
                Some(p) => res matches Ok(s) && s@ == p,
                None => res matches Err(AppError::Other(m)) && m@
                    == "cannot locate a config directory (set HOME or XDG_CONFIG_HOME)"@,
            },
    {
        if let Some(x) = xdg {
            if to_chars(x).len() > 0 {
                return Ok(message(x, "/xfinity-cli/config.json"));
            }
        }
        if let Some(h) = home {
            if to_chars(h).len() > 0 {
                return Ok(message(h, "/.config/xfinity-cli/config.json"));
            }
        }
        Err(
            AppError::Other(
                "cannot locate a config directory (set HOME or XDG_CONFIG_HOME)".to_owned(),
            ),
        )
    }

    /// Whether removing the config file (`logout --forget`) removed one.
    pub fn clear(removal: Removal) -> (res: Result<bool, AppError>)
        ensures
            match removal {
                Removal::Removed => res == Ok::<bool, AppError>(true),
                Removal::Missing => res == Ok::<bool, AppError>(false),
                Removal::Failed(why) => res matches Err(AppError::Other(m)) && m@
                    == "removing config: "@ + why@,
            },
    {
        match removal {
            Removal::Removed => Ok(true),
            Removal::Missing => Ok(false),
            Removal::Failed(why) => Err(AppError::Other(message("removing config: ", why.as_str()))),
        }
    }

    /// Whether to silently invoke the refresh command on session expiry:
    /// on unless switched off.
    pub fn auto_refresh(&self) -> (res: bool)
        ensures
            res == match self.auto_refresh {
                Some(b) => b,
                None => true,
            },
    {
        match self.auto_refresh {
            Some(b) => b,
            None => true,
        }
    }
}

/// Two texts differ when their lengths differ or some position differs.
proof fn texts_differ(a: Seq<char>, b: Seq<char>, i: int)
    requires
        a.len() != b.len() || (0 <= i < a.len() && i < b.len() && a[i] != b[i]),
    ensures
        a != b,
{
}

proof fn lemma_text_member(key: Seq<char>, o: Option<Seq<char>>, k: Seq<char>)
    ensures
        crate::json::member(text_member(key, o), k) == if key == k && o is Some {
            Some(JsonV::Str(o.unwrap()))
        } else {
            None::<JsonV>
        },
{
    reveal_with_fuel(crate::json::member, 2);
    if o is Some {
        assert(text_member(key, o).drop_first().len() == 0);
    }
}

proof fn lemma_flag_member(c: Option<bool>, k: Seq<char>)
    ensures
        crate::json::member(
            match c {
                Some(x) => seq![("auto_refresh"@, JsonV::Bool(x))],
                None => Seq::<(Seq<char>, JsonV)>::empty(),
            },
            k,
        ) == if "auto_refresh"@ == k && c is Some {
            Some(JsonV::Bool(c.unwrap()))
        } else {
            None::<JsonV>
        },
{
    reveal_with_fuel(crate::json::member, 2);
}

/// What is saved is what is loaded back: the stored form of a config reads
/// back as the same config.
pub proof fn saved_config_loads_back(c: ConfigV)
    ensures
        config_of(config_json(c)) == Some(c),
{
    reveal_strlit("username");
    reveal_strlit("account");
    reveal_strlit("refresh_command");
    reveal_strlit("auto_refresh");
    let keys = seq!["username"@, "account"@, "refresh_command"@, "auto_refresh"@];
    texts_differ("username"@, "account"@, 0);
    texts_differ("username"@, "refresh_command"@, 0);
    texts_differ("username"@, "auto_refresh"@, 0);
    texts_differ("account"@, "refresh_command"@, 0);
    texts_differ("account"@, "auto_refresh"@, 1);
    texts_differ("refresh_command"@, "auto_refresh"@, 0);
    let a = text_member("username"@, c.username);
    let b = text_member("account"@, c.account);
    let r = text_member("refresh_command"@, c.refresh_command);
    let z = match c.auto_refresh {
        Some(x) => seq![("auto_refresh"@, JsonV::Bool(x))],
        None => Seq::<(Seq<char>, JsonV)>::empty(),
    };
    let v = config_json(c);
    assert(v == JsonV::Object(a + b + r + z));
    assert forall|k: Seq<char>| #[trigger] crate::json::member(a + b + r + z, k) == if crate::json::member(a, k) is Some {
        crate::json::member(a, k)
    } else if crate::json::member(b, k) is Some {
        crate::json::member(b, k)
    } else if crate::json::member(r, k) is Some {
        crate::json::member(r, k)
    } else {
        crate::json::member(z, k)
    } by {
        crate::json::lemma_member_concat(a + b + r, z, k);
        crate::json::lemma_member_concat(a + b, r, k);
        crate::json::lemma_member_concat(a, b, k);
    }
    lemma_text_member("username"@, c.username, "username"@);
    lemma_text_member("account"@, c.account, "username"@);
    lemma_text_member("refresh_command"@, c.refresh_command, "username"@);
    lemma_text_member("username"@, c.username, "account"@);
    lemma_text_member("account"@, c.account, "account"@);
    lemma_text_member("refresh_command"@, c.refresh_command, "account"@);
    lemma_text_member("username"@, c.username, "refresh_command"@);
    lemma_text_member("account"@, c.account, "refresh_command"@);
    lemma_text_member("refresh_command"@, c.refresh_command, "refresh_command"@);
    lemma_text_member("username"@, c.username, "auto_refresh"@);
    lemma_text_member("account"@, c.account, "auto_refresh"@);
    lemma_text_member("refresh_command"@, c.refresh_command, "auto_refresh"@);
    lemma_flag_member(c.auto_refresh, "username"@);
    lemma_flag_member(c.auto_refresh, "account"@);
    lemma_flag_member(c.auto_refresh, "refresh_command"@);
    lemma_flag_member(c.auto_refresh, "auto_refresh"@);
    assert(crate::json::member(a + b + r + z, "username"@) == crate::json::member(a, "username"@));
    assert(text_setting(v, "username"@) == Some(c.username));
    assert(text_setting(v, "account"@) == Some(c.account));
    assert(text_setting(v, "refresh_command"@) == Some(c.refresh_command));
    assert(bool_setting(v, "auto_refresh"@) == Some(c.auto_refresh));
}

} // verus!

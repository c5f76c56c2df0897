//! `xfin auth`: session capture, refresh, status, and logout.
//!
//! Login sends no password. Xfinity's login page rejects non-browser
//! clients, so the user logs in once in a real browser and hands the
//! resulting `Authorization: Bearer` token to `xfin auth login`, which stores
//! it in the OS keychain. The token enters via `--stdin` or `--from-env`,
//! never a flag. `xfin auth refresh` runs a user-supplied helper that prints
//! a fresh token.

use vstd::prelude::*;

use crate::client::{err_view, opt_text};
use crate::error::AppError;
use crate::json::{push_member, text_value, view_members, Json, JsonV};
use crate::profile::opt_string;
use crate::text::{debug_quoted, debug_str, push_str, string_from, to_chars, trim, trimmed};

verus! {

broadcast use {vstd::std_specs::vec::group_vec_axioms, vstd::seq::group_seq_axioms};

/// The environment variable a refresh command may come from.
pub const REFRESH_ENV: &'static str = "XFINITY_REFRESH_COMMAND";

/// The first present of flag, environment and config, trimmed; blank
/// counts as none.
pub open spec fn refresh_command_of(
    flag: Option<Seq<char>>,
    env: Option<Seq<char>>,
    cfg: Option<Seq<char>>,
) -> Option<Seq<char>> {
    let first = if flag is Some {
        flag
    } else if env is Some {
        env
    } else {
        cfg
    };
    match first {
        Some(c) => if trim(c).len() > 0 {
            Some(trim(c))
        } else {
            None
        },
        None => None,
    }
}

/// Resolves the refresh command from (in order) the `--command` flag,
/// `$XFINITY_REFRESH_COMMAND`, then the saved config value.
pub fn resolve_refresh_command(flag: Option<&str>, env: Option<&str>, cfg: Option<&str>) -> (res:
    Option<String>)
    ensures
        opt_string(res) == refresh_command_of(opt_text(flag), opt_text(env), opt_text(cfg)),
{
    let first = match flag {
        Some(f) => Some(f),
        None => match env {
            Some(e) => Some(e),
            None => cfg,
        },
    };
    match first {
        Some(c) => {
            let t = trimmed(c);
            if t.len() > 0 {
                Some(string_from(&t))
            } else {
                None
            }
        },
        None => None,
    }
}

/// The refresh command the silent-refresh path uses: the environment, then
/// config (there is no flag on that path).
pub fn refresh_command_for_auto(env: Option<&str>, cfg: Option<&str>) -> (res: Option<String>)
    ensures
        opt_string(res) == refresh_command_of(None, opt_text(env), opt_text(cfg)),
{
    resolve_refresh_command(None, env, cfg)
}

// ---------------------------------------------------------------------------
// The refresh helper's output
// ---------------------------------------------------------------------------

/// The last line of a text (after its last newline).
pub open spec fn last_line(t: Seq<char>) -> Seq<char>
    decreases t.len(),
{
    if t.len() == 0 {
        t
    } else if t.last() == '\n' {
        Seq::empty()
    } else {
        last_line(t.drop_last()).push(t.last())
    }
}

/// The hint a failed helper's stderr gives: its last non-blank-trimmed line.
pub open spec fn stderr_hint(stderr: Seq<char>) -> Seq<char> {
    trim(last_line(trim(stderr)))
}

/// The message for a helper that exited unsuccessfully.
pub open spec fn helper_failed_msg(status: Seq<char>, stderr: Seq<char>) -> Seq<char> {
    "refresh command failed ("@ + status + ")"@ + if stderr_hint(stderr).len() == 0 {
        Seq::empty()
    } else {
        ": "@ + stderr_hint(stderr)
    }
}

/// What the refresh helper printed and how it exited.
pub struct CommandOutput {
    /// It exited successfully.
    pub success: bool,
    /// Its exit status as text (`exit status: 1`).
    pub status: String,
    /// Its stdout, decoded.
    pub stdout: String,
    /// Its stderr, decoded.
    pub stderr: String,
}

/// The token a helper run gives: its trimmed stdout when it succeeded and
/// printed one.
pub open spec fn helper_token(ran: Result<CommandOutput, String>) -> Result<Seq<char>, (i32, Seq<char>)> {
    match ran {
        Err(why) => Err((1, "failed to run refresh command: "@ + why@)),
        Ok(o) => if !o.success {
            Err((1, helper_failed_msg(o.status@, o.stderr@)))
        } else if trim(o.stdout@).len() == 0 {
            Err((1, "refresh command produced no token on stdout"@))
        } else {
            Ok(trim(o.stdout@))
        },
    }
}

fn last_line_of(t: &Vec<char>) -> (res: Vec<char>)
    ensures
        res@ == last_line(t@),
{
    let mut k = t.len();
    while k > 0 && t[k - 1] != '\n'
        invariant
            k <= t@.len(),
            forall|j: int| k <= j < t@.len() ==> (#[trigger] t@[j]) != '\n',
        decreases k,
    {
        k = k - 1;
    }
    proof {
        lemma_last_line(t@, k as int);
    }
    crate::text::tail_from(t, k)
}

proof fn lemma_last_line(t: Seq<char>, k: int)
    requires
        0 <= k <= t.len(),
        forall|j: int| k <= j < t.len() ==> (#[trigger] t[j]) != '\n',
        k == 0 || t[k - 1] == '\n',
    ensures
        last_line(t) == t.subrange(k, t.len() as int),
    decreases t.len(),
{
    if t.len() > 0 {
        if t.len() == k {
            assert(t.last() == '\n');
        } else {
            lemma_last_line(t.drop_last(), k);
            assert(t.drop_last().subrange(k, t.len() - 1).push(t.last()) =~= t.subrange(
                k,
                t.len() as int,
            ));
        }
    }
}

/// Judges a run of the refresh helper: the token it printed, or why there
/// is none.
pub fn helper_result(ran: Result<CommandOutput, String>) -> (res: Result<String, AppError>)
    ensures
        match helper_token(ran) {
            Ok(t) => res matches Ok(s) && s@ == t,
            Err(v) => res matches Err(e) && err_view(e) == v && e is Other,
        },
{
    match ran {
        Err(why) => {
            let mut m = String::new();
            push_str(&mut m, "failed to run refresh command: ");
            push_str(&mut m, why.as_str());
            Err(AppError::Other(m))
        },
        Ok(o) => {
            if !o.success {
                let e = trimmed(o.stderr.as_str());
                let line = last_line_of(&e);
                let ls = string_from(&line);
                let hint = trimmed(ls.as_str());
                let mut m = String::new();
                push_str(&mut m, "refresh command failed (");
                push_str(&mut m, o.status.as_str());
                push_str(&mut m, ")");
                if hint.len() > 0 {
                    push_str(&mut m, ": ");
                    let hs = string_from(&hint);
                    push_str(&mut m, hs.as_str());
                }
                return Err(AppError::Other(m));
            }
            let t = trimmed(o.stdout.as_str());
            if t.len() == 0 {
                return Err(AppError::Other("refresh command produced no token on stdout".to_owned()));
            }
            Ok(string_from(&t))
        },
    }
}

// ---------------------------------------------------------------------------
// Reports
// ---------------------------------------------------------------------------

/// The `--json` report of a refresh.
pub open spec fn refresh_json(username: Seq<char>, verified: bool) -> JsonV {
    JsonV::Object(
        seq![
            ("status"@, JsonV::Str("refreshed"@)),
            ("username"@, JsonV::Str(username)),
            ("verified"@, JsonV::Bool(verified)),
        ],
    )
}

/// The `--json` report of a refresh.
pub fn refresh_report(username: &str, verified: bool) -> (res: Json)
    ensures
        res@ == refresh_json(username@, verified),
{
    let mut m: Vec<(String, Json)> = Vec::new();
    push_member(&mut m, "status", text_value("refreshed"));
    push_member(&mut m, "username", text_value(username));
    push_member(&mut m, "verified", Json::Bool(verified));
    assert(view_members(m@) =~= seq![
        ("status"@, JsonV::Str("refreshed"@)),
        ("username"@, JsonV::Str(username@)),
        ("verified"@, JsonV::Bool(verified)),
    ]);
    Json::Object(m)
}

/// The `--json` report of a login.
pub open spec fn login_json(username: Seq<char>, verified: bool, overwritten: bool) -> JsonV {
    JsonV::Object(
        seq![
            ("status"@, JsonV::Str("stored"@)),
            ("username"@, JsonV::Str(username)),
            ("verified"@, JsonV::Bool(verified)),
            ("overwritten"@, JsonV::Bool(overwritten)),
        ],
    )
}

/// The `--json` report of a login.
pub fn login_report(username: &str, verified: bool, overwritten: bool) -> (res: Json)
    ensures
        res@ == login_json(username@, verified, overwritten),
{
    let mut m: Vec<(String, Json)> = Vec::new();
    push_member(&mut m, "status", text_value("stored"));
    push_member(&mut m, "username", text_value(username));
    push_member(&mut m, "verified", Json::Bool(verified));
    push_member(&mut m, "overwritten", Json::Bool(overwritten));
    assert(view_members(m@) =~= seq![
        ("status"@, JsonV::Str("stored"@)),
        ("username"@, JsonV::Str(username@)),
        ("verified"@, JsonV::Bool(verified)),
        ("overwritten"@, JsonV::Bool(overwritten)),
    ]);
    Json::Object(m)
}

/// The stderr line after logging out.
pub fn logout_note(removed: bool) -> (res: String)
    ensures
        res@ == "logged out"@ + if removed {
            " and cleared stored session"@
        } else {
            Seq::empty()
        },
{
    let mut m = String::new();
    push_str(&mut m, "logged out");
    if removed {
        push_str(&mut m, " and cleared stored session");
    }
    m
}

/// The username `auth status` and `auth logout` act on: the flag value,
/// else config, else the environment value.
pub fn status_username(flag: Option<&str>, cfg: Option<&str>, env: Option<&str>) -> (res: Option<
    String,
>)
    ensures
        opt_string(res) == match opt_text(flag) {
            Some(u) => Some(u),
            None => match opt_text(cfg) {
                Some(u) => Some(u),
                None => opt_text(env),
            },
        },
{
    match flag {
        Some(u) => Some(u.to_owned()),
        None => match cfg {
            Some(u) => Some(u.to_owned()),
            None => match env {
                Some(u) => Some(u.to_owned()),
                None => None,
            },
        },
    }
}

/// How far `auth logout` has come.
pub enum LogoutState {
    /// Nothing done yet.
    Start,
    /// Waiting for the entry under the current service name to be deleted.
    DeletingCurrent,
    /// Waiting for the legacy entry to be deleted; `current` is whether the
    /// current one was removed.
    DeletingLegacy { current: bool },
    /// Waiting for the config to be cleared; `removed` is whether a session
    /// was removed.
    Clearing { removed: bool },
    /// Finished.
    Over,
}

/// What the caller reports back after performing a [`LogoutAction`].
pub enum LogoutEvent {
    /// Nothing performed yet.
    Start,
    /// A keychain entry was deleted (`true` when there was one), or not.
    Deleted(Result<bool, AppError>),
    /// The config was cleared, or not.
    Cleared(Result<(), AppError>),
}

/// What `auth logout` asks the caller to do next.
pub enum LogoutAction {
    /// Delete the user's keychain entry under `service`.
    Delete { service: String },
    /// Clear the saved username and account from config.
    ClearConfig,
    /// Done: whether a stored session was removed, or why it failed.
    Finished(Result<bool, AppError>),
}

/// One step of `auth logout`: the next state and the action.
pub struct LogoutStep {
    pub next: LogoutState,
    pub action: LogoutAction,
}

/// Mathematical value of a [`LogoutState`]: stage and the flag it carries.
pub open spec fn logout_state_view(s: LogoutState) -> (int, bool) {
    match s {
        LogoutState::Start => (0, false),
        LogoutState::DeletingCurrent => (1, false),
        LogoutState::DeletingLegacy { current } => (2, current),
        LogoutState::Clearing { removed } => (3, removed),
        LogoutState::Over => (4, false),
    }
}

/// Mathematical value of a [`LogoutEvent`].
pub ghost enum LogoutEventV {
    Start,
    Deleted(Result<bool, (i32, Seq<char>)>),
    Cleared(Result<(), (i32, Seq<char>)>),
}

/// The value of an event.
pub open spec fn logout_event_view(e: LogoutEvent) -> LogoutEventV {
    match e {
        LogoutEvent::Start => LogoutEventV::Start,
        LogoutEvent::Deleted(Ok(b)) => LogoutEventV::Deleted(Ok(b)),
        LogoutEvent::Deleted(Err(x)) => LogoutEventV::Deleted(Err(err_view(x))),
        LogoutEvent::Cleared(Ok(())) => LogoutEventV::Cleared(Ok(())),
        LogoutEvent::Cleared(Err(x)) => LogoutEventV::Cleared(Err(err_view(x))),
    }
}

/// Mathematical value of a [`LogoutAction`].
pub ghost enum LogoutActionV {
    Delete(Seq<char>),
    ClearConfig,
    Finished(Result<bool, (i32, Seq<char>)>),
}

/// The value of an action.
pub open spec fn logout_action_view(a: LogoutAction) -> LogoutActionV {
    match a {
        LogoutAction::Delete { service } => LogoutActionV::Delete(service@),
        LogoutAction::ClearConfig => LogoutActionV::ClearConfig,
        LogoutAction::Finished(Ok(b)) => LogoutActionV::Finished(Ok(b)),
        LogoutAction::Finished(Err(x)) => LogoutActionV::Finished(Err(err_view(x))),
    }
}

/// After the session entries are gone (`removed` when one was): clear the
/// config when `forget`, else finish.
pub open spec fn logout_after_delete(forget: bool, removed: bool) -> ((int, bool), LogoutActionV) {
    if forget {
        ((3, removed), LogoutActionV::ClearConfig)
    } else {
        ((4, false), LogoutActionV::Finished(Ok(removed)))
    }
}

/// One step of `auth logout` for a known user (`has_user`) or none: delete
/// the session under the current service name, then under the legacy one
/// (a failure of either ends the logout with it), then clear the config
/// when `forget` (a failure ends it too); finally report whether a session
/// was removed.
pub open spec fn logout_next(state: (int, bool), has_user: bool, forget: bool, ev: LogoutEventV) -> (
    (int, bool),
    LogoutActionV,
) {
    let protocol = ((4, false), LogoutActionV::Finished(Err((1, flow_protocol_msg()))));
    if state.0 == 0 {
        if has_user {
            ((1, false), LogoutActionV::Delete(crate::commands::SERVICE@))
        } else {
            logout_after_delete(forget, false)
        }
    } else if state.0 == 1 {
        match ev {
            LogoutEventV::Deleted(Err(e)) => ((4, false), LogoutActionV::Finished(Err(e))),
            LogoutEventV::Deleted(Ok(a)) => (
                (2, a),
                LogoutActionV::Delete(crate::commands::LEGACY_SERVICE@),
            ),
            _ => protocol,
        }
    } else if state.0 == 2 {
        match ev {
            LogoutEventV::Deleted(Err(e)) => ((4, false), LogoutActionV::Finished(Err(e))),
            LogoutEventV::Deleted(Ok(b)) => logout_after_delete(forget, state.1 || b),
            _ => protocol,
        }
    } else if state.0 == 3 {
        match ev {
            LogoutEventV::Cleared(Err(e)) => ((4, false), LogoutActionV::Finished(Err(e))),
            LogoutEventV::Cleared(Ok(())) => ((4, false), LogoutActionV::Finished(Ok(state.1))),
            _ => protocol,
        }
    } else {
        protocol
    }
}

fn logout_done(forget: bool, removed: bool) -> (res: LogoutStep)
    ensures
        (logout_state_view(res.next), logout_action_view(res.action)) == logout_after_delete(
            forget,
            removed,
        ),
{
    if forget {
        LogoutStep { next: LogoutState::Clearing { removed }, action: LogoutAction::ClearConfig }
    } else {
        LogoutStep { next: LogoutState::Over, action: LogoutAction::Finished(Ok(removed)) }
    }
}

fn logout_failed(e: AppError) -> (res: LogoutStep)
    ensures
        logout_state_view(res.next) == (4int, false),
        logout_action_view(res.action) == LogoutActionV::Finished(Err(err_view(e))),
{
    LogoutStep { next: LogoutState::Over, action: LogoutAction::Finished(Err(e)) }
}

/// `auth logout`: call first with [`LogoutState::Start`] and
/// [`LogoutEvent::Start`]; perform each action for the user and call again
/// with the state handed back and the outcome, until `Finished`.
pub fn logout_step(state: LogoutState, has_user: bool, forget: bool, ev: LogoutEvent) -> (res:
    LogoutStep)
    ensures
        (logout_state_view(res.next), logout_action_view(res.action)) == logout_next(
            logout_state_view(state),
            has_user,
            forget,
            logout_event_view(ev),
        ),
{
    let protocol = logout_failed(AppError::Other("reply does not match the pending action".to_owned()));
    match state {
        LogoutState::Start => if has_user {
            LogoutStep {
                next: LogoutState::DeletingCurrent,
                action: LogoutAction::Delete { service: crate::commands::SERVICE.to_owned() },
            }
        } else {
            logout_done(forget, false)
        },
        LogoutState::DeletingCurrent => match ev {
            LogoutEvent::Deleted(Err(e)) => logout_failed(e),
            LogoutEvent::Deleted(Ok(a)) => LogoutStep {
                next: LogoutState::DeletingLegacy { current: a },
                action: LogoutAction::Delete {
                    service: crate::commands::LEGACY_SERVICE.to_owned(),
                },
            },
            _ => protocol,
        },
        LogoutState::DeletingLegacy { current } => match ev {
            LogoutEvent::Deleted(r) => match crate::commands::delete_session(Ok(current), r) {
                Err(e) => logout_failed(e),
                Ok(removed) => logout_done(forget, removed),
            },
            _ => protocol,
        },
        LogoutState::Clearing { removed } => match ev {
            LogoutEvent::Cleared(Err(e)) => logout_failed(e),
            LogoutEvent::Cleared(Ok(())) => LogoutStep {
                next: LogoutState::Over,
                action: LogoutAction::Finished(Ok(removed)),
            },
            _ => protocol,
        },
        LogoutState::Over => protocol,
    }
}

// ---------------------------------------------------------------------------
// `auth refresh`
// ---------------------------------------------------------------------------

/// The usage error when no refresh command is configured.
pub open spec fn no_refresh_command_msg() -> Seq<char> {
    "no refresh command configured — pass `--command <cmd>` (optionally with `--save`), set $XFINITY_REFRESH_COMMAND, or add `refresh_command` to config. The command must print a fresh `Authorization: Bearer …` token on stdout."@
}

/// The usage error for `--save` without `--command`.
pub open spec fn save_needs_command_msg() -> Seq<char> {
    "--save requires --command <cmd> to persist"@
}

/// The message for a reply that does not answer the pending action.
pub open spec fn flow_protocol_msg() -> Seq<char> {
    "reply does not match the pending action"@
}

/// What the caller reports back after performing a [`RefreshAction`].
pub enum RefreshEvent {
    /// Nothing performed yet.
    Proceed,
    /// The command was saved to config (or not).
    Saved(Result<(), AppError>),
    /// The helper ran (or could not be started, with the reason).
    Ran(Result<CommandOutput, String>),
    /// The token was checked against the service (or rejected).
    Verified(Result<(), AppError>),
    /// The token was stored in the keychain (or not).
    Stored(Result<(), AppError>),
}

/// What the caller is to do next.
pub enum RefreshAction {
    /// Load the config, set `refresh_command`, and save it.
    SaveCommand { command: String },
    /// Run `sh -c command` and capture its output.
    Run { command: String },
    /// Make a cheap authenticated read with `token`.
    Verify { token: String },
    /// Store `token` in the keychain for the user.
    Store { token: String },
    /// The refresh is over.
    Finished(Result<(), AppError>),
}

/// One step: an action and the stderr lines to show first.
pub struct RefreshStep {
    pub action: RefreshAction,
    pub notes: Vec<String>,
}

/// `xfin auth refresh` for one user: resolve the helper command, optionally
/// save it, run it, check the token it printed, verify it against the
/// service unless told not to, and store it.
pub struct RefreshFlow {
    username: String,
    command: Option<String>,
    flag_given: bool,
    save: bool,
    verify: bool,
    quiet: bool,
    verbose: bool,
    stage: u8,
    token: String,
}

/// Mathematical value of a [`RefreshFlow`].
pub ghost struct RefreshV {
    pub username: Seq<char>,
    pub command: Option<Seq<char>>,
    pub flag_given: bool,
    pub save: bool,
    pub verify: bool,
    pub quiet: bool,
    pub verbose: bool,
    pub stage: int,
    pub token: Seq<char>,
}

impl View for RefreshFlow {
    type V = RefreshV;

    closed spec fn view(&self) -> RefreshV {
        RefreshV {
            username: self.username@,
            command: opt_string(self.command),
            flag_given: self.flag_given,
            save: self.save,
            verify: self.verify,
            quiet: self.quiet,
            verbose: self.verbose,
            stage: self.stage as int,
            token: self.token@,
        }
    }
}

/// Mathematical value of a [`RefreshAction`]: kind (0 save, 1 run,
/// 2 verify, 3 store, 4 finished), its text, and the outcome when finished.
pub open spec fn refresh_action_view(a: RefreshAction) -> (int, Seq<char>, Result<(), (i32, Seq<char>)>) {
    match a {
        RefreshAction::SaveCommand { command } => (0, command@, Ok(())),
        RefreshAction::Run { command } => (1, command@, Ok(())),
        RefreshAction::Verify { token } => (2, token@, Ok(())),
        RefreshAction::Store { token } => (3, token@, Ok(())),
        RefreshAction::Finished(Ok(())) => (4, Seq::empty(), Ok(())),
        RefreshAction::Finished(Err(e)) => (4, Seq::empty(), Err(err_view(e))),
    }
}

/// The notes of a step, by value.
pub open spec fn notes_view(n: Seq<String>) -> Seq<Seq<char>> {
    n.map_values(|s: String| s@)
}

/// `line` when `show`, else nothing.
pub open spec fn note_if(show: bool, line: Seq<char>) -> Seq<Seq<char>> {
    if show {
        seq![line]
    } else {
        Seq::empty()
    }
}

/// A finished step.
pub open spec fn finished(r: RefreshV, outcome: Result<(), (i32, Seq<char>)>) -> (RefreshV, (int, Seq<char>, Result<(), (i32, Seq<char>)>), Seq<Seq<char>>) {
    (RefreshV { stage: 5, ..r }, (4, Seq::empty(), outcome), Seq::empty())
}

/// One step of `auth refresh`, from its state and the outcome of the last
/// action to its next state, action and stderr lines.
pub open spec fn refresh_next(r: RefreshV, ev: RefreshEvent) -> (RefreshV, (int, Seq<char>, Result<(), (i32, Seq<char>)>), Seq<Seq<char>>) {
    let running = "running refresh command: "@ + r.command.unwrap_or(Seq::empty());
    let protocol = finished(r, Err((1, flow_protocol_msg())));
    if r.stage == 0 {
        match ev {
            RefreshEvent::Proceed => match r.command {
                None => finished(r, Err((2, no_refresh_command_msg()))),
                Some(c) => if r.save && !r.flag_given {
                    finished(r, Err((2, save_needs_command_msg())))
                } else if r.save {
                    (RefreshV { stage: 1, ..r }, (0, c, Ok(())), Seq::empty())
                } else {
                    (RefreshV { stage: 2, ..r }, (1, c, Ok(())), note_if(r.verbose && !r.quiet, running))
                },
            },
            _ => protocol,
        }
    } else if r.stage == 1 {
        match ev {
            RefreshEvent::Saved(Err(e)) => finished(r, Err(err_view(e))),
            RefreshEvent::Saved(Ok(())) => (
                RefreshV { stage: 2, ..r },
                (1, r.command.unwrap_or(Seq::empty()), Ok(())),
                note_if(!r.quiet, "saved refresh command to config"@) + note_if(
                    r.verbose && !r.quiet,
                    running,
                ),
            ),
            _ => protocol,
        }
    } else if r.stage == 2 {
        match ev {
            RefreshEvent::Ran(ran) => match helper_token(ran) {
                Err(v) => finished(r, Err(v)),
                Ok(t) => if r.verify {
                    (RefreshV { stage: 3, token: t, ..r }, (2, t, Ok(())), Seq::empty())
                } else {
                    (RefreshV { stage: 4, token: t, ..r }, (3, t, Ok(())), Seq::empty())
                },
            },
            _ => protocol,
        }
    } else if r.stage == 3 {
        match ev {
            RefreshEvent::Verified(Err(e)) => finished(r, Err(err_view(e))),
            RefreshEvent::Verified(Ok(())) => (
                RefreshV { stage: 4, ..r },
                (3, r.token, Ok(())),
                note_if(
                    r.verbose && !r.quiet,
                    "refreshed token verified against www.xfinity.com/digital/service/api"@,
                ),
            ),
            _ => protocol,
        }
    } else if r.stage == 4 {
        match ev {
            RefreshEvent::Stored(Err(e)) => finished(r, Err(err_view(e))),
            RefreshEvent::Stored(Ok(())) => (
                RefreshV { stage: 5, ..r },
                (4, Seq::empty(), Ok(())),
                note_if(
                    !r.quiet,
                    "refreshed Xfinity session for "@ + r.username + " in the keychain"@,
                ),
            ),
            _ => protocol,
        }
    } else {
        protocol
    }
}

fn notes_of(show: bool, line: String) -> (res: Vec<String>)
    ensures
        notes_view(res@) == note_if(show, line@),
{
    let mut v: Vec<String> = Vec::new();
    if show {
        v.push(line);
        assert(notes_view(v@) =~= seq![line@]);
    } else {
        assert(notes_view(v@) =~= Seq::<Seq<char>>::empty());
    }
    v
}

fn text_of(a: &str, b: &str, c: &str) -> (res: String)
    ensures
        res@ == a@ + b@ + c@,
{
    let mut m = String::new();
    push_str(&mut m, a);
    push_str(&mut m, b);
    push_str(&mut m, c);
    m
}

impl RefreshFlow {
    /// A refresh for `username`: `flag` is `--command`, `env` the value of
    /// `$XFINITY_REFRESH_COMMAND`, `cfg` the saved `refresh_command`.
    pub fn new(
        username: &str,
        flag: Option<&str>,
        env: Option<&str>,
        cfg: Option<&str>,
        save: bool,
        verify: bool,
        quiet: bool,
        verbose: bool,
    ) -> (res: RefreshFlow)
        ensures
            res@ == (RefreshV {
                username: username@,
                command: refresh_command_of(opt_text(flag), opt_text(env), opt_text(cfg)),
                flag_given: flag is Some,
                save,
                verify,
                quiet,
                verbose,
                stage: 0,
                token: Seq::empty(),
            }),
    {
        RefreshFlow {
            username: username.to_owned(),
            command: resolve_refresh_command(flag, env, cfg),
            flag_given: flag.is_some(),
            save,
            verify,
            quiet,
            verbose,
            stage: 0,
            token: String::new(),
        }
    }

    fn finish(&mut self, outcome: Result<(), AppError>) -> (res: RefreshStep)
        ensures
            (final(self)@, refresh_action_view(res.action), notes_view(res.notes@)) == finished(
                old(self)@,
                match outcome {
                    Ok(()) => Ok(()),
                    Err(e) => Err(err_view(e)),
                },
            ),
    {
        self.stage = 5;
        let notes: Vec<String> = Vec::new();
        assert(notes_view(notes@) =~= Seq::<Seq<char>>::empty());
        RefreshStep { action: RefreshAction::Finished(outcome), notes }
    }

    fn running_note(&self) -> (res: String)
        ensures
            res@ == "running refresh command: "@ + self@.command.unwrap_or(Seq::empty()),
    {
        proof {
            reveal_strlit("");
        }
        match &self.command {
            Some(c) => text_of("running refresh command: ", c.as_str(), ""),
            None => text_of("running refresh command: ", "", ""),
        }
    }

    /// Advances the refresh by one step.
    pub fn step(&mut self, event: RefreshEvent) -> (res: RefreshStep)
        ensures
            (final(self)@, refresh_action_view(res.action), notes_view(res.notes@)) == refresh_next(
                old(self)@,
                event,
            ),
    {
        proof {
            reveal_strlit("");
        }
        let protocol = AppError::Other("reply does not match the pending action".to_owned());
        if self.stage == 0 {
            match event {
                RefreshEvent::Proceed => {
                    let c = match &self.command {
                        None => {
                            return self.finish(
                                Err(
                                    AppError::Usage(
                                        "no refresh command configured — pass `--command <cmd>` (optionally with `--save`), set $XFINITY_REFRESH_COMMAND, or add `refresh_command` to config. The command must print a fresh `Authorization: Bearer …` token on stdout.".to_owned(),
                                    ),
                                ),
                            );
                        },
                        Some(c) => c.clone(),
                    };
                    if self.save && !self.flag_given {
                        return self.finish(
                            Err(
                                AppError::Usage("--save requires --command <cmd> to persist".to_owned()),
                            ),
                        );
                    }
                    if self.save {
                        self.stage = 1;
                        let notes: Vec<String> = Vec::new();
                        assert(notes_view(notes@) =~= Seq::<Seq<char>>::empty());
                        return RefreshStep { action: RefreshAction::SaveCommand { command: c }, notes };
                    }
                    let line = self.running_note();
                    self.stage = 2;
                    let notes = notes_of(self.verbose && !self.quiet, line);
                    RefreshStep { action: RefreshAction::Run { command: c }, notes }
                },
                _ => self.finish(Err(protocol)),
            }
        } else if self.stage == 1 {
            match event {
                RefreshEvent::Saved(Err(e)) => self.finish(Err(e)),
                RefreshEvent::Saved(Ok(())) => {
                    let line = self.running_note();
                    let mut notes = notes_of(!self.quiet, "saved refresh command to config".to_owned());
                    let more = notes_of(self.verbose && !self.quiet, line);
                    let ghost first = notes@;
                    let mut more = more;
                    let ghost more_v = more@;
                    notes.append(&mut more);
                    assert(notes_view(notes@) =~= notes_view(first) + notes_view(more_v));
                    self.stage = 2;
                    let c = match &self.command {
                        Some(c) => c.clone(),
                        None => String::new(),
                    };
                    RefreshStep { action: RefreshAction::Run { command: c }, notes }
                },
                _ => self.finish(Err(protocol)),
            }
        } else if self.stage == 2 {
            match event {
                RefreshEvent::Ran(ran) => match helper_result(ran) {
                    Err(e) => self.finish(Err(e)),
                    Ok(t) => {
                        self.token = t.clone();
                        let notes: Vec<String> = Vec::new();
                        assert(notes_view(notes@) =~= Seq::<Seq<char>>::empty());
                        if self.verify {
                            self.stage = 3;
                            RefreshStep { action: RefreshAction::Verify { token: t }, notes }
                        } else {
                            self.stage = 4;
                            RefreshStep { action: RefreshAction::Store { token: t }, notes }
                        }
                    },
                },
                _ => self.finish(Err(protocol)),
            }
        } else if self.stage == 3 {
            match event {
                RefreshEvent::Verified(Err(e)) => self.finish(Err(e)),
                RefreshEvent::Verified(Ok(())) => {
                    self.stage = 4;
                    let notes = notes_of(
                        self.verbose && !self.quiet,
                        "refreshed token verified against www.xfinity.com/digital/service/api".to_owned(),
                    );
                    RefreshStep { action: RefreshAction::Store { token: self.token.clone() }, notes }
                },
                _ => self.finish(Err(protocol)),
            }
        } else if self.stage == 4 {
            match event {
                RefreshEvent::Stored(Err(e)) => self.finish(Err(e)),
                RefreshEvent::Stored(Ok(())) => {
                    self.stage = 5;
                    let line = text_of(
                        "refreshed Xfinity session for ",
                        self.username.as_str(),
                        " in the keychain",
                    );
                    let notes = notes_of(!self.quiet, line);
                    RefreshStep { action: RefreshAction::Finished(Ok(())), notes }
                },
                _ => self.finish(Err(protocol)),
            }
        } else {
            self.finish(Err(protocol))
        }
    }
}

// ---------------------------------------------------------------------------
// `auth login`
// ---------------------------------------------------------------------------

/// The usage error for both secret sources at once.
pub open spec fn both_sources_msg() -> Seq<char> {
    "--stdin and --from-env are mutually exclusive"@
}

/// The usage error for no secret source.
pub open spec fn no_source_msg() -> Seq<char> {
    "provide the browser session via --stdin or --from-env <VAR> (see `xfin auth login --help`)"@
}

/// The usage error for an existing session without `--overwrite`.
pub open spec fn exists_msg(username: Seq<char>) -> Seq<char> {
    "a session for "@ + debug_quoted(username) + " already exists — pass --overwrite to replace it"@
}

/// What the caller reports back after performing a [`LoginAction`].
pub enum LoginEvent {
    /// Nothing performed yet.
    Proceed,
    /// The secret read from stdin or the environment (or why not).
    Read(Result<String, AppError>),
    /// The secret was checked against the service (or rejected).
    Verified(Result<(), AppError>),
    /// Whether a session was already stored for the user (or why that is
    /// unknown).
    Existing(Result<bool, AppError>),
    /// The secret was stored in the keychain (or not).
    Stored(Result<(), AppError>),
    /// The username was saved to config (or not).
    ConfigSaved(Result<(), AppError>),
}

/// What the caller is to do next.
pub enum LoginAction {
    /// Read the secret from stdin.
    ReadStdin,
    /// Read the secret from the environment variable `var`.
    ReadEnv { var: String },
    /// Make a cheap authenticated read with `token`.
    Verify { token: String },
    /// Look up an existing session for the user.
    CheckExisting,
    /// Store `token` in the keychain for the user.
    Store { token: String },
    /// Load the config, set `username`, and save it.
    SaveUsername,
    /// The login is over: whether it replaced a stored session, or why it
    /// failed.
    Finished(Result<bool, AppError>),
}

/// One step: an action and the stderr lines to show first.
pub struct LoginStep {
    pub action: LoginAction,
    pub notes: Vec<String>,
}

/// `xfin auth login` for one user: read the captured token from stdin or an
/// environment variable, verify it unless told not to, refuse to replace a
/// stored session without `--overwrite`, store it, and remember the
/// username in config.
pub struct LoginFlow {
    username: String,
    stdin: bool,
    from_env: Option<String>,
    overwrite: bool,
    verify: bool,
    quiet: bool,
    verbose: bool,
    username_saved: bool,
    stage: u8,
    secret: String,
    existed: bool,
}

/// Mathematical value of a [`LoginFlow`].
pub ghost struct LoginV {
    pub username: Seq<char>,
    pub stdin: bool,
    pub from_env: Option<Seq<char>>,
    pub overwrite: bool,
    pub verify: bool,
    pub quiet: bool,
    pub verbose: bool,
    pub username_saved: bool,
    pub stage: int,
    pub secret: Seq<char>,
    pub existed: bool,
}

impl View for LoginFlow {
    type V = LoginV;

    closed spec fn view(&self) -> LoginV {
        LoginV {
            username: self.username@,
            stdin: self.stdin,
            from_env: opt_string(self.from_env),
            overwrite: self.overwrite,
            verify: self.verify,
            quiet: self.quiet,
            verbose: self.verbose,
            username_saved: self.username_saved,
            stage: self.stage as int,
            secret: self.secret@,
            existed: self.existed,
        }
    }
}

/// Mathematical value of a [`LoginAction`]: kind (0 read stdin, 1 read env,
/// 2 verify, 3 check existing, 4 store, 5 save username, 6 finished), its
/// text, and the outcome when finished.
pub open spec fn login_action_view(a: LoginAction) -> (int, Seq<char>, Result<bool, (i32, Seq<char>)>) {
    match a {
        LoginAction::ReadStdin => (0, Seq::empty(), Ok(false)),
        LoginAction::ReadEnv { var } => (1, var@, Ok(false)),
        LoginAction::Verify { token } => (2, token@, Ok(false)),
        LoginAction::CheckExisting => (3, Seq::empty(), Ok(false)),
        LoginAction::Store { token } => (4, token@, Ok(false)),
        LoginAction::SaveUsername => (5, Seq::empty(), Ok(false)),
        LoginAction::Finished(Ok(b)) => (6, Seq::empty(), Ok(b)),
        LoginAction::Finished(Err(e)) => (6, Seq::empty(), Err(err_view(e))),
    }
}

/// A finished login step.
pub open spec fn login_finished(l: LoginV, outcome: Result<bool, (i32, Seq<char>)>) -> (LoginV, (int, Seq<char>, Result<bool, (i32, Seq<char>)>), Seq<Seq<char>>) {
    (LoginV { stage: 6, ..l }, (6, Seq::empty(), outcome), Seq::empty())
}

/// The stderr line after a successful login.
pub open spec fn stored_note(l: LoginV) -> Seq<Seq<char>> {
    note_if(!l.quiet, "stored Xfinity session for "@ + l.username + " in the keychain"@)
}

/// One step of `auth login`, from its state and the outcome of the last
/// action to its next state, action and stderr lines.
pub open spec fn login_next(l: LoginV, ev: LoginEvent) -> (LoginV, (int, Seq<char>, Result<bool, (i32, Seq<char>)>), Seq<Seq<char>>) {
    let protocol = login_finished(l, Err((1, flow_protocol_msg())));
    if l.stage == 0 {
        match ev {
            LoginEvent::Proceed => if l.stdin && l.from_env is Some {
                login_finished(l, Err((2, both_sources_msg())))
            } else if l.stdin {
                (LoginV { stage: 1, ..l }, (0, Seq::empty(), Ok(false)), Seq::empty())
            } else if l.from_env is Some {
                (LoginV { stage: 1, ..l }, (1, l.from_env.unwrap(), Ok(false)), Seq::empty())
            } else {
                login_finished(l, Err((2, no_source_msg())))
            },
            _ => protocol,
        }
    } else if l.stage == 1 {
        match ev {
            LoginEvent::Read(Err(e)) => login_finished(l, Err(err_view(e))),
            LoginEvent::Read(Ok(s)) => if s@.len() == 0 {
                login_finished(l, Err((2, "empty session — nothing stored"@)))
            } else if l.verify {
                (LoginV { stage: 2, secret: s@, ..l }, (2, s@, Ok(false)), Seq::empty())
            } else {
                (LoginV { stage: 3, secret: s@, ..l }, (3, Seq::empty(), Ok(false)), Seq::empty())
            },
            _ => protocol,
        }
    } else if l.stage == 2 {
        match ev {
            LoginEvent::Verified(Err(e)) => login_finished(l, Err(err_view(e))),
            LoginEvent::Verified(Ok(())) => (
                LoginV { stage: 3, ..l },
                (3, Seq::empty(), Ok(false)),
                note_if(
                    l.verbose && !l.quiet,
                    "token verified against www.xfinity.com/digital/service/api"@,
                ),
            ),
            _ => protocol,
        }
    } else if l.stage == 3 {
        match ev {
            LoginEvent::Existing(Err(e)) => login_finished(l, Err(err_view(e))),
            LoginEvent::Existing(Ok(ex)) => if ex && !l.overwrite {
                login_finished(l, Err((2, exists_msg(l.username))))
            } else {
                (LoginV { stage: 4, existed: ex, ..l }, (4, l.secret, Ok(false)), Seq::empty())
            },
            _ => protocol,
        }
    } else if l.stage == 4 {
        match ev {
            LoginEvent::Stored(Err(e)) => login_finished(l, Err(err_view(e))),
            LoginEvent::Stored(Ok(())) => if l.username_saved {
                (LoginV { stage: 6, ..l }, (6, Seq::empty(), Ok(l.existed)), stored_note(l))
            } else {
                (LoginV { stage: 5, ..l }, (5, Seq::empty(), Ok(false)), Seq::empty())
            },
            _ => protocol,
        }
    } else if l.stage == 5 {
        match ev {
            LoginEvent::ConfigSaved(Err(e)) => login_finished(l, Err(err_view(e))),
            LoginEvent::ConfigSaved(Ok(())) => (
                LoginV { stage: 6, ..l },
                (6, Seq::empty(), Ok(l.existed)),
                stored_note(l),
            ),
            _ => protocol,
        }
    } else {
        protocol
    }
}

fn no_notes() -> (res: Vec<String>)
    ensures
        notes_view(res@) == Seq::<Seq<char>>::empty(),
{
    let notes: Vec<String> = Vec::new();
    assert(notes_view(notes@) =~= Seq::<Seq<char>>::empty());
    notes
}

impl LoginFlow {
    /// A login for `username`; `cfg_username` is the username config holds.
    pub fn new(
        username: &str,
        stdin: bool,
        from_env: Option<&str>,
        overwrite: bool,
        verify: bool,
        quiet: bool,
        verbose: bool,
        cfg_username: Option<&str>,
    ) -> (res: LoginFlow)
        ensures
            res@ == (LoginV {
                username: username@,
                stdin,
                from_env: opt_text(from_env),
                overwrite,
                verify,
                quiet,
                verbose,
                username_saved: opt_text(cfg_username) == Some(username@),
                stage: 0,
                secret: Seq::empty(),
                existed: false,
            }),
    {
        let saved = match cfg_username {
            Some(u) => {
                let a = to_chars(u);
                crate::text::is_text(&a, username)
            },
            None => false,
        };
        LoginFlow {
            username: username.to_owned(),
            stdin,
            from_env: match from_env {
                Some(v) => Some(v.to_owned()),
                None => None,
            },
            overwrite,
            verify,
            quiet,
            verbose,
            username_saved: saved,
            stage: 0,
            secret: String::new(),
            existed: false,
        }
    }

    fn finish(&mut self, outcome: Result<bool, AppError>) -> (res: LoginStep)
        ensures
            (final(self)@, login_action_view(res.action), notes_view(res.notes@)) == login_finished(
                old(self)@,
                match outcome {
                    Ok(b) => Ok(b),
                    Err(e) => Err(err_view(e)),
                },
            ),
    {
        self.stage = 6;
        LoginStep { action: LoginAction::Finished(outcome), notes: no_notes() }
    }

    fn done(&mut self) -> (res: LoginStep)
        ensures
            (final(self)@, login_action_view(res.action), notes_view(res.notes@)) == (
                LoginV { stage: 6, ..old(self)@ },
                (6int, Seq::<char>::empty(), Ok::<bool, (i32, Seq<char>)>(old(self)@.existed)),
                stored_note(old(self)@),
            ),
    {
        self.stage = 6;
        let line = text_of("stored Xfinity session for ", self.username.as_str(), " in the keychain");
        let notes = notes_of(!self.quiet, line);
        LoginStep { action: LoginAction::Finished(Ok(self.existed)), notes }
    }

    /// Advances the login by one step.
    pub fn step(&mut self, event: LoginEvent) -> (res: LoginStep)
        ensures
            (final(self)@, login_action_view(res.action), notes_view(res.notes@)) == login_next(
                old(self)@,
                event,
            ),
    {
        let protocol = AppError::Other("reply does not match the pending action".to_owned());
        if self.stage == 0 {
            match event {
                LoginEvent::Proceed => {
                    if self.stdin && self.from_env.is_some() {
                        return self.finish(
                            Err(
                                AppError::Usage(
                                    "--stdin and --from-env are mutually exclusive".to_owned(),
                                ),
                            ),
                        );
                    }
                    if self.stdin {
                        self.stage = 1;
                        return LoginStep { action: LoginAction::ReadStdin, notes: no_notes() };
                    }
                    match &self.from_env {
                        Some(v) => {
                            let var = v.clone();
                            self.stage = 1;
                            LoginStep { action: LoginAction::ReadEnv { var }, notes: no_notes() }
                        },
                        None => self.finish(
                            Err(
                                AppError::Usage(
                                    "provide the browser session via --stdin or --from-env <VAR> (see `xfin auth login --help`)".to_owned(),
                                ),
                            ),
                        ),
                    }
                },
                _ => self.finish(Err(protocol)),
            }
        } else if self.stage == 1 {
            match event {
                LoginEvent::Read(Err(e)) => self.finish(Err(e)),
                LoginEvent::Read(Ok(s)) => {
                    if to_chars(s.as_str()).len() == 0 {
                        return self.finish(
                            Err(AppError::Usage("empty session — nothing stored".to_owned())),
                        );
                    }
                    self.secret = s.clone();
                    if self.verify {
                        self.stage = 2;
                        LoginStep { action: LoginAction::Verify { token: s }, notes: no_notes() }
                    } else {
                        self.stage = 3;
                        LoginStep { action: LoginAction::CheckExisting, notes: no_notes() }
                    }
                },
                _ => self.finish(Err(protocol)),
            }
        } else if self.stage == 2 {
            match event {
                LoginEvent::Verified(Err(e)) => self.finish(Err(e)),
                LoginEvent::Verified(Ok(())) => {
                    self.stage = 3;
                    let notes = notes_of(
                        self.verbose && !self.quiet,
                        "token verified against www.xfinity.com/digital/service/api".to_owned(),
                    );
                    LoginStep { action: LoginAction::CheckExisting, notes }
                },
                _ => self.finish(Err(protocol)),
            }
        } else if self.stage == 3 {
            match event {
                LoginEvent::Existing(Err(e)) => self.finish(Err(e)),
                LoginEvent::Existing(Ok(ex)) => {
                    if ex && !self.overwrite {
                        let q = debug_str(self.username.as_str());
                        let m = text_of(
                            "a session for ",
                            q.as_str(),
                            " already exists — pass --overwrite to replace it",
                        );
                        return self.finish(Err(AppError::Usage(m)));
                    }
                    self.existed = ex;
                    self.stage = 4;
                    LoginStep {
                        action: LoginAction::Store { token: self.secret.clone() },
                        notes: no_notes(),
                    }
                },
                _ => self.finish(Err(protocol)),
            }
        } else if self.stage == 4 {
            match event {
                LoginEvent::Stored(Err(e)) => self.finish(Err(e)),
                LoginEvent::Stored(Ok(())) => {
                    if self.username_saved {
                        self.done()
                    } else {
                        self.stage = 5;
                        LoginStep { action: LoginAction::SaveUsername, notes: no_notes() }
                    }
                },
                _ => self.finish(Err(protocol)),
            }
        } else if self.stage == 5 {
            match event {
                LoginEvent::ConfigSaved(Err(e)) => self.finish(Err(e)),
                LoginEvent::ConfigSaved(Ok(())) => self.done(),
                _ => self.finish(Err(protocol)),
            }
        } else {
            self.finish(Err(protocol))
        }
    }
}

// ---------------------------------------------------------------------------
// Laws
// ---------------------------------------------------------------------------

/// With verification on, a refresh stores a token only right after the
/// service accepted it, and it stores that very token.
pub proof fn refresh_stores_only_verified_tokens(r: RefreshV, ev: RefreshEvent)
    requires
        r.verify,
    ensures
        refresh_next(r, ev).1.0 == 3 ==> r.stage == 3 && (ev matches RefreshEvent::Verified(Ok(
            (),
        ))) && refresh_next(r, ev).1.1 == r.token,
{
}

/// The token a refresh verifies and stores is what the helper printed,
/// trimmed.
pub proof fn refresh_uses_the_helper_output(r: RefreshV, ran: Result<CommandOutput, String>)
    requires
        r.stage == 2,
    ensures
        helper_token(ran) matches Ok(t) ==> refresh_next(r, RefreshEvent::Ran(ran)).0.token == t
            && refresh_next(r, RefreshEvent::Ran(ran)).1.1 == t,
        helper_token(ran) is Err ==> refresh_next(r, RefreshEvent::Ran(ran)).1.0 == 4,
{
}

/// A login replaces a stored session only when asked to with
/// `--overwrite`.
pub proof fn login_never_overwrites_unasked(l: LoginV, ev: LoginEvent)
    ensures
        login_next(l, ev).1.0 == 4 ==> l.stage == 3 && (ev matches LoginEvent::Existing(Ok(ex)) && (
        !ex || l.overwrite)),
{
}

/// With verification on, a login reaches the keychain only after the
/// service accepted the token.
pub proof fn login_checks_before_storing(l: LoginV, ev: LoginEvent)
    requires
        l.verify,
        l.stage != 3,
    ensures
        login_next(l, ev).1.0 == 3 ==> l.stage == 2 && (ev matches LoginEvent::Verified(Ok(()))),
{
}

} // verus!

//! Command decisions, one module per resource group. The shared session,
//! username and silent-refresh policy lives here.

pub mod api;
pub mod auth;
pub mod billing;
pub mod config_cmd;

use vstd::prelude::*;

use crate::client::err_view;
use crate::error::AppError;
use crate::json::{push_item, push_member, text_value, view_items, view_members, Json, JsonV};
use crate::profile::opt_string;
use crate::text::{debug_quoted, debug_str, push_str, string_from, trim, trimmed};

verus! {

broadcast use {vstd::std_specs::vec::group_vec_axioms, vstd::seq::group_seq_axioms};

/// The keychain service name sessions are stored under.
pub const SERVICE: &'static str = "piekstra.xfin";

/// The service name used before; entries there are moved on first read.
pub const LEGACY_SERVICE: &'static str = "xfinity-cli";

// ---------------------------------------------------------------------------
// Keychain sessions
// ---------------------------------------------------------------------------

/// A keychain operation on the current user's entry, for the caller to
/// perform.
pub enum KeychainOp {
    /// Read the entry under `service`.
    Get { service: String },
    /// Store `secret` under `service`.
    Store { service: String, secret: String },
    /// Delete the entry under `service`.
    Delete { service: String },
}

/// The outcome of the last [`KeychainOp`], reported back.
pub enum KeychainReply {
    /// Nothing has been performed yet.
    Begin,
    /// A `Get` returned the stored secret, if any.
    Got(Result<Option<String>, AppError>),
    /// A `Set` finished.
    Stored(Result<(), AppError>),
    /// A `Delete` finished; `true` when an entry was removed.
    Deleted(Result<bool, AppError>),
}

/// How far a migrating session read has come.
pub enum Migration {
    /// Nothing asked yet.
    Begin,
    /// Waiting for the read under the current service name.
    ReadCurrent,
    /// Waiting for the read under the legacy service name.
    ReadLegacy,
    /// Waiting for the legacy secret to be stored under the current name.
    Store { secret: String },
    /// Waiting for the legacy entry to be dropped.
    DropLegacy { secret: String },
}

/// The next thing to do.
pub enum SessionStep {
    /// Perform `op`, then call again with `next` and the reply.
    Perform { op: KeychainOp, next: Migration },
    /// The read is over.
    Done(Result<Option<String>, AppError>),
}

/// Mathematical value of a [`KeychainOp`]: kind (0 get, 1 set, 2 delete),
/// service and secret.
pub open spec fn op_view(op: KeychainOp) -> (int, Seq<char>, Seq<char>) {
    match op {
        KeychainOp::Get { service } => (0, service@, Seq::empty()),
        KeychainOp::Store { service, secret } => (1, service@, secret@),
        KeychainOp::Delete { service } => (2, service@, Seq::empty()),
    }
}

/// Mathematical value of a [`Migration`] state: its stage and the secret it
/// carries.
pub open spec fn migration_view(m: Migration) -> (int, Seq<char>) {
    match m {
        Migration::Begin => (0, Seq::empty()),
        Migration::ReadCurrent => (1, Seq::empty()),
        Migration::ReadLegacy => (2, Seq::empty()),
        Migration::Store { secret } => (3, secret@),
        Migration::DropLegacy { secret } => (4, secret@),
    }
}

/// The result of a session read, by value.
pub open spec fn session_result(r: Result<Option<String>, AppError>) -> Result<
    Option<Seq<char>>,
    (i32, Seq<char>),
> {
    match r {
        Ok(Some(s)) => Ok(Some(s@)),
        Ok(None) => Ok(None),
        Err(e) => Err(err_view(e)),
    }
}

/// Mathematical value of a [`SessionStep`].
pub ghost enum StepV {
    Perform((int, Seq<char>, Seq<char>), (int, Seq<char>)),
    Done(Result<Option<Seq<char>>, (i32, Seq<char>)>),
}

/// The value of a step.
pub open spec fn step_view(s: SessionStep) -> StepV {
    match s {
        SessionStep::Perform { op, next } => StepV::Perform(op_view(op), migration_view(next)),
        SessionStep::Done(r) => StepV::Done(session_result(r)),
    }
}

/// Mathematical value of a [`KeychainReply`].
pub ghost enum ReplyV {
    Begin,
    Got(Result<Option<Seq<char>>, (i32, Seq<char>)>),
    Stored(Result<(), (i32, Seq<char>)>),
    Deleted(Result<bool, (i32, Seq<char>)>),
}

/// The value of a reply.
pub open spec fn reply_view(r: KeychainReply) -> ReplyV {
    match r {
        KeychainReply::Begin => ReplyV::Begin,
        KeychainReply::Got(g) => ReplyV::Got(session_result(g)),
        KeychainReply::Stored(Ok(())) => ReplyV::Stored(Ok(())),
        KeychainReply::Stored(Err(e)) => ReplyV::Stored(Err(err_view(e))),
        KeychainReply::Deleted(Ok(b)) => ReplyV::Deleted(Ok(b)),
        KeychainReply::Deleted(Err(e)) => ReplyV::Deleted(Err(err_view(e))),
    }
}

/// The message for a reply that does not answer the operation asked.
pub open spec fn protocol_msg() -> Seq<char> {
    "keychain reply does not match the pending operation"@
}

/// One step of reading a stored session while moving a legacy entry to the
/// current service name: read the current name; failing that, the legacy
/// name, then store what it held under the current name and drop the legacy
/// entry (a failure to drop it is ignored). An error of a read or of the
/// store ends the read with that error.
pub open spec fn migration_next(state: (int, Seq<char>), reply: ReplyV) -> StepV {
    let protocol = StepV::Done(Err((1, protocol_msg())));
    if state.0 == 0 {
        StepV::Perform((0, SERVICE@, Seq::empty()), (1, Seq::empty()))
    } else if state.0 == 1 {
        match reply {
            ReplyV::Got(Err(e)) => StepV::Done(Err(e)),
            ReplyV::Got(Ok(Some(s))) => StepV::Done(Ok(Some(s))),
            ReplyV::Got(Ok(None)) => StepV::Perform(
                (0, LEGACY_SERVICE@, Seq::empty()),
                (2, Seq::empty()),
            ),
            _ => protocol,
        }
    } else if state.0 == 2 {
        match reply {
            ReplyV::Got(Err(e)) => StepV::Done(Err(e)),
            ReplyV::Got(Ok(Some(s))) => StepV::Perform((1, SERVICE@, s), (3, s)),
            ReplyV::Got(Ok(None)) => StepV::Done(Ok(None)),
            _ => protocol,
        }
    } else if state.0 == 3 {
        match reply {
            ReplyV::Stored(Err(e)) => StepV::Done(Err(e)),
            ReplyV::Stored(Ok(())) => StepV::Perform(
                (2, LEGACY_SERVICE@, Seq::empty()),
                (4, state.1),
            ),
            _ => protocol,
        }
    } else {
        match reply {
            ReplyV::Deleted(_) => StepV::Done(Ok(Some(state.1))),
            _ => protocol,
        }
    }
}

fn owned(s: &str) -> (res: String)
    ensures
        res@ == s@,
{
    s.to_owned()
}

/// Reads the stored session, moving a legacy-service entry to the current
/// service name on first use. Call first with [`Migration::Begin`] and
/// [`KeychainReply::Begin`]; perform each operation asked for and call again
/// with the state handed back and the operation's outcome, until `Done`.
pub fn get_session_migrating(state: Migration, reply: KeychainReply) -> (res: SessionStep)
    ensures
        step_view(res) == migration_next(migration_view(state), reply_view(reply)),
{
    let protocol = SessionStep::Done(
        Err(AppError::Other(owned("keychain reply does not match the pending operation"))),
    );
    match state {
        Migration::Begin => SessionStep::Perform {
            op: KeychainOp::Get { service: owned(SERVICE) },
            next: Migration::ReadCurrent,
        },
        Migration::ReadCurrent => match reply {
            KeychainReply::Got(Err(e)) => SessionStep::Done(Err(e)),
            KeychainReply::Got(Ok(Some(s))) => SessionStep::Done(Ok(Some(s))),
            KeychainReply::Got(Ok(None)) => SessionStep::Perform {
                op: KeychainOp::Get { service: owned(LEGACY_SERVICE) },
                next: Migration::ReadLegacy,
            },
            _ => protocol,
        },
        Migration::ReadLegacy => match reply {
            KeychainReply::Got(Err(e)) => SessionStep::Done(Err(e)),
            KeychainReply::Got(Ok(Some(s))) => SessionStep::Perform {
                op: KeychainOp::Store { service: owned(SERVICE), secret: s.clone() },
                next: Migration::Store { secret: s },
            },
            KeychainReply::Got(Ok(None)) => SessionStep::Done(Ok(None)),
            _ => protocol,
        },
        Migration::Store { secret } => match reply {
            KeychainReply::Stored(Err(e)) => SessionStep::Done(Err(e)),
            KeychainReply::Stored(Ok(())) => SessionStep::Perform {
                op: KeychainOp::Delete { service: owned(LEGACY_SERVICE) },
                next: Migration::DropLegacy { secret },
            },
            _ => protocol,
        },
        Migration::DropLegacy { secret } => match reply {
            KeychainReply::Deleted(_) => SessionStep::Done(Ok(Some(secret))),
            _ => protocol,
        },
    }
}

/// Deletes a stored session under both service names: `current` is the
/// outcome of deleting under the current name and `legacy` under the legacy
/// name (which is only attempted when the first succeeded). `true` when
/// either removed an entry.
pub fn delete_session(current: Result<bool, AppError>, legacy: Result<bool, AppError>) -> (res:
    Result<bool, AppError>)
    ensures
        match (current, legacy) {
            (Err(e), _) => res == Err::<bool, AppError>(e),
            (Ok(_), Err(e)) => res == Err::<bool, AppError>(e),
            (Ok(a), Ok(b)) => res == Ok::<bool, AppError>(a || b),
        },
{
    let a = match current {
        Ok(a) => a,
        Err(e) => return Err(e),
    };
    let b = match legacy {
        Ok(b) => b,
        Err(e) => return Err(e),
    };
    Ok(a || b)
}

// ---------------------------------------------------------------------------
// Usernames
// ---------------------------------------------------------------------------

/// The message when no username is known.
pub open spec fn no_username_msg() -> Seq<char> {
    "no Xfinity username configured — run `xfin auth login` (or pass --username / set $XFINITY_USERNAME)"@
}

/// The username in effect: `--username`, else the configured one, else
/// `$XFINITY_USERNAME`; empty values count as unset.
pub open spec fn username_of(
    flag: Option<Seq<char>>,
    cfg: Option<Seq<char>>,
    env: Option<Seq<char>>,
) -> Option<Seq<char>> {
    if flag matches Some(u) && u.len() > 0 {
        flag
    } else if cfg matches Some(u) && u.len() > 0 {
        cfg
    } else if env matches Some(u) && u.len() > 0 {
        env
    } else {
        None
    }
}

fn nonempty_text(o: Option<&str>) -> (res: Option<String>)
    ensures
        match res {
            Some(s) => o matches Some(t) && t@.len() > 0 && s@ == t@,
            None => o matches Some(t) ==> t@.len() == 0,
        },
{
    match o {
        Some(t) => {
            let c = crate::text::to_chars(t);
            if c.len() > 0 {
                Some(owned(t))
            } else {
                None
            }
        },
        None => None,
    }
}

/// Resolves the username: `--username`, then config, then
/// `$XFINITY_USERNAME`.
pub fn resolve_username(flag: Option<&str>, cfg: Option<&str>, env: Option<&str>) -> (res: Result<
    String,
    AppError,
>)
    ensures
        match username_of(
            crate::client::opt_text(flag),
            crate::client::opt_text(cfg),
            crate::client::opt_text(env),
        ) {
            Some(u) => res matches Ok(s) && s@ == u,
            None => res matches Err(AppError::Auth(m)) && m@ == no_username_msg(),
        },
{
    if let Some(u) = nonempty_text(flag) {
        return Ok(u);
    }
    if let Some(u) = nonempty_text(cfg) {
        return Ok(u);
    }
    if let Some(u) = nonempty_text(env) {
        return Ok(u);
    }
    Err(
        AppError::Auth(
            owned(
                "no Xfinity username configured — run `xfin auth login` (or pass --username / set $XFINITY_USERNAME)",
            ),
        ),
    )
}

/// The message when no session is stored for `username`.
pub open spec fn no_session_msg(username: Seq<char>) -> Seq<char> {
    "no stored session for "@ + debug_quoted(username) + " — run `xfin auth login`"@
}

/// The error for a user with no stored session.
pub fn no_session(username: &str) -> (res: AppError)
    ensures
        res matches AppError::Auth(m) && m@ == no_session_msg(username@),
{
    let mut m = String::new();
    push_str(&mut m, "no stored session for ");
    let q = debug_str(username);
    push_str(&mut m, q.as_str());
    push_str(&mut m, " — run `xfin auth login`");
    AppError::Auth(m)
}

/// Where a setup command gets its username.
pub enum UsernameSource {
    /// Already known.
    Known(String),
    /// Ask on the terminal.
    Prompt,
    /// Neither; fail with this.
    Refused(AppError),
}

/// The message when no username is known and prompting is not possible.
pub open spec fn cannot_prompt_msg() -> Seq<char> {
    "no username — pass --username, set $XFINITY_USERNAME, or run interactively"@
}

/// The username for a setup command: the resolved one, else a prompt on a
/// terminal (unless `non_interactive`), else a usage error.
pub fn prompt_username_if_needed(resolved: Result<String, AppError>, non_interactive: bool, tty: bool)
    -> (res: UsernameSource)
    ensures
        match resolved {
            Ok(u) => res matches UsernameSource::Known(k) && k@ == u@,
            Err(_) => if non_interactive || !tty {
                res matches UsernameSource::Refused(AppError::Usage(m)) && m@ == cannot_prompt_msg()
            } else {
                res is Prompt
            },
        },
{
    match resolved {
        Ok(u) => UsernameSource::Known(u),
        Err(_) => if non_interactive || !tty {
            UsernameSource::Refused(
                AppError::Usage(
                    owned(
                        "no username — pass --username, set $XFINITY_USERNAME, or run interactively",
                    ),
                ),
            )
        } else {
            UsernameSource::Prompt
        },
    }
}

/// The answer to a one-line prompt: the line trimmed, which must not be
/// empty.
pub fn prompt_line(label: &str, line: &str) -> (res: Result<String, AppError>)
    ensures
        trim(line@).len() > 0 ==> (res matches Ok(s) && s@ == trim(line@)),
        trim(line@).len() == 0 ==> (res matches Err(AppError::Usage(m)) && m@ == label@
            + " cannot be empty"@),
{
    let t = trimmed(line);
    if t.len() == 0 {
        let mut m = String::new();
        push_str(&mut m, label);
        push_str(&mut m, " cannot be empty");
        return Err(AppError::Usage(m));
    }
    Ok(string_from(&t))
}

// ---------------------------------------------------------------------------
// Silent refresh
// ---------------------------------------------------------------------------

/// The refusal when `auto_refresh` is switched off.
pub open spec fn refresh_off_msg() -> Seq<char> {
    "Xfinity session expired — capture a fresh `Authorization: Bearer …` in your browser and re-run `xfin auth login --overwrite`, or run `xfin auth refresh` (auto_refresh is off)"@
}

/// The refusal when no refresh command is configured.
pub open spec fn refresh_unconfigured_msg() -> Seq<char> {
    "Xfinity session expired — capture a fresh `Authorization: Bearer …` in your browser and re-run `xfin auth login --overwrite`, or configure a refresh command (`xfin auth refresh --help`) for silent recovery"@
}

/// Why silent recovery from an expired session can't proceed, if it can't:
/// switched off wins over nothing configured; with both in place, nothing
/// blocks it.
pub fn auto_refresh_blocked(auto_refresh: bool, refresh_command: Option<&str>) -> (res: Option<
    String,
>)
    ensures
        !auto_refresh ==> (res matches Some(m) && m@ == refresh_off_msg()),
        auto_refresh && refresh_command is None ==> (res matches Some(m) && m@
            == refresh_unconfigured_msg()),
        auto_refresh && refresh_command is Some ==> res is None,
{
    if !auto_refresh {
        return Some(
            owned(
                "Xfinity session expired — capture a fresh `Authorization: Bearer …` in your browser and re-run `xfin auth login --overwrite`, or run `xfin auth refresh` (auto_refresh is off)",
            ),
        );
    }
    if refresh_command.is_none() {
        return Some(
            owned(
                "Xfinity session expired — capture a fresh `Authorization: Bearer …` in your browser and re-run `xfin auth login --overwrite`, or configure a refresh command (`xfin auth refresh --help`) for silent recovery",
            ),
        );
    }
    None
}

/// Whether a failed read is retried after a silent refresh: once, and only
/// when the session was expired or rejected. Reads only: a replayed
/// mutation could run twice against the server.
pub fn retry_after_refresh(attempt: u32, failure: &AppError) -> (res: bool)
    ensures
        res == (attempt == 0 && failure is Auth),
{
    attempt == 0 && matches!(failure, AppError::Auth(_))
}

/// How far a read with silent recovery has come.
pub enum ReadState {
    /// Nothing done yet.
    Start,
    /// Waiting for the first attempt of the read.
    FirstRead,
    /// Waiting for the refresh helper.
    Refreshing,
    /// Waiting for the retried read.
    SecondRead,
    /// Finished.
    Over,
}

/// What the caller reports back after performing a [`ReadAction`].
pub enum ReadEvent {
    /// Nothing performed yet.
    Start,
    /// The read succeeded; the caller keeps its value.
    ReadOk,
    /// The read failed.
    ReadFailed(AppError),
    /// The refresh helper ran, or why it could not.
    Refreshed(Result<(), AppError>),
}

/// What a read with silent recovery asks the caller to do next.
pub enum ReadAction {
    /// Run the read (with a session built afresh from the keychain).
    Read,
    /// Refresh the session with the configured helper.
    Refresh,
    /// Done: return the value of the last read.
    Return,
    /// Done: fail with this error.
    Fail(AppError),
}

/// One step of a read with silent recovery.
pub struct ReadStep {
    pub next: ReadState,
    pub action: ReadAction,
}

/// The stage of a [`ReadState`], in order.
pub open spec fn read_stage(s: ReadState) -> int {
    match s {
        ReadState::Start => 0,
        ReadState::FirstRead => 1,
        ReadState::Refreshing => 2,
        ReadState::SecondRead => 3,
        ReadState::Over => 4,
    }
}

/// Mathematical value of a [`ReadEvent`].
pub ghost enum ReadEventV {
    Start,
    ReadOk,
    ReadFailed((i32, Seq<char>)),
    Refreshed(Result<(), (i32, Seq<char>)>),
}

/// The value of an event.
pub open spec fn read_event_view(e: ReadEvent) -> ReadEventV {
    match e {
        ReadEvent::Start => ReadEventV::Start,
        ReadEvent::ReadOk => ReadEventV::ReadOk,
        ReadEvent::ReadFailed(x) => ReadEventV::ReadFailed(err_view(x)),
        ReadEvent::Refreshed(Ok(())) => ReadEventV::Refreshed(Ok(())),
        ReadEvent::Refreshed(Err(x)) => ReadEventV::Refreshed(Err(err_view(x))),
    }
}

/// Mathematical value of a [`ReadAction`].
pub ghost enum ReadActionV {
    Read,
    Refresh,
    Return,
    Fail((i32, Seq<char>)),
}

/// The value of an action.
pub open spec fn read_action_view(a: ReadAction) -> ReadActionV {
    match a {
        ReadAction::Read => ReadActionV::Read,
        ReadAction::Refresh => ReadActionV::Refresh,
        ReadAction::Return => ReadActionV::Return,
        ReadAction::Fail(x) => ReadActionV::Fail(err_view(x)),
    }
}

/// One step of a read with silent recovery: run the read; when it fails
/// with an expired or rejected session (an `Auth` failure, kind 3) and a
/// refresh may run (`can_refresh`: `auto_refresh` is on and a refresh
/// command is configured), run the refresh helper once and run the read
/// again. When no refresh may run, that first failure comes back unchanged.
/// Any other failure, a failure of the helper, and a failure of the
/// retried read are returned as they are.
pub open spec fn read_next(stage: int, can_refresh: bool, ev: ReadEventV) -> (int, ReadActionV) {
    let protocol = (4int, ReadActionV::Fail((1, auth::flow_protocol_msg())));
    if stage == 0 {
        (1, ReadActionV::Read)
    } else if stage == 1 {
        match ev {
            ReadEventV::ReadOk => (4, ReadActionV::Return),
            ReadEventV::ReadFailed(e) => if e.0 == 3 && can_refresh {
                (2, ReadActionV::Refresh)
            } else {
                (4, ReadActionV::Fail(e))
            },
            _ => protocol,
        }
    } else if stage == 2 {
        match ev {
            ReadEventV::Refreshed(Ok(())) => (3, ReadActionV::Read),
            ReadEventV::Refreshed(Err(e)) => (4, ReadActionV::Fail(e)),
            _ => protocol,
        }
    } else if stage == 3 {
        match ev {
            ReadEventV::ReadOk => (4, ReadActionV::Return),
            ReadEventV::ReadFailed(e) => (4, ReadActionV::Fail(e)),
            _ => protocol,
        }
    } else {
        protocol
    }
}

fn read_protocol() -> (res: ReadStep)
    ensures
        read_stage(res.next) == 4,
        read_action_view(res.action) == ReadActionV::Fail((1, auth::flow_protocol_msg())),
{
    ReadStep {
        next: ReadState::Over,
        action: ReadAction::Fail(AppError::Other(owned("reply does not match the pending action"))),
    }
}

/// Runs a read with silent recovery from an expired session, given the
/// `auto_refresh` setting and the refresh command in effect: call first
/// with [`ReadState::Start`] and [`ReadEvent::Start`]; perform each action
/// and call again with the state handed back and the outcome, until
/// `Return` or `Fail`. Reads only: the read may run twice.
pub fn read_step(
    state: ReadState,
    auto_refresh: bool,
    refresh_command: Option<&str>,
    ev: ReadEvent,
) -> (res: ReadStep)
    ensures
        (read_stage(res.next), read_action_view(res.action)) == read_next(
            read_stage(state),
            auto_refresh && refresh_command is Some,
            read_event_view(ev),
        ),
{
    match state {
        ReadState::Start => ReadStep { next: ReadState::FirstRead, action: ReadAction::Read },
        ReadState::FirstRead => match ev {
            ReadEvent::ReadOk => ReadStep { next: ReadState::Over, action: ReadAction::Return },
            ReadEvent::ReadFailed(e) => if retry_after_refresh(0, &e) && auto_refresh_blocked(
                auto_refresh,
                refresh_command,
            ).is_none() {
                ReadStep { next: ReadState::Refreshing, action: ReadAction::Refresh }
            } else {
                ReadStep { next: ReadState::Over, action: ReadAction::Fail(e) }
            },
            _ => read_protocol(),
        },
        ReadState::Refreshing => match ev {
            ReadEvent::Refreshed(Ok(())) => ReadStep {
                next: ReadState::SecondRead,
                action: ReadAction::Read,
            },
            ReadEvent::Refreshed(Err(e)) => ReadStep {
                next: ReadState::Over,
                action: ReadAction::Fail(e),
            },
            _ => read_protocol(),
        },
        ReadState::SecondRead => match ev {
            ReadEvent::ReadOk => ReadStep { next: ReadState::Over, action: ReadAction::Return },
            ReadEvent::ReadFailed(e) => ReadStep {
                next: ReadState::Over,
                action: ReadAction::Fail(e),
            },
            _ => read_protocol(),
        },
        ReadState::Over => read_protocol(),
    }
}

/// The refresh helper runs at most once per read: every step moves the
/// read to a later stage until it is over, and the helper is asked for only
/// on the move from the first attempt to the refresh, only after an `Auth`
/// failure, and only when a refresh may run.
pub proof fn refresh_runs_at_most_once(stage: int, can_refresh: bool, ev: ReadEventV)
    requires
        0 <= stage <= 4,
    ensures
        stage < 4 ==> read_next(stage, can_refresh, ev).0 > stage,
        read_next(stage, can_refresh, ev).0 <= 4,
        stage == 4 ==> read_next(stage, can_refresh, ev).1 is Fail,
        read_next(stage, can_refresh, ev).1 is Refresh ==> (stage == 1 && can_refresh && read_next(
            stage,
            can_refresh,
            ev,
        ).0 == 2 && (ev matches ReadEventV::ReadFailed(e) && e.0 == 3)),
{
}

/// Errors are never replaced: a failure of the retried read is returned as
/// it is; so is a failure of the first attempt that is not an `Auth`
/// failure, and an `Auth` failure when no refresh may run (auto refresh off
/// or no refresh command), with its exit code and message unchanged.
pub proof fn failures_come_back_unchanged(can_refresh: bool, e: (i32, Seq<char>))
    ensures
        read_next(3, can_refresh, ReadEventV::ReadFailed(e)) == (4int, ReadActionV::Fail(e)),
        e.0 != 3 ==> read_next(1, can_refresh, ReadEventV::ReadFailed(e)) == (
            4int,
            ReadActionV::Fail(e),
        ),
        !can_refresh ==> read_next(1, can_refresh, ReadEventV::ReadFailed(e)) == (
            4int,
            ReadActionV::Fail(e),
        ),
{
}

// ---------------------------------------------------------------------------
// Commands not mapped to the account experience yet
// ---------------------------------------------------------------------------

/// The tail of every "not mapped yet" message.
pub open spec fn unmapped_tail() -> Seq<char> {
    " isn't available yet on the new Xfinity account experience — see docs/api.md"@
}

/// The error for a command that is not mapped yet.
pub fn unmapped(command: &str) -> (res: AppError)
    ensures
        res matches AppError::Other(m) && m@ == "`"@ + command@ + "`"@ + unmapped_tail(),
{
    let mut m = String::new();
    push_str(&mut m, "`");
    push_str(&mut m, command);
    push_str(&mut m, "`");
    push_str(&mut m, " isn't available yet on the new Xfinity account experience — see docs/api.md");
    AppError::Other(m)
}

/// The account number in effect for the summary DTO: `--account` /
/// `$XFINITY_ACCOUNT`, else config; an empty value counts as unset.
pub fn account_override(cli: Option<&str>, cfg: Option<&str>) -> (res: Option<String>)
    ensures
        opt_string(res) == match crate::client::opt_text(cli) {
            Some(a) => if a.len() > 0 {
                Some(a)
            } else {
                None
            },
            None => match crate::client::opt_text(cfg) {
                Some(a) => if a.len() > 0 {
                    Some(a)
                } else {
                    None
                },
                None => None,
            },
        },
{
    match cli {
        Some(a) => nonempty_text(Some(a)),
        None => nonempty_text(cfg),
    }
}

// ---------------------------------------------------------------------------
// Discovery
// ---------------------------------------------------------------------------

/// The command groups `xfin info` advertises.
pub open spec fn advertised_commands() -> Seq<Seq<char>> {
    seq![
        "summary"@,
        "balance"@,
        "account"@,
        "billing"@,
        "payments"@,
        "internet"@,
        "outages"@,
        "equipment"@,
        "api"@,
    ]
}

/// The `cli-info/v1` capability document.
pub open spec fn info_json(version: Seq<char>) -> JsonV {
    JsonV::Object(
        seq![
            ("schema"@, JsonV::Str("cli-info/v1"@)),
            ("name"@, JsonV::Str("xfin"@)),
            ("version"@, JsonV::Str(version)),
            ("repository"@, JsonV::Str("https://github.com/piekstra/xfinity-cli"@)),
            (
                "auth"@,
                JsonV::Object(
                    seq![
                        ("required"@, JsonV::Bool(true)),
                        ("method"@, JsonV::Str("browser-session"@)),
                        ("login_hint"@, JsonV::Str("xfin auth login"@)),
                    ],
                ),
            ),
            (
                "commands"@,
                JsonV::Array(advertised_commands().map_values(|c: Seq<char>| JsonV::Str(c))),
            ),
            ("profiles"@, JsonV::Array(seq![JsonV::Str("utility/v1"@)])),
        ],
    )
}

/// `xfin info`: the capability document for this version.
pub fn info(version: &str) -> (res: Json)
    ensures
        res@ == info_json(version@),
{
    let mut auth: Vec<(String, Json)> = Vec::new();
    push_member(&mut auth, "required", Json::Bool(true));
    push_member(&mut auth, "method", text_value("browser-session"));
    push_member(&mut auth, "login_hint", text_value("xfin auth login"));
    let mut cmds: Vec<Json> = Vec::new();
    push_item(&mut cmds, text_value("summary"));
    push_item(&mut cmds, text_value("balance"));
    push_item(&mut cmds, text_value("account"));
    push_item(&mut cmds, text_value("billing"));
    push_item(&mut cmds, text_value("payments"));
    push_item(&mut cmds, text_value("internet"));
    push_item(&mut cmds, text_value("outages"));
    push_item(&mut cmds, text_value("equipment"));
    push_item(&mut cmds, text_value("api"));
    let mut profiles: Vec<Json> = Vec::new();
    push_item(&mut profiles, text_value("utility/v1"));
    let mut m: Vec<(String, Json)> = Vec::new();
    push_member(&mut m, "schema", text_value("cli-info/v1"));
    push_member(&mut m, "name", text_value("xfin"));
    push_member(&mut m, "version", text_value(version));
    push_member(&mut m, "repository", text_value("https://github.com/piekstra/xfinity-cli"));
    assert(view_members(auth@) =~= seq![
        ("required"@, JsonV::Bool(true)),
        ("method"@, JsonV::Str("browser-session"@)),
        ("login_hint"@, JsonV::Str("xfin auth login"@)),
    ]);
    push_member(&mut m, "auth", Json::Object(auth));
    assert(view_items(cmds@) =~= advertised_commands().map_values(|c: Seq<char>| JsonV::Str(c)));
    push_member(&mut m, "commands", Json::Array(cmds));
    assert(view_items(profiles@) =~= seq![JsonV::Str("utility/v1"@)]);
    push_member(&mut m, "profiles", Json::Array(profiles));
    assert(view_members(m@) =~= match info_json(version@) {
        JsonV::Object(ms) => ms,
        _ => Seq::empty(),
    });
    Json::Object(m)
}

/// The `auth status` report: what is configured and whether a session is
/// stored.
pub open spec fn status_json(username: Option<Seq<char>>, account: Option<Seq<char>>, has_session: bool) -> JsonV {
    JsonV::Object(
        seq![
            ("schema"@, JsonV::Str("auth-status/v1"@)),
            ("auth_required"@, JsonV::Bool(true)),
            ("authenticated"@, JsonV::Bool(has_session)),
            ("method"@, JsonV::Str("browser-session"@)),
            ("username"@, match username { Some(u) => JsonV::Str(u), None => JsonV::Null }),
            ("account"@, match account { Some(a) => JsonV::Str(a), None => JsonV::Null }),
            ("credential_in_keychain"@, JsonV::Bool(has_session)),
        ],
    )
}

fn text_or_null(o: Option<&str>) -> (res: Json)
    ensures
        res@ == match crate::client::opt_text(o) {
            Some(t) => JsonV::Str(t),
            None => JsonV::Null,
        },
{
    match o {
        Some(t) => text_value(t),
        None => Json::Null,
    }
}

/// `xfin auth status`.
pub fn auth_status(username: Option<&str>, account: Option<&str>, has_session: bool) -> (res: Json)
    ensures
        res@ == status_json(crate::client::opt_text(username), crate::client::opt_text(account), has_session),
{
    let mut m: Vec<(String, Json)> = Vec::new();
    push_member(&mut m, "schema", text_value("auth-status/v1"));
    push_member(&mut m, "auth_required", Json::Bool(true));
    push_member(&mut m, "authenticated", Json::Bool(has_session));
    push_member(&mut m, "method", text_value("browser-session"));
    push_member(&mut m, "username", text_or_null(username));
    push_member(&mut m, "account", text_or_null(account));
    push_member(&mut m, "credential_in_keychain", Json::Bool(has_session));
    assert(view_members(m@) =~= match status_json(
        crate::client::opt_text(username),
        crate::client::opt_text(account),
        has_session,
    ) {
        JsonV::Object(ms) => ms,
        _ => Seq::empty(),
    });
    Json::Object(m)
}

// ---------------------------------------------------------------------------
// Laws
// ---------------------------------------------------------------------------

/// A session stored under the current name is returned at once; the
/// legacy entry is not touched.
pub proof fn current_session_wins(secret: Seq<char>)
    ensures
        migration_next((1, Seq::empty()), ReplyV::Got(Ok(Some(secret)))) == StepV::Done(
            Ok(Some(secret)),
        ),
{
}

/// A session found only under the legacy name is stored under the current
/// name, the legacy entry is dropped, and the session is returned even
/// when dropping the legacy entry fails.
pub proof fn legacy_session_is_moved(secret: Seq<char>, dropped: Result<bool, (i32, Seq<char>)>)
    ensures
        migration_next((0, Seq::empty()), ReplyV::Begin) == StepV::Perform(
            (0, SERVICE@, Seq::empty()),
            (1, Seq::empty()),
        ),
        migration_next((1, Seq::empty()), ReplyV::Got(Ok(None))) == StepV::Perform(
            (0, LEGACY_SERVICE@, Seq::empty()),
            (2, Seq::empty()),
        ),
        migration_next((2, Seq::empty()), ReplyV::Got(Ok(Some(secret)))) == StepV::Perform(
            (1, SERVICE@, secret),
            (3, secret),
        ),
        migration_next((3, secret), ReplyV::Stored(Ok(()))) == StepV::Perform(
            (2, LEGACY_SERVICE@, Seq::empty()),
            (4, secret),
        ),
        migration_next((4, secret), ReplyV::Deleted(dropped)) == StepV::Done(Ok(Some(secret))),
{
}

/// A failure to store the moved session ends the read with that failure,
/// so the legacy entry is never dropped without a copy under the current
/// name.
pub proof fn failed_move_keeps_the_legacy_entry(secret: Seq<char>, e: (i32, Seq<char>))
    ensures
        migration_next((3, secret), ReplyV::Stored(Err(e))) == StepV::Done(Err(e)),
{
}

/// One user's entries in a keychain whose operations succeed: the secret
/// under the current service name and under the legacy one.
pub ghost struct KeychainV {
    pub current: Option<Seq<char>>,
    pub legacy: Option<Seq<char>>,
}

/// Performs an operation on such a keychain: the keychain after it and the
/// reply. Other service names hold nothing.
pub open spec fn perform_op(kc: KeychainV, op: (int, Seq<char>, Seq<char>)) -> (KeychainV, ReplyV) {
    if op.0 == 0 {
        (
            kc,
            ReplyV::Got(
                Ok(
                    if op.1 == SERVICE@ {
                        kc.current
                    } else if op.1 == LEGACY_SERVICE@ {
                        kc.legacy
                    } else {
                        None
                    },
                ),
            ),
        )
    } else if op.0 == 1 {
        (
            if op.1 == SERVICE@ {
                KeychainV { current: Some(op.2), ..kc }
            } else if op.1 == LEGACY_SERVICE@ {
                KeychainV { legacy: Some(op.2), ..kc }
            } else {
                kc
            },
            ReplyV::Stored(Ok(())),
        )
    } else {
        if op.1 == SERVICE@ {
            (KeychainV { current: None, ..kc }, ReplyV::Deleted(Ok(kc.current is Some)))
        } else if op.1 == LEGACY_SERVICE@ {
            (KeychainV { legacy: None, ..kc }, ReplyV::Deleted(Ok(kc.legacy is Some)))
        } else {
            (kc, ReplyV::Deleted(Ok(false)))
        }
    }
}

/// Drives a session read for at most `fuel` keychain operations: its
/// result (`None` when the fuel ran out) and the keychain afterwards.
pub open spec fn drive_migration(
    fuel: nat,
    state: (int, Seq<char>),
    reply: ReplyV,
    kc: KeychainV,
) -> (Option<Result<Option<Seq<char>>, (i32, Seq<char>)>>, KeychainV)
    decreases fuel,
{
    match migration_next(state, reply) {
        StepV::Done(r) => (Some(r), kc),
        StepV::Perform(op, next) => if fuel == 0 {
            (None, kc)
        } else {
            let (kc2, rep) = perform_op(kc, op);
            drive_migration((fuel - 1) as nat, next, rep, kc2)
        },
    }
}

/// A whole session read against a keychain whose operations succeed: a
/// current entry is returned and nothing changes; otherwise a legacy entry
/// is returned, copied under the current name and dropped from the legacy
/// one; with neither, nothing is returned and nothing changes. A second
/// read right after returns the same and changes nothing more.
pub proof fn session_read_migrates_once(kc: KeychainV)
    ensures
        ({
            let first = drive_migration(4, (0, Seq::empty()), ReplyV::Begin, kc);
            let second = drive_migration(4, (0, Seq::empty()), ReplyV::Begin, first.1);
            &&& match kc.current {
                Some(s) => first.0 matches Some(Ok(Some(x))) && x == s && first.1 == kc,
                None => match kc.legacy {
                    Some(s) => first.0 matches Some(Ok(Some(x))) && x == s && first.1 == KeychainV {
                        current: Some(s),
                        legacy: None,
                    },
                    None => first.0 matches Some(Ok(None)) && first.1 == kc,
                },
            }
            &&& second == (first.0, first.1)
        }),
{
    reveal_strlit("piekstra.xfin");
    reveal_strlit("xfinity-cli");
    assert(SERVICE@ != LEGACY_SERVICE@) by {
        assert(SERVICE@[0] != LEGACY_SERVICE@[0]);
    }
    reveal_with_fuel(drive_migration, 5);
}

} // verus!

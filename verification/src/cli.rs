//! The command surface as plain values: what each subcommand and its flags
//! carry once the command line has been read.

use vstd::prelude::*;

verus! {

/// `xfin auth …`.
pub enum AuthCommand {
    /// Store a captured `Authorization: Bearer` token in the keychain.
    Login(LoginArgs),
    /// Refresh the stored token by running the user's capture helper.
    Refresh(RefreshArgs),
    /// Show configured username, active account, and keychain state.
    Status { json: bool },
    /// Write a single credential to the keychain.
    SetCredential(SetCredentialArgs),
    /// Remove the stored session; with `forget`, the config file too.
    Logout { forget: bool },
}

/// Flags of `xfin auth refresh`.
pub struct RefreshArgs {
    /// The command to run (overrides env and config), via `sh -c`.
    pub command: Option<String>,
    /// Persist `command` to config as the default `refresh_command`.
    pub save: bool,
    /// Store the token without the live verification read.
    pub skip_verification: bool,
    /// Emit the result as JSON on stdout.
    pub json: bool,
}

/// Flags of `xfin auth login`.
pub struct LoginArgs {
    /// Read the session from stdin.
    pub stdin: bool,
    /// Read the session from a named environment variable.
    pub from_env: Option<String>,
    /// Replace an existing stored session instead of failing.
    pub overwrite: bool,
    /// Skip the live session check.
    pub skip_verification: bool,
    /// Never prompt; fail if a required input is missing.
    pub non_interactive: bool,
    /// Emit the result as JSON on stdout.
    pub json: bool,
}

/// Flags of `xfin set-credential`.
pub struct SetCredentialArgs {
    /// Read the secret from stdin.
    pub stdin: bool,
    /// Read the secret from a named environment variable.
    pub from_env: Option<String>,
    /// Replace an existing entry instead of failing.
    pub overwrite: bool,
    /// Emit the result as JSON on stdout.
    pub json: bool,
}

/// `xfin account …`.
pub enum AccountCommand {
    /// The account profile (name, contact, service address).
    Get,
    /// The default account number on this login.
    Number,
    /// The users/contacts on the account.
    Users,
    /// Account locality / service info.
    Info,
    /// Multi-factor enrollment status (not mapped yet).
    Security,
}

/// `xfin config …`.
pub enum ConfigCommand {
    /// Print the resolved config file path.
    Path,
    /// Show the stored configuration.
    Show,
    /// Set a config key.
    SetKey { key: String, value: String },
    /// Remove a config key.
    Unset { key: String },
}

/// `xfin payments …`.
pub enum PaymentsCommand {
    /// Not mapped yet.
    Login(LoginArgs),
    /// Not mapped yet.
    Logout,
    /// Not mapped yet.
    Methods,
    /// Scheduled (upcoming) payments.
    Scheduled,
    /// Not mapped yet.
    Autopay,
    /// Not mapped yet.
    Create { amount: String, date: Option<String>, method: Option<String>, force: bool },
}

/// `xfin internet …`.
pub enum InternetCommand {
    /// Data usage; every cycle with `history`.
    Usage { history: bool },
    /// Subscribed plan.
    Plan,
    /// Devices seen on the account gateway.
    Devices,
    /// Gateway/modem online status.
    Status,
}

/// `xfin equipment …`.
pub enum EquipmentCommand {
    /// Pending equipment returns (not mapped yet).
    Returns,
}

/// `xfin api METHOD PATH [--data JSON]`.
pub struct ApiArgs {
    /// HTTP method.
    pub method: String,
    /// `digital/service/api` path or a full URL.
    pub path: String,
    /// Request body as a JSON string.
    pub data: Option<String>,
}

} // verus!

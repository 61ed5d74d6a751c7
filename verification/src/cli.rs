//! The command line: its commands and arguments, and its errors with their exit codes.
use vstd::prelude::*;

use crate::client::MemoClientError;
use crate::errors::{api_error_text, ApiError};

verus! {

broadcast use vstd::string::group_string_axioms;

/// The command line with its global flags.
#[derive(Debug)]
pub struct Cli {
    pub json: bool,
    pub host: Option<String>,
    pub port: Option<u16>,
    pub token: Option<String>,
    pub mount: Option<String>,
    pub command: Commands,
}

/// The commands.
#[derive(Debug)]
pub enum Commands {
    Daemon(DaemonCommand),
    Mount(MountCommand),
    Token(TokenCommand),
    Audit(AuditArgs),
    Ls(FsLsArgs),
    Tree(FsTreeArgs),
    Cat(FsCatArgs),
    Write(FsWriteArgs),
    Mkdir(FsMkdirArgs),
    Mv(FsMvArgs),
    Rm(FsRmArgs),
    Cp(FsCpArgs),
    Grep(FsGrepArgs),
    Find(FsFindArgs),
    Info(FsInfoArgs),
}

/// Daemon management.
#[derive(Debug)]
pub enum DaemonCommand {
    Start,
    Stop,
    Status,
    Logs(DaemonLogsArgs),
}

/// How much of the daemon log to show.
#[derive(Debug)]
pub struct DaemonLogsArgs {
    pub tail: usize,
}

/// Mount management.
#[derive(Debug)]
pub enum MountCommand {
    List,
    Add(MountAddArgs),
    Remove(MountRemoveArgs),
    Show(MountShowArgs),
    Update(MountUpdateArgs),
}

/// A mount to add.
#[derive(Debug)]
pub struct MountAddArgs {
    pub name: String,
    pub path: String,
    pub mode: String,
    pub audience: String,
    pub description: Option<String>,
    pub hide_glob: Vec<String>,
    pub deny_read_glob: Vec<String>,
    pub deny_write_glob: Vec<String>,
    pub max_read_bytes: Option<u64>,
    pub max_write_bytes: Option<u64>,
}

/// A mount to remove.
#[derive(Debug)]
pub struct MountRemoveArgs {
    pub name: String,
}

/// A mount to show.
#[derive(Debug)]
pub struct MountShowArgs {
    pub name: String,
}

/// A change to a mount; each `clear_` flag clears the matching setting.
#[derive(Debug)]
pub struct MountUpdateArgs {
    pub name: String,
    pub mode: Option<String>,
    pub audience: Option<String>,
    pub description: Option<String>,
    pub clear_description: bool,
    pub hide_glob: Option<Vec<String>>,
    pub clear_hide_globs: bool,
    pub deny_read_glob: Option<Vec<String>>,
    pub clear_deny_read_globs: bool,
    pub deny_write_glob: Option<Vec<String>>,
    pub clear_deny_write_globs: bool,
    pub max_read_bytes: Option<u64>,
    pub clear_max_read_bytes: bool,
    pub max_write_bytes: Option<u64>,
    pub clear_max_write_bytes: bool,
}

/// Token management.
#[derive(Debug)]
pub enum TokenCommand {
    List,
    Create(TokenCreateArgs),
    Revoke(TokenRevokeArgs),
}

/// A token to create.
#[derive(Debug)]
pub struct TokenCreateArgs {
    pub name: String,
    pub scopes: Vec<String>,
    pub expires: Option<String>,
}

/// A token to revoke.
#[derive(Debug)]
pub struct TokenRevokeArgs {
    pub id: String,
}

/// An audit query as given on the command line.
#[derive(Debug)]
pub struct AuditArgs {
    pub mount: Option<String>,
    pub token_id: Option<String>,
    pub operation: Option<String>,
    pub result: Option<String>,
    pub limit: Option<u64>,
    pub before: Option<String>,
    pub after: Option<String>,
}

/// A directory to list.
#[derive(Debug)]
pub struct FsLsArgs {
    pub path: String,
    pub info: bool,
}

/// A tree to show.
#[derive(Debug)]
pub struct FsTreeArgs {
    pub path: String,
    pub depth: Option<u8>,
}

/// A file to print.
#[derive(Debug)]
pub struct FsCatArgs {
    pub path: String,
}

/// A file to write, from a local file or standard input.
#[derive(Debug)]
pub struct FsWriteArgs {
    pub path: String,
    pub file: Option<String>,
}

/// A directory to create.
#[derive(Debug)]
pub struct FsMkdirArgs {
    pub path: String,
}

/// A move.
#[derive(Debug)]
pub struct FsMvArgs {
    pub src: String,
    pub dst: String,
}

/// A removal.
#[derive(Debug)]
pub struct FsRmArgs {
    pub path: String,
    pub recursive: bool,
}

/// A copy.
#[derive(Debug)]
pub struct FsCpArgs {
    pub src: String,
    pub dst: String,
}

/// A content search.
#[derive(Debug)]
pub struct FsGrepArgs {
    pub path: String,
    pub pattern: String,
    pub no_recursive: bool,
    pub case_insensitive: bool,
    pub max_results: Option<u64>,
}

/// A search by name.
#[derive(Debug)]
pub struct FsFindArgs {
    pub path: String,
    pub glob: String,
    pub max_results: Option<u64>,
}

/// A path to describe.
#[derive(Debug)]
pub struct FsInfoArgs {
    pub path: String,
}

/// Why a command failed.
#[derive(Debug)]
pub enum CliError {
    Config(String),
    Io(String),
    DaemonUnreachable(String),
    Auth(String),
    Command(String),
}

/// The message of an error.
pub open spec fn cli_error_text(e: CliError) -> Seq<char> {
    match e {
        CliError::Config(m) => m@,
        CliError::Io(m) => m@,
        CliError::DaemonUnreachable(m) => m@,
        CliError::Auth(m) => m@,
        CliError::Command(m) => m@,
    }
}

/// How a client failure is reported on the command line: authentication failures, an
/// unreachable daemon, and everything else as a failed command.
pub open spec fn cli_error_from_client(e: MemoClientError, r: CliError) -> bool {
    match e {
        MemoClientError::Api(ApiError::AuthRequired) => r matches CliError::Auth(m) && m@
            == "authentication required"@,
        MemoClientError::Api(ApiError::TokenInvalid) => r matches CliError::Auth(m) && m@
            == "token invalid"@,
        MemoClientError::Api(ApiError::TokenExpired) => r matches CliError::Auth(m) && m@
            == "token expired"@,
        MemoClientError::Request(m) => r matches CliError::DaemonUnreachable(x) && x@ == m@,
        MemoClientError::Api(a) => r matches CliError::Command(x) && x@ == api_error_text(a),
        MemoClientError::InvalidBaseUrl(m) => r matches CliError::Command(x) && x@ == m@,
        MemoClientError::Decode(m) => r matches CliError::Command(x) && x@ == m@,
    }
}

impl CliError {
    /// The process exit code: 2 for authentication, 5 for an unreachable daemon, 1
    /// otherwise.
    pub fn exit_code(&self) -> (c: i32)
        ensures
            c == (match *self {
                CliError::Auth(_) => 2i32,
                CliError::DaemonUnreachable(_) => 5i32,
                _ => 1i32,
            }),
    {
        match self {
            CliError::Auth(_) => 2,
            CliError::DaemonUnreachable(_) => 5,
            CliError::Config(_) => 1,
            CliError::Io(_) => 1,
            CliError::Command(_) => 1,
        }
    }

    /// The error to report for a failed client call.
    pub fn from_client_error(error: MemoClientError) -> (r: CliError)
        ensures
            cli_error_from_client(error, r),
    {
        match error {
            MemoClientError::Api(ApiError::AuthRequired) => CliError::Auth(
                "authentication required".to_owned(),
            ),
            MemoClientError::Api(ApiError::TokenInvalid) => CliError::Auth(
                "token invalid".to_owned(),
            ),
            MemoClientError::Api(ApiError::TokenExpired) => CliError::Auth(
                "token expired".to_owned(),
            ),
            MemoClientError::Request(message) => CliError::DaemonUnreachable(message),
            MemoClientError::Api(api_error) => CliError::Command(api_error.to_string()),
            MemoClientError::InvalidBaseUrl(message) => CliError::Command(message),
            MemoClientError::Decode(message) => CliError::Command(message),
        }
    }

    /// The message of the error.
    pub fn to_string(&self) -> (s: String)
        ensures
            s@ == cli_error_text(*self),
    {
        match self {
            CliError::Config(m) => m.clone(),
            CliError::Io(m) => m.clone(),
            CliError::DaemonUnreachable(m) => m.clone(),
            CliError::Auth(m) => m.clone(),
            CliError::Command(m) => m.clone(),
        }
    }
}

} // verus!

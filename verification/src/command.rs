//! The commands a run sends out, and what their outcomes mean.
//!
//! Nothing here runs a process. A `Request` says what to run; whoever ran it
//! hands back what the process left, and `Request::reply` reads that.

use vstd::prelude::*;
use vstd::string::*;
use vstd::utf8::{decode_utf8, valid_utf8};
use crate::error::{BenchError, ErrorView};
use crate::text::{contains, find, to_chars};

verus! {

/// A process to run on this machine.
#[derive(Debug, PartialEq, Eq)]
pub enum Request {
    /// Runs `remote_cmd` in a shell of `user_name` on the machine `ip`.
    Ssh { user_name: String, ip: String, remote_cmd: String },
    /// Copies `local_path` to `remote_path` on the machine `ip`.
    Scp { is_dir: bool, user_name: String, ip: String, local_path: String, remote_path: String },
    /// Copies `remote_path` on the machine `ip` to `local_path`.
    ScpFrom {
        is_dir: bool,
        user_name: String,
        ip: String,
        remote_path: String,
        local_path: String,
    },
    /// Copies `source` to `dest`, both on this machine.
    Cp { is_dir: bool, source: String, dest: String },
    /// Lists `path` on this machine.
    Ls { path: String },
}

/// A request as plain values.
pub enum RequestView {
    Ssh { user_name: Seq<char>, ip: Seq<char>, remote_cmd: Seq<char> },
    Scp {
        is_dir: bool,
        user_name: Seq<char>,
        ip: Seq<char>,
        local_path: Seq<char>,
        remote_path: Seq<char>,
    },
    ScpFrom {
        is_dir: bool,
        user_name: Seq<char>,
        ip: Seq<char>,
        remote_path: Seq<char>,
        local_path: Seq<char>,
    },
    Cp { is_dir: bool, source: Seq<char>, dest: Seq<char> },
    Ls { path: Seq<char> },
}

impl View for Request {
    type V = RequestView;

    open spec fn view(&self) -> RequestView {
        match *self {
            Request::Ssh { user_name, ip, remote_cmd } => RequestView::Ssh {
                user_name: user_name@,
                ip: ip@,
                remote_cmd: remote_cmd@,
            },
            Request::Scp { is_dir, user_name, ip, local_path, remote_path } => RequestView::Scp {
                is_dir,
                user_name: user_name@,
                ip: ip@,
                local_path: local_path@,
                remote_path: remote_path@,
            },
            Request::ScpFrom { is_dir, user_name, ip, remote_path, local_path } => {
                RequestView::ScpFrom {
                    is_dir,
                    user_name: user_name@,
                    ip: ip@,
                    remote_path: remote_path@,
                    local_path: local_path@,
                }
            },
            Request::Cp { is_dir, source, dest } => RequestView::Cp {
                is_dir,
                source: source@,
                dest: dest@,
            },
            Request::Ls { path } => RequestView::Ls { path: path@ },
        }
    }
}

/// `user@ip`, as ssh and scp name an account on a machine.
pub open spec fn account(user_name: Seq<char>, ip: Seq<char>) -> Seq<char> {
    user_name + "@"@ + ip
}

/// `-r` where a directory is copied, nothing else.
pub open spec fn recursive_flag(is_dir: bool) -> Seq<Seq<char>> {
    if is_dir {
        seq!["-r"@]
    } else {
        Seq::empty()
    }
}

impl RequestView {
    /// The name of the program.
    pub open spec fn program(self) -> Seq<char> {
        match self {
            RequestView::Ssh { .. } => "ssh"@,
            RequestView::Scp { .. } => "scp"@,
            RequestView::ScpFrom { .. } => "scp"@,
            RequestView::Cp { .. } => "cp"@,
            RequestView::Ls { .. } => "ls"@,
        }
    }

    /// The arguments of the program, in order.
    pub open spec fn arguments(self) -> Seq<Seq<char>> {
        match self {
            RequestView::Ssh { user_name, ip, remote_cmd } => seq![
                account(user_name, ip),
                remote_cmd,
            ],
            RequestView::Scp { is_dir, user_name, ip, local_path, remote_path } => {
                recursive_flag(is_dir) + seq![
                    local_path,
                    account(user_name, ip) + ":"@ + remote_path,
                ]
            },
            RequestView::ScpFrom { is_dir, user_name, ip, remote_path, local_path } => {
                recursive_flag(is_dir) + seq![
                    account(user_name, ip) + ":"@ + remote_path,
                    local_path,
                ]
            },
            RequestView::Cp { is_dir, source, dest } => recursive_flag(is_dir) + seq![
                source,
                dest,
            ],
            RequestView::Ls { path } => seq![path],
        }
    }

    /// The machine that the process talks to, if it talks to one.
    pub open spec fn remote(self) -> Option<Seq<char>> {
        match self {
            RequestView::Ssh { ip, .. } => Some(ip),
            RequestView::Scp { ip, .. } => Some(ip),
            RequestView::ScpFrom { ip, .. } => Some(ip),
            _ => None,
        }
    }

    /// What is read from a process that has ended: `cmd` is the command line
    /// as the caller shows it in failures.
    ///
    /// The exit code decides first (`output_text`); a remote request then
    /// marks a failed or missing command as remote. A copy that left with
    /// code 2 and a listing that left with code 2 or spoke of a missing file
    /// report the file as not found.
    pub open spec fn reply(self, cmd: Seq<char>, output: ProcessOutput) -> Result<
        Seq<char>,
        ErrorView,
    > {
        let read = output_text(cmd, output);
        match self {
            RequestView::Ssh { ip, .. } => mark_remote(read, ip),
            RequestView::Scp { ip, local_path, .. } => match mark_remote(read, ip) {
                Err(ErrorView::CommandFailedOnRemote(_, _, code, _)) if code == 2 => Err(
                    ErrorView::FileNotFound(local_path),
                ),
                other => other,
            },
            RequestView::ScpFrom { ip, remote_path, .. } => match mark_remote(read, ip) {
                Err(ErrorView::CommandFailedOnRemote(_, _, code, _)) if code == 2 => Err(
                    ErrorView::FileNotFound(remote_path),
                ),
                other => other,
            },
            RequestView::Cp { source, .. } => match read {
                Err(ErrorView::CommandFailed(_, code, _)) if code == 2 => Err(
                    ErrorView::FileNotFound(source),
                ),
                other => other,
            },
            RequestView::Ls { path } => match read {
                Err(ErrorView::CommandFailed(_, code, stderr)) if code == 2 || contains(
                    stderr,
                    no_such_file(),
                ) => Err(ErrorView::FileNotFound(path)),
                other => other,
            },
        }
    }
}

/// The words by which a listing tells of a missing file.
pub open spec fn no_such_file() -> Seq<char> {
    "No such file or directory"@
}

/// A failure marked as one of the machine `ip`; an output stays as it is.
pub open spec fn mark_remote(read: Result<Seq<char>, ErrorView>, ip: Seq<char>) -> Result<
    Seq<char>,
    ErrorView,
> {
    match read {
        Ok(text) => Ok(text),
        Err(error) => Err(error.as_remote(ip)),
    }
}

/// What a process left when it ended: its exit code, none if a signal ended
/// it, and what it wrote.
#[derive(Debug, PartialEq, Eq)]
pub struct ProcessOutput {
    pub code: Option<i32>,
    pub stdout: Vec<u8>,
    pub stderr: Vec<u8>,
}

/// What came of a request: what the process printed, or the failure.
pub type Reply = Result<String, BenchError>;

/// A reply as plain values.
pub open spec fn reply_view(reply: Reply) -> Result<Seq<char>, ErrorView> {
    match reply {
        Ok(text) => Ok(text@),
        Err(error) => Err(error@),
    }
}

/// The output or the failure that an ended process stands for.
///
/// Code 0 gives what the process printed, code 127 says that no such command
/// exists, any other code is a failure with what the process wrote to its
/// error stream, and no code means that a signal ended it. What was written
/// has to be UTF-8.
pub open spec fn output_text(cmd: Seq<char>, output: ProcessOutput) -> Result<
    Seq<char>,
    ErrorView,
> {
    match output.code {
        Some(code) => {
            if code == 0 {
                if valid_utf8(output.stdout@) {
                    Ok(decode_utf8(output.stdout@))
                } else {
                    Err(ErrorView::ParseUtf8Error(cmd))
                }
            } else if code == 127 {
                Err(ErrorView::NoSuchCommand(cmd))
            } else if valid_utf8(output.stderr@) {
                Err(ErrorView::CommandFailed(cmd, code as int, decode_utf8(output.stderr@)))
            } else {
                Err(ErrorView::ParseUtf8Error(cmd))
            }
        },
        None => Err(ErrorView::CommandKilledBySingal(cmd)),
    }
}

/// `String::from_utf8`: the text that the bytes encode, and none where they
/// are no UTF-8.
#[verifier::external_body]
fn utf8_text(bytes: Vec<u8>) -> (text: Option<String>)
    ensures
        text is Some <==> valid_utf8(bytes@),
        text matches Some(s) ==> s@ == decode_utf8(bytes@),
{
    String::from_utf8(bytes).ok()
}

/// Reads an ended process by its exit code.
pub fn output_into_string(cmd_str: String, output: ProcessOutput) -> (reply: Reply)
    ensures
        reply_view(reply) == output_text(cmd_str@, output),
{
    match output.code {
        Some(code) => {
            if code == 0 {
                match utf8_text(output.stdout) {
                    Some(text) => Ok(text),
                    None => Err(BenchError::ParseUtf8Error(cmd_str)),
                }
            } else if code == 127 {
                Err(BenchError::NoSuchCommand(cmd_str))
            } else {
                match utf8_text(output.stderr) {
                    Some(message) => Err(BenchError::CommandFailed(cmd_str, code, message)),
                    None => Err(BenchError::ParseUtf8Error(cmd_str)),
                }
            }
        },
        None => Err(BenchError::CommandKilledBySingal(cmd_str)),
    }
}

/// A remote shell command.
pub fn ssh(user_name: &str, ip: &str, remote_cmd: &str) -> (request: Request)
    ensures
        request@ == (RequestView::Ssh { user_name: user_name@, ip: ip@, remote_cmd: remote_cmd@ }),
{
    Request::Ssh {
        user_name: String::from_str(user_name),
        ip: String::from_str(ip),
        remote_cmd: String::from_str(remote_cmd),
    }
}

/// A copy from this machine to a remote one.
pub fn scp(is_dir: bool, user_name: &str, ip: &str, local_path: &str, remote_path: &str) -> (request:
    Request)
    ensures
        request@ == (RequestView::Scp {
            is_dir,
            user_name: user_name@,
            ip: ip@,
            local_path: local_path@,
            remote_path: remote_path@,
        }),
{
    Request::Scp {
        is_dir,
        user_name: String::from_str(user_name),
        ip: String::from_str(ip),
        local_path: String::from_str(local_path),
        remote_path: String::from_str(remote_path),
    }
}

/// A copy from a remote machine to this one.
pub fn scp_from(
    is_dir: bool,
    user_name: &str,
    ip: &str,
    remote_path: &str,
    local_path: &str,
) -> (request: Request)
    ensures
        request@ == (RequestView::ScpFrom {
            is_dir,
            user_name: user_name@,
            ip: ip@,
            remote_path: remote_path@,
            local_path: local_path@,
        }),
{
    Request::ScpFrom {
        is_dir,
        user_name: String::from_str(user_name),
        ip: String::from_str(ip),
        remote_path: String::from_str(remote_path),
        local_path: String::from_str(local_path),
    }
}

/// A copy on this machine.
pub fn cp(is_dir: bool, source: &str, dest: &str) -> (request: Request)
    ensures
        request@ == (RequestView::Cp { is_dir, source: source@, dest: dest@ }),
{
    Request::Cp { is_dir, source: String::from_str(source), dest: String::from_str(dest) }
}

/// A listing on this machine.
pub fn ls(path: &str) -> (request: Request)
    ensures
        request@ == (RequestView::Ls { path: path@ }),
{
    Request::Ls { path: String::from_str(path) }
}

fn account_text(user_name: &String, ip: &String) -> (text: String)
    ensures
        text@ == account(user_name@, ip@),
{
    let mut text = user_name.clone();
    text.append("@");
    text.append(ip.as_str());
    text
}

fn remote_place(user_name: &String, ip: &String, path: &String) -> (text: String)
    ensures
        text@ == account(user_name@, ip@) + ":"@ + path@,
{
    let mut text = account_text(user_name, ip);
    text.append(":");
    text.append(path.as_str());
    text
}

fn flag_arguments(is_dir: bool) -> (args: Vec<String>)
    ensures
        args.deep_view() == recursive_flag(is_dir),
{
    let mut args: Vec<String> = Vec::new();
    if is_dir {
        args.push(String::from_str("-r"));
    }
    assert(args.deep_view() =~= recursive_flag(is_dir));
    args
}

fn mark(reply: Reply, ip: &String) -> (marked: Reply)
    ensures
        reply_view(marked) == mark_remote(reply_view(reply), ip@),
{
    match reply {
        Ok(text) => Ok(text),
        Err(error) => Err(error.as_remote_if_possible(ip.as_str())),
    }
}

fn speaks_of_missing_file(stderr: &String) -> (speaks: bool)
    ensures
        speaks == contains(stderr@, no_such_file()),
{
    let hay = to_chars(stderr.as_str());
    let needle = to_chars("No such file or directory");
    find(&hay, &needle, 0).is_some()
}

impl Request {
    /// The name of the program to run.
    pub fn program(&self) -> (name: &'static str)
        ensures
            name@ == self@.program(),
    {
        match self {
            Request::Ssh { .. } => "ssh",
            Request::Scp { .. } => "scp",
            Request::ScpFrom { .. } => "scp",
            Request::Cp { .. } => "cp",
            Request::Ls { .. } => "ls",
        }
    }

    /// The arguments to run the program with.
    pub fn arguments(&self) -> (args: Vec<String>)
        ensures
            args.deep_view() == self@.arguments(),
    {
        match self {
            Request::Ssh { user_name, ip, remote_cmd } => {
                let mut args: Vec<String> = Vec::new();
                args.push(account_text(user_name, ip));
                args.push(remote_cmd.clone());
                assert(args.deep_view() =~= self@.arguments());
                args
            },
            Request::Scp { is_dir, user_name, ip, local_path, remote_path } => {
                let mut args = flag_arguments(*is_dir);
                args.push(local_path.clone());
                args.push(remote_place(user_name, ip, remote_path));
                assert(args.deep_view() =~= self@.arguments());
                args
            },
            Request::ScpFrom { is_dir, user_name, ip, remote_path, local_path } => {
                let mut args = flag_arguments(*is_dir);
                args.push(remote_place(user_name, ip, remote_path));
                args.push(local_path.clone());
                assert(args.deep_view() =~= self@.arguments());
                args
            },
            Request::Cp { is_dir, source, dest } => {
                let mut args = flag_arguments(*is_dir);
                args.push(source.clone());
                args.push(dest.clone());
                assert(args.deep_view() =~= self@.arguments());
                args
            },
            Request::Ls { path } => {
                let mut args: Vec<String> = Vec::new();
                args.push(path.clone());
                assert(args.deep_view() =~= self@.arguments());
                args
            },
        }
    }

    /// Reads what the process of this request left. `cmd_str` is the command
    /// line as failures are to show it.
    pub fn reply(&self, cmd_str: String, output: ProcessOutput) -> (reply: Reply)
        ensures
            reply_view(reply) == self@.reply(cmd_str@, output),
    {
        let read = output_into_string(cmd_str, output);
        match self {
            Request::Ssh { ip, .. } => mark(read, ip),
            Request::Scp { ip, local_path, .. } => {
                let marked = mark(read, ip);
                match marked {
                    Err(error) => {
                        if error.is_remote_exit(2) {
                            Err(BenchError::FileNotFound(local_path.clone()))
                        } else {
                            Err(error)
                        }
                    },
                    Ok(text) => Ok(text),
                }
            },
            Request::ScpFrom { ip, remote_path, .. } => {
                let marked = mark(read, ip);
                match marked {
                    Err(error) => {
                        if error.is_remote_exit(2) {
                            Err(BenchError::FileNotFound(remote_path.clone()))
                        } else {
                            Err(error)
                        }
                    },
                    Ok(text) => Ok(text),
                }
            },
            Request::Cp { source, .. } => match read {
                Err(BenchError::CommandFailed(cmd, code, stderr)) => {
                    if code == 2 {
                        Err(BenchError::FileNotFound(source.clone()))
                    } else {
                        Err(BenchError::CommandFailed(cmd, code, stderr))
                    }
                },
                other => other,
            },
            Request::Ls { path } => match read {
                Err(BenchError::CommandFailed(cmd, code, stderr)) => {
                    if code == 2 || speaks_of_missing_file(&stderr) {
                        Err(BenchError::FileNotFound(path.clone()))
                    } else {
                        Err(BenchError::CommandFailed(cmd, code, stderr))
                    }
                },
                other => other,
            },
        }
    }
}

impl Clone for Request {
    fn clone(&self) -> (copy: Self)
        ensures
            copy == *self,
    {
        match self {
            Request::Ssh { user_name, ip, remote_cmd } => Request::Ssh {
                user_name: user_name.clone(),
                ip: ip.clone(),
                remote_cmd: remote_cmd.clone(),
            },
            Request::Scp { is_dir, user_name, ip, local_path, remote_path } => Request::Scp {
                is_dir: *is_dir,
                user_name: user_name.clone(),
                ip: ip.clone(),
                local_path: local_path.clone(),
                remote_path: remote_path.clone(),
            },
            Request::ScpFrom { is_dir, user_name, ip, remote_path, local_path } => {
                Request::ScpFrom {
                    is_dir: *is_dir,
                    user_name: user_name.clone(),
                    ip: ip.clone(),
                    remote_path: remote_path.clone(),
                    local_path: local_path.clone(),
                }
            },
            Request::Cp { is_dir, source, dest } => Request::Cp {
                is_dir: *is_dir,
                source: source.clone(),
                dest: dest.clone(),
            },
            Request::Ls { path } => Request::Ls { path: path.clone() },
        }
    }
}

} // verus!

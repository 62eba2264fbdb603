//! The failures a run can end in.

use vstd::prelude::*;
use vstd::string::*;
use crate::text::{i32_to_string, signed_decimal};

verus! {

/// A failure of a command, of a transfer, or of reading what a machine
/// answered.
#[derive(Debug, PartialEq, Eq)]
pub enum BenchError {
    /// (command, return code, stderr)
    CommandFailed(String, i32, String),
    /// (ip, command, return code, stderr)
    CommandFailedOnRemote(String, String, i32, String),
    /// (command)
    NoSuchCommand(String),
    /// (ip, command)
    NoSuchCommandOnRemote(String, String),
    /// (command)
    CommandKilledBySingal(String),
    /// (path)
    FileNotFound(String),
    /// An output that is no UTF-8, with what the decoder said of it.
    ParseUtf8Error(String),
    ParseIntError(String),
    ParseFloatError(String),
    ParseBoolError(String),
    ParseTomlError(String),
    ParseJsonError(String),
    ParesPropertiesError(String),
    IoError(String),
    CsvError(String),
    /// (message)
    Message(String),
}

/// A failure as plain text and numbers.
pub enum ErrorView {
    CommandFailed(Seq<char>, int, Seq<char>),
    CommandFailedOnRemote(Seq<char>, Seq<char>, int, Seq<char>),
    NoSuchCommand(Seq<char>),
    NoSuchCommandOnRemote(Seq<char>, Seq<char>),
    CommandKilledBySingal(Seq<char>),
    FileNotFound(Seq<char>),
    ParseUtf8Error(Seq<char>),
    ParseIntError(Seq<char>),
    ParseFloatError(Seq<char>),
    ParseBoolError(Seq<char>),
    ParseTomlError(Seq<char>),
    ParseJsonError(Seq<char>),
    ParesPropertiesError(Seq<char>),
    IoError(Seq<char>),
    CsvError(Seq<char>),
    Message(Seq<char>),
}

impl View for BenchError {
    type V = ErrorView;

    open spec fn view(&self) -> ErrorView {
        match *self {
            BenchError::CommandFailed(cmd, code, stderr) => ErrorView::CommandFailed(
                cmd@,
                code as int,
                stderr@,
            ),
            BenchError::CommandFailedOnRemote(ip, cmd, code, stderr) => {
                ErrorView::CommandFailedOnRemote(ip@, cmd@, code as int, stderr@)
            },
            BenchError::NoSuchCommand(cmd) => ErrorView::NoSuchCommand(cmd@),
            BenchError::NoSuchCommandOnRemote(ip, cmd) => ErrorView::NoSuchCommandOnRemote(
                ip@,
                cmd@,
            ),
            BenchError::CommandKilledBySingal(cmd) => ErrorView::CommandKilledBySingal(cmd@),
            BenchError::FileNotFound(path) => ErrorView::FileNotFound(path@),
            BenchError::ParseUtf8Error(text) => ErrorView::ParseUtf8Error(text@),
            BenchError::ParseIntError(text) => ErrorView::ParseIntError(text@),
            BenchError::ParseFloatError(text) => ErrorView::ParseFloatError(text@),
            BenchError::ParseBoolError(text) => ErrorView::ParseBoolError(text@),
            BenchError::ParseTomlError(text) => ErrorView::ParseTomlError(text@),
            BenchError::ParseJsonError(text) => ErrorView::ParseJsonError(text@),
            BenchError::ParesPropertiesError(text) => ErrorView::ParesPropertiesError(text@),
            BenchError::IoError(text) => ErrorView::IoError(text@),
            BenchError::CsvError(text) => ErrorView::CsvError(text@),
            BenchError::Message(text) => ErrorView::Message(text@),
        }
    }
}

impl Clone for BenchError {
    fn clone(&self) -> (copy: Self)
        ensures
            copy == *self,
    {
        match self {
            BenchError::CommandFailed(cmd, code, stderr) => BenchError::CommandFailed(
                cmd.clone(),
                *code,
                stderr.clone(),
            ),
            BenchError::CommandFailedOnRemote(ip, cmd, code, stderr) => {
                BenchError::CommandFailedOnRemote(ip.clone(), cmd.clone(), *code, stderr.clone())
            },
            BenchError::NoSuchCommand(cmd) => BenchError::NoSuchCommand(cmd.clone()),
            BenchError::NoSuchCommandOnRemote(ip, cmd) => BenchError::NoSuchCommandOnRemote(
                ip.clone(),
                cmd.clone(),
            ),
            BenchError::CommandKilledBySingal(cmd) => BenchError::CommandKilledBySingal(
                cmd.clone(),
            ),
            BenchError::FileNotFound(path) => BenchError::FileNotFound(path.clone()),
            BenchError::ParseUtf8Error(text) => BenchError::ParseUtf8Error(text.clone()),
            BenchError::ParseIntError(text) => BenchError::ParseIntError(text.clone()),
            BenchError::ParseFloatError(text) => BenchError::ParseFloatError(text.clone()),
            BenchError::ParseBoolError(text) => BenchError::ParseBoolError(text.clone()),
            BenchError::ParseTomlError(text) => BenchError::ParseTomlError(text.clone()),
            BenchError::ParseJsonError(text) => BenchError::ParseJsonError(text.clone()),
            BenchError::ParesPropertiesError(text) => BenchError::ParesPropertiesError(
                text.clone(),
            ),
            BenchError::IoError(text) => BenchError::IoError(text.clone()),
            BenchError::CsvError(text) => BenchError::CsvError(text.clone()),
            BenchError::Message(text) => BenchError::Message(text.clone()),
        }
    }
}

impl ErrorView {
    /// The failure as seen from here when the command ran on the machine `ip`:
    /// a missing command and a failed one are marked as remote, every other
    /// failure stays as it is.
    pub open spec fn as_remote(self, ip: Seq<char>) -> ErrorView {
        match self {
            ErrorView::NoSuchCommand(cmd) => ErrorView::NoSuchCommandOnRemote(ip, cmd),
            ErrorView::CommandFailed(cmd, code, stderr) => ErrorView::CommandFailedOnRemote(
                ip,
                cmd,
                code,
                stderr,
            ),
            other => other,
        }
    }

    /// Whether this is a command that ran on a remote machine and left with
    /// the given code.
    pub open spec fn is_remote_exit(self, code: int) -> bool {
        self matches ErrorView::CommandFailedOnRemote(_, _, c, _) && c == code
    }

    /// The sentence shown for the failures that have one of their own.
    pub open spec fn sentence(self) -> Option<Seq<char>> {
        match self {
            ErrorView::CommandFailed(cmd, code, stderr) => Some(
                "command '"@ + cmd + "' fails with return code "@ + signed_decimal(code)
                    + ".\nError message: "@ + stderr,
            ),
            ErrorView::FileNotFound(path) => Some("file not found: '"@ + path + "'"@),
            ErrorView::Message(text) => Some(text),
            _ => None,
        }
    }
}

/// `std::fmt::Debug` as derived for `BenchError`, through `format!`: the
/// variant's name and its fields in brackets. Nothing is claimed of the text.
#[verifier::external_body]
fn debug_text(error: &BenchError) -> (text: String) {
    format!("{:?}", error)
}

impl BenchError {
    pub fn as_remote_if_possible(self, ip: &str) -> (marked: Self)
        ensures
            marked@ == self@.as_remote(ip@),
    {
        match self {
            BenchError::NoSuchCommand(cmd) => BenchError::NoSuchCommandOnRemote(
                String::from_str(ip),
                cmd,
            ),
            BenchError::CommandFailed(cmd, code, stderr) => BenchError::CommandFailedOnRemote(
                String::from_str(ip),
                cmd,
                code,
                stderr,
            ),
            other => other,
        }
    }

    /// Whether this is a command that ran on a remote machine and left with
    /// `code`.
    pub fn is_remote_exit(&self, code: i32) -> (is: bool)
        ensures
            is == self@.is_remote_exit(code as int),
    {
        match self {
            BenchError::CommandFailedOnRemote(_, _, c, _) => *c == code,
            _ => false,
        }
    }

    /// The failure in words. A failed local command, a missing file and a plain
    /// message have a sentence of their own; the others are shown as `Debug`
    /// shows them.
    pub fn to_string(&self) -> (text: String)
        ensures
            self@.sentence() matches Some(sentence) ==> text@ == sentence,
    {
        match self {
            BenchError::CommandFailed(cmd, code, stderr) => {
                let mut text = String::from_str("command '");
                text.append(cmd.as_str());
                text.append("' fails with return code ");
                let number = i32_to_string(*code);
                text.append(number.as_str());
                text.append(".\nError message: ");
                text.append(stderr.as_str());
                text
            },
            BenchError::FileNotFound(path) => {
                let mut text = String::from_str("file not found: '");
                text.append(path.as_str());
                text.append("'");
                text
            },
            BenchError::Message(message) => message.clone(),
            other => debug_text(other),
        }
    }
}

} // verus!

//! A server or the sequencer: its paths, its commands and what their replies
//! mean.

use vstd::prelude::*;
use vstd::string::*;
use crate::command::{Reply, Request, RequestView};
use crate::config::Config;
use crate::connections::ConnectionInfo;
use crate::error::{BenchError, ErrorView};
use crate::replay::{
    command_step, halt_view, probe_step, probe_view, Halt, HaltView, Probe, ProbeView, Tape,
};
use crate::text::{decimal, usize_to_string};

verus! {

/// The directory that is copied to every machine.
pub open spec fn bench_dir() -> Seq<char> {
    "benchmarker"@
}

/// The words in a log that tell of a failure, in the order they are looked
/// for.
pub open spec fn alarm_keyword(which: int) -> Seq<char> {
    if which == 0 {
        "Exception"@
    } else if which == 1 {
        "error"@
    } else {
        "SEVERE"@
    }
}

/// The words by which a server says in its log that it serves.
pub open spec fn ready_keyword() -> Seq<char> {
    "ElaSQL server ready"@
}

/// A search for `keyword` in the file `log`.
pub open spec fn grep_command(keyword: Seq<char>, log: Seq<char>) -> Seq<char> {
    "grep '"@ + keyword + "' "@ + log
}

/// The command that starts a program of the benchmarker in the background,
/// with everything it prints going to `log`.
pub open spec fn launch_command(
    java: Seq<char>,
    vm_args: Seq<char>,
    jar: Seq<char>,
    prog_args: Seq<char>,
    log: Seq<char>,
) -> Seq<char> {
    java + " "@ + vm_args + " -jar "@ + jar + " "@ + prog_args + " > "@ + log + " 2>&1 &"@
}

pub struct Server {
    config: Config,
    connection_info: ConnectionInfo,
    proc_name: String,
    db_name: String,
    vm_args: String,
    is_sequencer: bool,
}

/// A server as plain values: what its commands are made of.
pub struct ServerView {
    pub user_name: Seq<char>,
    pub work_dir: Seq<char>,
    pub java_bin: Seq<char>,
    pub id: int,
    pub ip: Seq<char>,
    pub proc_name: Seq<char>,
    pub db_name: Seq<char>,
    pub vm_args: Seq<char>,
    pub is_sequencer: bool,
}

impl View for Server {
    type V = ServerView;

    closed spec fn view(&self) -> ServerView {
        ServerView {
            user_name: self.config.system.user_name@,
            work_dir: self.config.system.remote_work_dir@,
            java_bin: self.config.jdk.remote_java_bin@,
            id: self.connection_info.id as int,
            ip: self.connection_info.ip@,
            proc_name: self.proc_name@,
            db_name: self.db_name@,
            vm_args: self.vm_args@,
            is_sequencer: self.is_sequencer,
        }
    }
}

impl ServerView {
    /// The name of the process in messages.
    pub open spec fn named(id: int, is_sequencer: bool) -> Seq<char> {
        if is_sequencer {
            "sequencer"@
        } else {
            "server "@ + decimal(id as nat)
        }
    }

    /// The name of this node's own database.
    pub open spec fn own_db(db_name: Seq<char>, id: int, is_sequencer: bool) -> Seq<char> {
        if is_sequencer {
            db_name + "-seq"@
        } else {
            db_name + "-"@ + decimal(id as nat)
        }
    }

    pub open spec fn db_path(self) -> Seq<char> {
        self.work_dir + "/databases/"@ + self.db_name
    }

    pub open spec fn backup_db_path(self) -> Seq<char> {
        self.work_dir + "/databases/"@ + self.db_name + "-backup"@
    }

    pub open spec fn jar_path(self) -> Seq<char> {
        self.work_dir + "/benchmarker/server.jar"@
    }

    pub open spec fn log_path(self) -> Seq<char> {
        if self.is_sequencer {
            self.work_dir + "/server-seq.log"@
        } else {
            self.work_dir + "/server-"@ + decimal(self.id as nat) + ".log"@
        }
    }

    /// A shell command on this server's machine.
    pub open spec fn shell(self, remote_cmd: Seq<char>) -> RequestView {
        RequestView::Ssh { user_name: self.user_name, ip: self.ip, remote_cmd }
    }

    /// The arguments of the server program: the database and the number, and
    /// a 1 behind them for the sequencer.
    pub open spec fn prog_args(self) -> Seq<char> {
        if self.is_sequencer {
            self.db_name + " "@ + decimal(self.id as nat) + " 1"@
        } else {
            self.db_name + " "@ + decimal(self.id as nat)
        }
    }

    /// What is reported when a word of failure stands in the log.
    pub open spec fn alarm(self, lines: Seq<char>) -> ErrorView {
        ErrorView::Message("Server "@ + decimal(self.id as nat) + " error: "@ + lines)
    }

    pub open spec fn send_bench_dir(self, replies: Seq<Reply>, at: int) -> (
        Result<(), HaltView>,
        int,
    ) {
        command_step(
            replies,
            at,
            RequestView::Scp {
                is_dir: true,
                user_name: self.user_name,
                ip: self.ip,
                local_path: bench_dir(),
                remote_path: self.work_dir,
            },
            false,
        )
    }

    pub open spec fn delete_db_dir(self, replies: Seq<Reply>, at: int) -> (
        Result<(), HaltView>,
        int,
    ) {
        command_step(replies, at, self.shell("rm -rf "@ + self.db_path()), true)
    }

    pub open spec fn delete_backup_db_dir(self, replies: Seq<Reply>, at: int) -> (
        Result<(), HaltView>,
        int,
    ) {
        command_step(replies, at, self.shell("rm -rf "@ + self.backup_db_path()), true)
    }

    /// The sequencer has no database and sends nothing.
    pub open spec fn backup_db(self, replies: Seq<Reply>, at: int) -> (Result<(), HaltView>, int) {
        if self.is_sequencer {
            (Ok(()), at)
        } else {
            command_step(
                replies,
                at,
                self.shell("cp -r "@ + self.db_path() + " "@ + self.backup_db_path()),
                false,
            )
        }
    }

    /// The live database is deleted and, but for the sequencer, the backup is
    /// copied into its place.
    pub open spec fn reset_db_dir(self, replies: Seq<Reply>, at: int) -> (
        Result<(), HaltView>,
        int,
    ) {
        let deleted = self.delete_db_dir(replies, at);
        if self.is_sequencer || deleted.0 is Err {
            deleted
        } else {
            command_step(
                replies,
                deleted.1,
                self.shell("cp -r "@ + self.backup_db_path() + " "@ + self.db_path()),
                false,
            )
        }
    }

    pub open spec fn start(self, replies: Seq<Reply>, at: int) -> (Result<(), HaltView>, int) {
        command_step(
            replies,
            at,
            self.shell(
                launch_command(
                    self.java_bin,
                    self.vm_args,
                    self.jar_path(),
                    self.prog_args(),
                    self.log_path(),
                ),
            ),
            false,
        )
    }

    pub open spec fn grep_log(self, keyword: Seq<char>, replies: Seq<Reply>, at: int) -> (
        Result<ProbeView, HaltView>,
        int,
    ) {
        probe_step(replies, at, self.shell(grep_command(keyword, self.log_path())))
    }

    /// One search for a word of failure: a match is the failure it tells of,
    /// and a search that did not run is a failure too.
    pub open spec fn check_alarm(self, which: int, replies: Seq<Reply>, at: int) -> (
        Result<(), HaltView>,
        int,
    ) {
        let searched = self.grep_log(alarm_keyword(which), replies, at);
        match searched.0 {
            Err(halt) => (Err(halt), searched.1),
            Ok(ProbeView::Found(lines)) => (Err(HaltView::Fail(self.alarm(lines))), searched.1),
            Ok(ProbeView::Error(error)) => (Err(HaltView::Fail(error)), searched.1),
            Ok(ProbeView::NotFound) => (Ok(()), searched.1),
        }
    }

    /// The three searches for words of failure, one after the other, up to
    /// the first that does not come back empty.
    pub open spec fn check_for_error(self, replies: Seq<Reply>, at: int) -> (
        Result<(), HaltView>,
        int,
    ) {
        let first = self.check_alarm(0, replies, at);
        if first.0 is Err {
            first
        } else {
            let second = self.check_alarm(1, replies, first.1);
            if second.0 is Err {
                second
            } else {
                self.check_alarm(2, replies, second.1)
            }
        }
    }

    /// The searches for words of failure, then the search for the words of
    /// readiness: whether they stand in the log.
    pub open spec fn check_for_ready(self, replies: Seq<Reply>, at: int) -> (
        Result<bool, HaltView>,
        int,
    ) {
        let checked = self.check_for_error(replies, at);
        match checked.0 {
            Err(halt) => (Err(halt), checked.1),
            Ok(_) => {
                let searched = self.grep_log(ready_keyword(), replies, checked.1);
                match searched.0 {
                    Err(halt) => (Err(halt), searched.1),
                    Ok(ProbeView::Found(_)) => (Ok(true), searched.1),
                    Ok(ProbeView::NotFound) => (Ok(false), searched.1),
                    Ok(ProbeView::Error(error)) => (Err(HaltView::Fail(error)), searched.1),
                }
            },
        }
    }
}

impl Server {
    pub fn new(
        config: Config,
        connection_info: ConnectionInfo,
        db_name: String,
        vm_args: String,
        is_sequencer: bool,
    ) -> (server: Server)
        ensures
            server@ == (ServerView {
                user_name: config.system.user_name@,
                work_dir: config.system.remote_work_dir@,
                java_bin: config.jdk.remote_java_bin@,
                id: connection_info.id as int,
                ip: connection_info.ip@,
                proc_name: ServerView::named(connection_info.id as int, is_sequencer),
                db_name: ServerView::own_db(db_name@, connection_info.id as int, is_sequencer),
                vm_args: vm_args@,
                is_sequencer,
            }),
    {
        let number = usize_to_string(connection_info.id);
        let proc_name = if is_sequencer {
            String::from_str("sequencer")
        } else {
            let mut name = String::from_str("server ");
            name.append(number.as_str());
            name
        };
        let mut own_db = db_name;
        if is_sequencer {
            own_db.append("-seq");
        } else {
            own_db.append("-");
            own_db.append(number.as_str());
        }
        Server { config, connection_info, proc_name, db_name: own_db, vm_args, is_sequencer }
    }

    fn shell(&self, remote_cmd: String) -> (request: Request)
        ensures
            request@ == self@.shell(remote_cmd@),
    {
        Request::Ssh {
            user_name: self.config.system.user_name.clone(),
            ip: self.connection_info.ip.clone(),
            remote_cmd,
        }
    }

    /// Copies the benchmarker's directory to the server's working directory.
    pub fn send_bench_dir(&self, tape: &mut Tape) -> (sent: Result<(), Halt>)
        ensures
            final(tape).replies == old(tape).replies,
            (halt_view(sent), final(tape).next as int) == self@.send_bench_dir(
                old(tape).replies@,
                old(tape).next as int,
            ),
    {
        let request = Request::Scp {
            is_dir: true,
            user_name: self.config.system.user_name.clone(),
            ip: self.connection_info.ip.clone(),
            local_path: String::from_str("benchmarker"),
            remote_path: self.config.system.remote_work_dir.clone(),
        };
        tape.command(request, false)
    }

    /// Deletes the live database. That there was none is no failure.
    pub fn delete_db_dir(&self, tape: &mut Tape) -> (deleted: Result<(), Halt>)
        ensures
            final(tape).replies == old(tape).replies,
            (halt_view(deleted), final(tape).next as int) == self@.delete_db_dir(
                old(tape).replies@,
                old(tape).next as int,
            ),
    {
        let mut cmd = String::from_str("rm -rf ");
        let path = self.db_path();
        cmd.append(path.as_str());
        tape.command(self.shell(cmd), true)
    }

    /// Deletes the backup of the database. That there was none is no failure.
    pub fn delete_backup_db_dir(&self, tape: &mut Tape) -> (deleted: Result<(), Halt>)
        ensures
            final(tape).replies == old(tape).replies,
            (halt_view(deleted), final(tape).next as int) == self@.delete_backup_db_dir(
                old(tape).replies@,
                old(tape).next as int,
            ),
    {
        let mut cmd = String::from_str("rm -rf ");
        let path = self.backup_db_path();
        cmd.append(path.as_str());
        tape.command(self.shell(cmd), true)
    }

    /// Copies the live database to its backup.
    pub fn backup_db(&self, tape: &mut Tape) -> (saved: Result<(), Halt>)
        ensures
            final(tape).replies == old(tape).replies,
            (halt_view(saved), final(tape).next as int) == self@.backup_db(
                old(tape).replies@,
                old(tape).next as int,
            ),
    {
        if self.is_sequencer {
            return Ok(());
        }
        let mut cmd = String::from_str("cp -r ");
        let from = self.db_path();
        let to = self.backup_db_path();
        cmd.append(from.as_str());
        cmd.append(" ");
        cmd.append(to.as_str());
        tape.command(self.shell(cmd), false)
    }

    /// Puts the backup in the place of the live database.
    pub fn reset_db_dir(&self, tape: &mut Tape) -> (reset: Result<(), Halt>)
        ensures
            final(tape).replies == old(tape).replies,
            (halt_view(reset), final(tape).next as int) == self@.reset_db_dir(
                old(tape).replies@,
                old(tape).next as int,
            ),
    {
        if self.is_sequencer {
            return self.delete_db_dir(tape);
        }
        self.delete_db_dir(tape)?;
        let mut cmd = String::from_str("cp -r ");
        let from = self.backup_db_path();
        let to = self.db_path();
        cmd.append(from.as_str());
        cmd.append(" ");
        cmd.append(to.as_str());
        tape.command(self.shell(cmd), false)
    }

    /// Starts the server program in the background. The command comes back
    /// as soon as the shell has taken it.
    pub fn start(&self, tape: &mut Tape) -> (started: Result<(), Halt>)
        ensures
            final(tape).replies == old(tape).replies,
            (halt_view(started), final(tape).next as int) == self@.start(
                old(tape).replies@,
                old(tape).next as int,
            ),
    {
        let number = usize_to_string(self.connection_info.id);
        let mut prog_args = self.db_name.clone();
        prog_args.append(" ");
        prog_args.append(number.as_str());
        if self.is_sequencer {
            prog_args.append(" 1");
        }
        let jar = self.jar_path();
        let log = self.log_path();
        let mut cmd = self.config.jdk.remote_java_bin.clone();
        cmd.append(" ");
        cmd.append(self.vm_args.as_str());
        cmd.append(" -jar ");
        cmd.append(jar.as_str());
        cmd.append(" ");
        cmd.append(prog_args.as_str());
        cmd.append(" > ");
        cmd.append(log.as_str());
        cmd.append(" 2>&1 &");
        tape.command(self.shell(cmd), false)
    }

    /// Whether the server says in its log that it serves. A word of failure
    /// in the log is a failure.
    pub fn check_for_ready(&self, tape: &mut Tape) -> (ready: Result<bool, Halt>)
        ensures
            final(tape).replies == old(tape).replies,
            (halt_view(ready), final(tape).next as int) == self@.check_for_ready(
                old(tape).replies@,
                old(tape).next as int,
            ),
    {
        self.check_for_error(tape)?;
        match self.grep_log("ElaSQL server ready", tape)? {
            Probe::Found(_) => Ok(true),
            Probe::NotFound => Ok(false),
            Probe::Error(error) => Err(Halt::Fail(error)),
        }
    }

    fn check_alarm(&self, which: usize, tape: &mut Tape) -> (clear: Result<(), Halt>)
        requires
            which < 3,
        ensures
            final(tape).replies == old(tape).replies,
            (halt_view(clear), final(tape).next as int) == self@.check_alarm(
                which as int,
                old(tape).replies@,
                old(tape).next as int,
            ),
    {
        let keyword = if which == 0 {
            "Exception"
        } else if which == 1 {
            "error"
        } else {
            "SEVERE"
        };
        match self.grep_log(keyword, tape)? {
            Probe::Found(lines) => {
                let number = usize_to_string(self.connection_info.id);
                let mut message = String::from_str("Server ");
                message.append(number.as_str());
                message.append(" error: ");
                message.append(lines.as_str());
                Err(Halt::Fail(BenchError::Message(message)))
            },
            Probe::Error(error) => Err(Halt::Fail(error)),
            Probe::NotFound => Ok(()),
        }
    }

    /// Looks in the log for the words that tell of a failure.
    pub fn check_for_error(&self, tape: &mut Tape) -> (clear: Result<(), Halt>)
        ensures
            final(tape).replies == old(tape).replies,
            (halt_view(clear), final(tape).next as int) == self@.check_for_error(
                old(tape).replies@,
                old(tape).next as int,
            ),
    {
        self.check_alarm(0, tape)?;
        self.check_alarm(1, tape)?;
        self.check_alarm(2, tape)
    }

    pub fn id(&self) -> (id: usize)
        ensures
            id == self@.id,
    {
        self.connection_info.id
    }

    pub fn ip(&self) -> (ip: &str)
        ensures
            ip@ == self@.ip,
    {
        self.connection_info.ip.as_str()
    }

    pub fn is_sequencer(&self) -> (is: bool)
        ensures
            is == self@.is_sequencer,
    {
        self.is_sequencer
    }

    fn db_path(&self) -> (path: String)
        ensures
            path@ == self@.db_path(),
    {
        let mut path = self.config.system.remote_work_dir.clone();
        path.append("/databases/");
        path.append(self.db_name.as_str());
        path
    }

    fn backup_db_path(&self) -> (path: String)
        ensures
            path@ == self@.backup_db_path(),
    {
        let mut path = self.config.system.remote_work_dir.clone();
        path.append("/databases/");
        path.append(self.db_name.as_str());
        path.append("-backup");
        path
    }

    fn jar_path(&self) -> (path: String)
        ensures
            path@ == self@.jar_path(),
    {
        let mut path = self.config.system.remote_work_dir.clone();
        path.append("/benchmarker/server.jar");
        path
    }

    fn log_path(&self) -> (path: String)
        ensures
            path@ == self@.log_path(),
    {
        let mut path = self.config.system.remote_work_dir.clone();
        if self.is_sequencer {
            path.append("/server-seq.log");
        } else {
            let number = usize_to_string(self.connection_info.id);
            path.append("/server-");
            path.append(number.as_str());
            path.append(".log");
        }
        path
    }

    /// Searches the server's log for `keyword`.
    fn grep_log(&self, keyword: &str, tape: &mut Tape) -> (found: Result<Probe, Halt>)
        ensures
            final(tape).replies == old(tape).replies,
            (probe_view(found), final(tape).next as int) == self@.grep_log(
                keyword@,
                old(tape).replies@,
                old(tape).next as int,
            ),
    {
        let log = self.log_path();
        let mut cmd = String::from_str("grep '");
        cmd.append(keyword);
        cmd.append("' ");
        cmd.append(log.as_str());
        tape.probe(self.shell(cmd))
    }
}

} // verus!

//! A client: its paths, its commands and what their replies mean.

use vstd::prelude::*;
use vstd::string::*;
use crate::command::{Reply, Request, RequestView};
use crate::config::Config;
use crate::connections::server::{alarm_keyword, bench_dir, grep_command, launch_command};
use crate::connections::throughput::{throughput_of, ResultFormat};
use crate::connections::{Action, ConnectionInfo};
use crate::error::{BenchError, ErrorView};
use crate::replay::{
    command_step, halt_view, probe_step, probe_view, Halt, HaltView, Probe, ProbeView, Tape,
};
use crate::text::{decimal, i32_to_string, signed_decimal, usize_to_string};

verus! {

/// The words by which a client says in its log that its job is done.
pub open spec fn finished_keyword(action: Action) -> Seq<char> {
    match action {
        Action::Loading => "loading procedure finished."@,
        Action::Benchmarking => "benchmark process finished."@,
    }
}

pub struct Client {
    config: Config,
    connection_info: ConnectionInfo,
    vm_args: String,
}

/// A client as plain values: what its commands are made of.
pub struct ClientView {
    pub user_name: Seq<char>,
    pub work_dir: Seq<char>,
    pub java_bin: Seq<char>,
    pub id: int,
    pub ip: Seq<char>,
    pub vm_args: Seq<char>,
}

impl View for Client {
    type V = ClientView;

    closed spec fn view(&self) -> ClientView {
        ClientView {
            user_name: self.config.system.user_name@,
            work_dir: self.config.system.remote_work_dir@,
            java_bin: self.config.jdk.remote_java_bin@,
            id: self.connection_info.id as int,
            ip: self.connection_info.ip@,
            vm_args: self.vm_args@,
        }
    }
}

/// A text, or the stop before it, as plain values.
pub open spec fn text_view(result: Result<String, Halt>) -> Result<Seq<char>, HaltView> {
    match result {
        Ok(text) => Ok(text@),
        Err(halt) => Err(halt@),
    }
}

/// A throughput, or the stop before it, as plain values.
pub open spec fn number_view(result: Result<u32, Halt>) -> Result<nat, HaltView> {
    match result {
        Ok(n) => Ok(n as nat),
        Err(halt) => Err(halt@),
    }
}

impl ClientView {
    pub open spec fn jar_path(self) -> Seq<char> {
        self.work_dir + "/benchmarker/client.jar"@
    }

    pub open spec fn log_path(self) -> Seq<char> {
        self.work_dir + "/client-"@ + decimal(self.id as nat) + ".log"@
    }

    pub open spec fn result_path(self) -> Seq<char> {
        self.work_dir + "/results"@
    }

    /// A shell command on this client's machine.
    pub open spec fn shell(self, remote_cmd: Seq<char>) -> RequestView {
        RequestView::Ssh { user_name: self.user_name, ip: self.ip, remote_cmd }
    }

    /// The arguments of the client program: the client's number and the code
    /// of its job.
    pub open spec fn prog_args(self, action: Action) -> Seq<char> {
        decimal(self.id as nat) + " "@ + signed_decimal(action.code())
    }

    /// What is reported when a word of failure stands in the log.
    pub open spec fn alarm(self, lines: Seq<char>) -> ErrorView {
        ErrorView::Message("Client "@ + decimal(self.id as nat) + " error: "@ + lines)
    }

    /// What is reported when no file of results is listed.
    pub open spec fn no_csv(self) -> ErrorView {
        ErrorView::Message("cannot find the csv file on "@ + self.ip)
    }

    pub open spec fn send_bench_dir(self, replies: Seq<Reply>, at: int) -> (
        Result<(), HaltView>,
        int,
    ) {
        command_step(
            replies,
            at,
            RequestView::Scp {
                is_dir: true,
                user_name: self.user_name,
                ip: self.ip,
                local_path: bench_dir(),
                remote_path: self.work_dir,
            },
            false,
        )
    }

    pub open spec fn clean_previous_results(self, replies: Seq<Reply>, at: int) -> (
        Result<(), HaltView>,
        int,
    ) {
        command_step(replies, at, self.shell("rm -r "@ + self.result_path()), true)
    }

    pub open spec fn start(self, action: Action, replies: Seq<Reply>, at: int) -> (
        Result<(), HaltView>,
        int,
    ) {
        command_step(
            replies,
            at,
            self.shell(
                launch_command(
                    self.java_bin,
                    self.vm_args,
                    self.jar_path(),
                    self.prog_args(action),
                    self.log_path(),
                ),
            ),
            false,
        )
    }

    pub open spec fn grep_log(self, keyword: Seq<char>, replies: Seq<Reply>, at: int) -> (
        Result<ProbeView, HaltView>,
        int,
    ) {
        probe_step(replies, at, self.shell(grep_command(keyword, self.log_path())))
    }

    /// One search for a word of failure: a match is the failure it tells of,
    /// and a search that did not run is a failure too.
    pub open spec fn check_alarm(self, which: int, replies: Seq<Reply>, at: int) -> (
        Result<(), HaltView>,
        int,
    ) {
        let searched = self.grep_log(alarm_keyword(which), replies, at);
        match searched.0 {
            Err(halt) => (Err(halt), searched.1),
            Ok(ProbeView::Found(lines)) => (Err(HaltView::Fail(self.alarm(lines))), searched.1),
            Ok(ProbeView::Error(error)) => (Err(HaltView::Fail(error)), searched.1),
            Ok(ProbeView::NotFound) => (Ok(()), searched.1),
        }
    }

    /// The three searches for words of failure, one after the other, up to
    /// the first that does not come back empty.
    pub open spec fn check_for_error(self, replies: Seq<Reply>, at: int) -> (
        Result<(), HaltView>,
        int,
    ) {
        let first = self.check_alarm(0, replies, at);
        if first.0 is Err {
            first
        } else {
            let second = self.check_alarm(1, replies, first.1);
            if second.0 is Err {
                second
            } else {
                self.check_alarm(2, replies, second.1)
            }
        }
    }

    /// The searches for words of failure, then the search for the words that
    /// end the job: whether they stand in the log.
    pub open spec fn check_for_finished(self, action: Action, replies: Seq<Reply>, at: int) -> (
        Result<bool, HaltView>,
        int,
    ) {
        let checked = self.check_for_error(replies, at);
        match checked.0 {
            Err(halt) => (Err(halt), checked.1),
            Ok(_) => {
                let searched = self.grep_log(finished_keyword(action), replies, checked.1);
                match searched.0 {
                    Err(halt) => (Err(halt), searched.1),
                    Ok(ProbeView::Found(_)) => (Ok(true), searched.1),
                    Ok(ProbeView::NotFound) => (Ok(false), searched.1),
                    Ok(ProbeView::Error(error)) => (Err(HaltView::Fail(error)), searched.1),
                }
            },
        }
    }

    /// The listing of the client's file of results: what the machine printed,
    /// which must be something.
    pub open spec fn grep_csv_filename(self, replies: Seq<Reply>, at: int) -> (
        Result<Seq<char>, HaltView>,
        int,
    ) {
        let request = self.shell(
            "ls "@ + self.result_path() + " | grep '"@ + decimal(self.id as nat) + "[.]csv'"@,
        );
        if 0 <= at < replies.len() {
            (
                match replies[at] {
                    Ok(name) => if name@.len() == 0 {
                        Err(HaltView::Fail(self.no_csv()))
                    } else {
                        Ok(name@)
                    },
                    Err(error) => Err(HaltView::Fail(error@)),
                },
                at + 1,
            )
        } else {
            (Err(HaltView::Ask(request)), at)
        }
    }

    /// The file of results is looked up and copied to `dest` on this machine.
    pub open spec fn pull_csv(self, dest: Seq<char>, replies: Seq<Reply>, at: int) -> (
        Result<(), HaltView>,
        int,
    ) {
        let listed = self.grep_csv_filename(replies, at);
        match listed.0 {
            Err(halt) => (Err(halt), listed.1),
            Ok(name) => command_step(
                replies,
                listed.1,
                RequestView::ScpFrom {
                    is_dir: false,
                    user_name: self.user_name,
                    ip: self.ip,
                    remote_path: self.result_path() + "/"@ + name,
                    local_path: dest,
                },
                false,
            ),
        }
    }

    /// The client's result file is searched for the marker, and the
    /// throughput is read out of the lines that match.
    pub open spec fn get_total_throughput(
        self,
        marker: Seq<char>,
        delimiter: Seq<char>,
        replies: Seq<Reply>,
        at: int,
    ) -> (Result<nat, HaltView>, int) {
        let request = self.shell(
            "grep '"@ + marker + "' "@ + self.result_path() + "/*-"@ + decimal(self.id as nat)
                + ".txt"@,
        );
        if 0 <= at < replies.len() {
            (
                match replies[at] {
                    Ok(lines) => match throughput_of(lines@, marker, delimiter) {
                        Ok(n) => Ok(n),
                        Err(error) => Err(HaltView::Fail(error)),
                    },
                    Err(error) => Err(HaltView::Fail(error@)),
                },
                at + 1,
            )
        } else {
            (Err(HaltView::Ask(request)), at)
        }
    }
}

impl Client {
    pub fn new(config: Config, connection_info: ConnectionInfo, vm_args: String) -> (client: Client)
        ensures
            client@ == (ClientView {
                user_name: config.system.user_name@,
                work_dir: config.system.remote_work_dir@,
                java_bin: config.jdk.remote_java_bin@,
                id: connection_info.id as int,
                ip: connection_info.ip@,
                vm_args: vm_args@,
            }),
    {
        Client { config, connection_info, vm_args }
    }

    fn shell(&self, remote_cmd: String) -> (request: Request)
        ensures
            request@ == self@.shell(remote_cmd@),
    {
        Request::Ssh {
            user_name: self.config.system.user_name.clone(),
            ip: self.connection_info.ip.clone(),
            remote_cmd,
        }
    }

    /// Copies the benchmarker's directory to the client's working directory.
    pub fn send_bench_dir(&self, tape: &mut Tape) -> (sent: Result<(), Halt>)
        ensures
            final(tape).replies == old(tape).replies,
            (halt_view(sent), final(tape).next as int) == self@.send_bench_dir(
                old(tape).replies@,
                old(tape).next as int,
            ),
    {
        let request = Request::Scp {
            is_dir: true,
            user_name: self.config.system.user_name.clone(),
            ip: self.connection_info.ip.clone(),
            local_path: String::from_str("benchmarker"),
            remote_path: self.config.system.remote_work_dir.clone(),
        };
        tape.command(request, false)
    }

    /// Deletes the results of an earlier run. That there were none is no
    /// failure.
    pub fn clean_previous_results(&self, tape: &mut Tape) -> (cleaned: Result<(), Halt>)
        ensures
            final(tape).replies == old(tape).replies,
            (halt_view(cleaned), final(tape).next as int) == self@.clean_previous_results(
                old(tape).replies@,
                old(tape).next as int,
            ),
    {
        let mut cmd = String::from_str("rm -r ");
        let path = self.result_path();
        cmd.append(path.as_str());
        tape.command(self.shell(cmd), true)
    }

    /// Starts the client program in the background with its job.
    pub fn start(&self, action: Action, tape: &mut Tape) -> (started: Result<(), Halt>)
        ensures
            final(tape).replies == old(tape).replies,
            (halt_view(started), final(tape).next as int) == self@.start(
                action,
                old(tape).replies@,
                old(tape).next as int,
            ),
    {
        let mut prog_args = usize_to_string(self.connection_info.id);
        let code = i32_to_string(action.as_int());
        prog_args.append(" ");
        prog_args.append(code.as_str());
        let jar = self.jar_path();
        let log = self.log_path();
        let mut cmd = self.config.jdk.remote_java_bin.clone();
        cmd.append(" ");
        cmd.append(self.vm_args.as_str());
        cmd.append(" -jar ");
        cmd.append(jar.as_str());
        cmd.append(" ");
        cmd.append(prog_args.as_str());
        cmd.append(" > ");
        cmd.append(log.as_str());
        cmd.append(" 2>&1 &");
        tape.command(self.shell(cmd), false)
    }

    fn check_alarm(&self, which: usize, tape: &mut Tape) -> (clear: Result<(), Halt>)
        requires
            which < 3,
        ensures
            final(tape).replies == old(tape).replies,
            (halt_view(clear), final(tape).next as int) == self@.check_alarm(
                which as int,
                old(tape).replies@,
                old(tape).next as int,
            ),
    {
        let keyword = if which == 0 {
            "Exception"
        } else if which == 1 {
            "error"
        } else {
            "SEVERE"
        };
        match self.grep_log(keyword, tape)? {
            Probe::Found(lines) => {
                let number = usize_to_string(self.connection_info.id);
                let mut message = String::from_str("Client ");
                message.append(number.as_str());
                message.append(" error: ");
                message.append(lines.as_str());
                Err(Halt::Fail(BenchError::Message(message)))
            },
            Probe::Error(error) => Err(Halt::Fail(error)),
            Probe::NotFound => Ok(()),
        }
    }

    /// Looks in the log for the words that tell of a failure.
    fn check_for_error(&self, tape: &mut Tape) -> (clear: Result<(), Halt>)
        ensures
            final(tape).replies == old(tape).replies,
            (halt_view(clear), final(tape).next as int) == self@.check_for_error(
                old(tape).replies@,
                old(tape).next as int,
            ),
    {
        self.check_alarm(0, tape)?;
        self.check_alarm(1, tape)?;
        self.check_alarm(2, tape)
    }

    /// Whether the client says in its log that its job is done. A word of
    /// failure in the log is a failure.
    pub fn check_for_finished(&self, action: Action, tape: &mut Tape) -> (finished: Result<
        bool,
        Halt,
    >)
        ensures
            final(tape).replies == old(tape).replies,
            (halt_view(finished), final(tape).next as int) == self@.check_for_finished(
                action,
                old(tape).replies@,
                old(tape).next as int,
            ),
    {
        let keyword = match action {
            Action::Loading => "loading procedure finished.",
            Action::Benchmarking => "benchmark process finished.",
        };
        self.check_for_error(tape)?;
        match self.grep_log(keyword, tape)? {
            Probe::Found(_) => Ok(true),
            Probe::NotFound => Ok(false),
            Probe::Error(error) => Err(Halt::Fail(error)),
        }
    }

    /// Copies the client's file of results to `dest` on this machine.
    pub fn pull_csv(&self, dest: &str, tape: &mut Tape) -> (pulled: Result<(), Halt>)
        ensures
            final(tape).replies == old(tape).replies,
            (halt_view(pulled), final(tape).next as int) == self@.pull_csv(
                dest@,
                old(tape).replies@,
                old(tape).next as int,
            ),
    {
        let filename = self.grep_csv_filename(tape)?;
        let mut remote_result_path = self.result_path();
        remote_result_path.append("/");
        remote_result_path.append(filename.as_str());
        let request = Request::ScpFrom {
            is_dir: false,
            user_name: self.config.system.user_name.clone(),
            ip: self.connection_info.ip.clone(),
            remote_path: remote_result_path,
            local_path: String::from_str(dest),
        };
        tape.command(request, false)
    }

    /// Reads the client's total throughput from its result file.
    pub fn get_total_throughput(&self, format: &ResultFormat, tape: &mut Tape) -> (total: Result<
        u32,
        Halt,
    >)
        ensures
            final(tape).replies == old(tape).replies,
            (number_view(total), final(tape).next as int) == self@.get_total_throughput(
                format.marker@,
                format.delimiter@,
                old(tape).replies@,
                old(tape).next as int,
            ),
    {
        let number = usize_to_string(self.connection_info.id);
        let path = self.result_path();
        let mut cmd = String::from_str("grep '");
        cmd.append(format.marker.as_str());
        cmd.append("' ");
        cmd.append(path.as_str());
        cmd.append("/*-");
        cmd.append(number.as_str());
        cmd.append(".txt");
        match tape.ask(self.shell(cmd))? {
            Ok(lines) => match format.throughput(lines.as_str()) {
                Ok(n) => Ok(n),
                Err(error) => Err(Halt::Fail(error)),
            },
            Err(error) => Err(Halt::Fail(error)),
        }
    }

    pub fn id(&self) -> (id: usize)
        ensures
            id == self@.id,
    {
        self.connection_info.id
    }

    pub fn ip(&self) -> (ip: &str)
        ensures
            ip@ == self@.ip,
    {
        self.connection_info.ip.as_str()
    }

    fn jar_path(&self) -> (path: String)
        ensures
            path@ == self@.jar_path(),
    {
        let mut path = self.config.system.remote_work_dir.clone();
        path.append("/benchmarker/client.jar");
        path
    }

    fn log_path(&self) -> (path: String)
        ensures
            path@ == self@.log_path(),
    {
        let number = usize_to_string(self.connection_info.id);
        let mut path = self.config.system.remote_work_dir.clone();
        path.append("/client-");
        path.append(number.as_str());
        path.append(".log");
        path
    }

    fn result_path(&self) -> (path: String)
        ensures
            path@ == self@.result_path(),
    {
        let mut path = self.config.system.remote_work_dir.clone();
        path.append("/results");
        path
    }

    /// Searches the client's log for `keyword`.
    fn grep_log(&self, keyword: &str, tape: &mut Tape) -> (found: Result<Probe, Halt>)
        ensures
            final(tape).replies == old(tape).replies,
            (probe_view(found), final(tape).next as int) == self@.grep_log(
                keyword@,
                old(tape).replies@,
                old(tape).next as int,
            ),
    {
        let log = self.log_path();
        let mut cmd = String::from_str("grep '");
        cmd.append(keyword);
        cmd.append("' ");
        cmd.append(log.as_str());
        tape.probe(self.shell(cmd))
    }

    /// Lists the client's file of results.
    fn grep_csv_filename(&self, tape: &mut Tape) -> (listed: Result<String, Halt>)
        ensures
            final(tape).replies == old(tape).replies,
            (text_view(listed), final(tape).next as int) == self@.grep_csv_filename(
                old(tape).replies@,
                old(tape).next as int,
            ),
    {
        let number = usize_to_string(self.connection_info.id);
        let path = self.result_path();
        let mut cmd = String::from_str("ls ");
        cmd.append(path.as_str());
        cmd.append(" | grep '");
        cmd.append(number.as_str());
        cmd.append("[.]csv'");
        match tape.ask(self.shell(cmd))? {
            Ok(filename) => {
                if filename.as_str().unicode_len() == 0 {
                    let mut message = String::from_str("cannot find the csv file on ");
                    message.append(self.connection_info.ip.as_str());
                    Err(Halt::Fail(BenchError::Message(message)))
                } else {
                    Ok(filename)
                }
            },
            Err(error) => Err(Halt::Fail(error)),
        }
    }
}

} // verus!

//! The thread of a client.

use vstd::prelude::*;
use vstd::string::*;
use crate::command::Reply;
use crate::config::Config;
use crate::connections::client::ClientView;
use crate::connections::throughput::ResultFormat;
use crate::connections::{Action, Client, ConnectionInfo};
use crate::error::{BenchError, ErrorView};
use crate::replay::{Halt, HaltView, Tape};
use crate::threads::server::{failure_view, out_of_turn};
use crate::threads::{Event, Step, StepView, ThreadResult, CHECKING_INTERVAL};

verus! {

/// Where a client stands in its run.
#[derive(Clone, Copy, Debug, PartialEq, Eq, Structural)]
pub enum ClientPhase {
    /// Nothing is done yet.
    Fresh,
    /// The results of an earlier run are being deleted and the benchmarker
    /// copied over.
    CleanResults,
    /// The client waits for every node to be prepared.
    AwaitingBarrier1,
    /// The client waits for every server to be ready.
    AwaitingBarrier2,
    /// The command that starts the client program is on its way.
    Starting,
    /// The log is being searched for the words that end the job.
    Running,
    /// The words were not there yet; the client sleeps before it looks again.
    RunningPause,
    /// The job is done; after a benchmarking run its results are being
    /// fetched and read.
    Completed,
    /// The thread has ended well.
    Done,
    /// The thread has ended with a failure.
    Failed,
}

/// What the work of a client's phase found.
pub enum Found {
    /// The work is done and had nothing to find.
    Nothing,
    /// Whether the log holds the words that were looked for.
    Words(bool),
    /// The throughput that the result file reports.
    Throughput(u32),
}

/// What is said when a benchmarking client was given no place for its
/// results.
pub open spec fn no_report_dir() -> ErrorView {
    ErrorView::Message("no directory for the results is given"@)
}

/// What a turn of a client's machine leaves: its phase, the replies of the
/// phase so far, the throughput once it is read, the step handed out, and
/// the failure if it ended in one.
pub struct ClientTurn {
    pub phase: ClientPhase,
    pub answers: Seq<Reply>,
    pub throughput: Option<u32>,
    pub step: StepView,
    pub failure: Option<ErrorView>,
}

/// What a client's thread is given besides its client: the job, where on
/// this machine its results go, and the words that frame the throughput.
pub struct ClientJob {
    pub action: Action,
    pub report_dir: Option<Seq<char>>,
    pub marker: Seq<char>,
    pub delimiter: Seq<char>,
}

impl ClientView {
    /// The preparation of a client: earlier results are deleted, then the
    /// benchmarker is copied over.
    pub open spec fn prepare(self, replies: Seq<Reply>, at: int) -> (Result<(), HaltView>, int) {
        let cleaned = self.clean_previous_results(replies, at);
        if cleaned.0 is Err {
            cleaned
        } else {
            self.send_bench_dir(replies, cleaned.1)
        }
    }

    /// The harvest after a benchmarking run: the file of results is copied
    /// to this machine, then the throughput is read from the result file.
    pub open spec fn collect(self, job: ClientJob, replies: Seq<Reply>, at: int) -> (
        Result<nat, HaltView>,
        int,
    ) {
        match job.report_dir {
            None => (Err(HaltView::Fail(no_report_dir())), at),
            Some(dest) => {
                let pulled = self.pull_csv(dest, replies, at);
                match pulled.0 {
                    Err(halt) => (Err(halt), pulled.1),
                    Ok(_) => self.get_total_throughput(
                        job.marker,
                        job.delimiter,
                        replies,
                        pulled.1,
                    ),
                }
            },
        }
    }

    /// What the work of a phase has come to with the replies so far.
    pub open spec fn work(self, job: ClientJob, phase: ClientPhase, answers: Seq<Reply>) -> Result<
        Found,
        HaltView,
    > {
        match phase {
            ClientPhase::CleanResults => match self.prepare(answers, 0).0 {
                Ok(_) => Ok(Found::Nothing),
                Err(halt) => Err(halt),
            },
            ClientPhase::Starting => match self.start(job.action, answers, 0).0 {
                Ok(_) => Ok(Found::Nothing),
                Err(halt) => Err(halt),
            },
            ClientPhase::Running => match self.check_for_finished(job.action, answers, 0).0 {
                Ok(finished) => Ok(Found::Words(finished)),
                Err(halt) => Err(halt),
            },
            ClientPhase::Completed => match job.action {
                Action::Benchmarking => match self.collect(job, answers, 0).0 {
                    Ok(n) => Ok(Found::Throughput(n as u32)),
                    Err(halt) => Err(halt),
                },
                Action::Loading => Ok(Found::Nothing),
            },
            _ => Ok(Found::Nothing),
        }
    }

    /// The turn that ends the thread with a failure.
    pub open spec fn failed(answers: Seq<Reply>, error: ErrorView) -> ClientTurn {
        ClientTurn {
            phase: ClientPhase::Failed,
            answers,
            throughput: None,
            step: StepView::Report(ThreadResult::Failed),
            failure: Some(error),
        }
    }

    /// The turn that ends the thread well.
    pub open spec fn done(throughput: Option<u32>) -> ClientTurn {
        ClientTurn {
            phase: ClientPhase::Done,
            answers: Seq::empty(),
            throughput,
            step: StepView::Report(ThreadResult::ClientSucceed(throughput)),
            failure: None,
        }
    }

    /// The turn in which `phase` is taken up, with no reply of its own yet.
    pub open spec fn enter(self, job: ClientJob, phase: ClientPhase) -> ClientTurn {
        let none = Seq::<Reply>::empty();
        match phase {
            ClientPhase::AwaitingBarrier1 | ClientPhase::AwaitingBarrier2 => ClientTurn {
                phase,
                answers: none,
                throughput: None,
                step: StepView::Rendezvous,
                failure: None,
            },
            ClientPhase::RunningPause => ClientTurn {
                phase,
                answers: none,
                throughput: None,
                step: StepView::Sleep(CHECKING_INTERVAL as int),
                failure: None,
            },
            ClientPhase::CleanResults | ClientPhase::Starting | ClientPhase::Running
            | ClientPhase::Completed => match self.work(job, phase, none) {
                Err(HaltView::Ask(request)) => ClientTurn {
                    phase,
                    answers: none,
                    throughput: None,
                    step: StepView::Run(request),
                    failure: None,
                },
                Err(HaltView::Fail(error)) => Self::failed(none, error),
                Ok(Found::Throughput(n)) => Self::done(Some(n)),
                Ok(_) => Self::done(None),
            },
            _ => Self::done(None),
        }
    }

    /// The phase that follows when the work of `phase` is done.
    pub open spec fn following(phase: ClientPhase, found: Found) -> ClientPhase {
        match phase {
            ClientPhase::CleanResults => ClientPhase::AwaitingBarrier1,
            ClientPhase::Starting => ClientPhase::Running,
            ClientPhase::Running => if found == Found::Words(true) {
                ClientPhase::Completed
            } else {
                ClientPhase::RunningPause
            },
            _ => ClientPhase::Done,
        }
    }

    /// The turn after a reply has come in a phase that has work.
    pub open spec fn settle(self, job: ClientJob, phase: ClientPhase, answers: Seq<Reply>) -> ClientTurn {
        match self.work(job, phase, answers) {
            Err(HaltView::Ask(request)) => ClientTurn {
                phase,
                answers,
                throughput: None,
                step: StepView::Run(request),
                failure: None,
            },
            Err(HaltView::Fail(error)) => Self::failed(answers, error),
            Ok(Found::Throughput(n)) => Self::done(Some(n)),
            Ok(found) => self.enter(job, Self::following(phase, found)),
        }
    }

    /// The turn that `event` brings about.
    ///
    /// A reply goes to the work of the phase. The release from the first
    /// rendezvous leads straight to the second, and the release from the
    /// second to the start of the program. Waking up leads back to the
    /// search for the end of the job. A thread at its end stays there and
    /// reports again. Any other event is out of turn and ends the thread as
    /// failed.
    pub open spec fn next(
        self,
        job: ClientJob,
        phase: ClientPhase,
        answers: Seq<Reply>,
        throughput: Option<u32>,
        failure: Option<ErrorView>,
        event: Event,
    ) -> ClientTurn {
        match (phase, event) {
            (ClientPhase::Fresh, Event::Begin) => self.enter(job, ClientPhase::CleanResults),
            (ClientPhase::CleanResults, Event::Reply(reply))
            | (ClientPhase::Starting, Event::Reply(reply))
            | (ClientPhase::Running, Event::Reply(reply))
            | (ClientPhase::Completed, Event::Reply(reply)) => self.settle(
                job,
                phase,
                answers.push(reply),
            ),
            (ClientPhase::AwaitingBarrier1, Event::Released) => self.enter(
                job,
                ClientPhase::AwaitingBarrier2,
            ),
            (ClientPhase::AwaitingBarrier2, Event::Released) => self.enter(
                job,
                ClientPhase::Starting,
            ),
            (ClientPhase::RunningPause, Event::Woke) => self.enter(job, ClientPhase::Running),
            (ClientPhase::Done, _) => ClientTurn {
                phase,
                answers,
                throughput,
                step: StepView::Report(ThreadResult::ClientSucceed(throughput)),
                failure,
            },
            (ClientPhase::Failed, _) => ClientTurn {
                phase,
                answers,
                throughput,
                step: StepView::Report(ThreadResult::Failed),
                failure,
            },
            _ => Self::failed(answers, out_of_turn()),
        }
    }
}

/// The thread of one client: the client, its job and how far it has come.
pub struct ClientThread {
    client: Client,
    action: Action,
    report_dir: Option<String>,
    format: ResultFormat,
    phase: ClientPhase,
    answers: Vec<Reply>,
    throughput: Option<u32>,
    failure: Option<BenchError>,
}

/// The result of a phase's work, or the stop before it, as plain values.
pub open spec fn found_view(result: Result<Found, Halt>) -> Result<Found, HaltView> {
    match result {
        Ok(found) => Ok(found),
        Err(halt) => Err(halt@),
    }
}

/// A directory, if there is one, as plain text.
pub open spec fn dir_view(dir: Option<String>) -> Option<Seq<char>> {
    match dir {
        Some(path) => Some(path@),
        None => None,
    }
}

impl ClientThread {
    pub closed spec fn client(&self) -> ClientView {
        self.client@
    }

    pub closed spec fn job(&self) -> ClientJob {
        ClientJob {
            action: self.action,
            report_dir: dir_view(self.report_dir),
            marker: self.format.marker@,
            delimiter: self.format.delimiter@,
        }
    }

    pub closed spec fn phase(&self) -> ClientPhase {
        self.phase
    }

    /// The replies that have come in the phase the thread is in.
    pub closed spec fn answers(&self) -> Seq<Reply> {
        self.answers@
    }

    pub closed spec fn throughput(&self) -> Option<u32> {
        self.throughput
    }

    pub closed spec fn failure(&self) -> Option<ErrorView> {
        failure_view(self.failure)
    }

    /// The turn that the thread is in, but for the step.
    pub open spec fn turn(&self, step: StepView) -> ClientTurn {
        ClientTurn {
            phase: self.phase(),
            answers: self.answers(),
            throughput: self.throughput(),
            step,
            failure: self.failure(),
        }
    }

    /// Where the thread stands.
    pub fn current_phase(&self) -> (phase: ClientPhase)
        ensures
            phase == self.phase(),
    {
        self.phase
    }

    /// The client that the thread drives.
    pub fn node(&self) -> (client: &Client)
        ensures
            client@ == self.client(),
    {
        &self.client
    }

    /// What went wrong, once the thread has failed.
    pub fn error(&self) -> (failure: &Option<BenchError>)
        ensures
            failure_view(*failure) == self.failure(),
    {
        &self.failure
    }

    /// The throughput that the client measured, once it is read.
    pub fn measured(&self) -> (throughput: Option<u32>)
        ensures
            throughput == self.throughput(),
    {
        self.throughput
    }

    fn work(&self, phase: ClientPhase) -> (done: Result<Found, Halt>)
        ensures
            found_view(done) == self.client().work(self.job(), phase, self.answers()),
    {
        let mut tape = Tape::new(&self.answers);
        match phase {
            ClientPhase::CleanResults => {
                self.client.clean_previous_results(&mut tape)?;
                self.client.send_bench_dir(&mut tape)?;
                Ok(Found::Nothing)
            },
            ClientPhase::Starting => {
                self.client.start(self.action, &mut tape)?;
                Ok(Found::Nothing)
            },
            ClientPhase::Running => {
                let finished = self.client.check_for_finished(self.action, &mut tape)?;
                Ok(Found::Words(finished))
            },
            ClientPhase::Completed => match self.action {
                Action::Benchmarking => match &self.report_dir {
                    None => Err(
                        Halt::Fail(
                            BenchError::Message(
                                String::from_str("no directory for the results is given"),
                            ),
                        ),
                    ),
                    Some(dest) => {
                        self.client.pull_csv(dest.as_str(), &mut tape)?;
                        let throughput = self.client.get_total_throughput(
                            &self.format,
                            &mut tape,
                        )?;
                        Ok(Found::Throughput(throughput))
                    },
                },
                Action::Loading => Ok(Found::Nothing),
            },
            _ => Ok(Found::Nothing),
        }
    }

    fn fail(&mut self, error: BenchError) -> (step: Step)
        ensures
            final(self).client() == old(self).client(),
            final(self).job() == old(self).job(),
            final(self).turn(step@) == ClientView::failed(old(self).answers(), error@),
    {
        self.phase = ClientPhase::Failed;
        self.throughput = None;
        self.failure = Some(error);
        Step::Report(ThreadResult::Failed)
    }

    fn finish(&mut self, throughput: Option<u32>) -> (step: Step)
        ensures
            final(self).client() == old(self).client(),
            final(self).job() == old(self).job(),
            final(self).turn(step@) == ClientView::done(throughput),
    {
        self.phase = ClientPhase::Done;
        self.answers = Vec::new();
        self.throughput = throughput;
        self.failure = None;
        Step::Report(ThreadResult::ClientSucceed(throughput))
    }

    fn out_of_turn(&mut self) -> (step: Step)
        ensures
            final(self).client() == old(self).client(),
            final(self).job() == old(self).job(),
            final(self).turn(step@) == ClientView::failed(old(self).answers(), out_of_turn()),
    {
        self.fail(BenchError::Message(String::from_str("an event came out of turn")))
    }

    fn enter(&mut self, phase: ClientPhase) -> (step: Step)
        ensures
            final(self).client() == old(self).client(),
            final(self).job() == old(self).job(),
            final(self).turn(step@) == old(self).client().enter(old(self).job(), phase),
    {
        self.answers = Vec::new();
        self.throughput = None;
        self.failure = None;
        match phase {
            ClientPhase::AwaitingBarrier1 | ClientPhase::AwaitingBarrier2 => {
                self.phase = phase;
                Step::Rendezvous
            },
            ClientPhase::RunningPause => {
                self.phase = phase;
                Step::Sleep(CHECKING_INTERVAL)
            },
            ClientPhase::CleanResults | ClientPhase::Starting | ClientPhase::Running
            | ClientPhase::Completed => {
                match self.work(phase) {
                    Err(Halt::Ask(request)) => {
                        self.phase = phase;
                        Step::Run(request)
                    },
                    Err(Halt::Fail(error)) => self.fail(error),
                    Ok(Found::Throughput(n)) => self.finish(Some(n)),
                    Ok(_) => self.finish(None),
                }
            },
            _ => self.finish(None),
        }
    }

    fn settle(&mut self) -> (step: Step)
        ensures
            final(self).client() == old(self).client(),
            final(self).job() == old(self).job(),
            final(self).turn(step@) == old(self).client().settle(
                old(self).job(),
                old(self).phase(),
                old(self).answers(),
            ),
    {
        self.failure = None;
        self.throughput = None;
        match self.work(self.phase) {
            Err(Halt::Ask(request)) => Step::Run(request),
            Err(Halt::Fail(error)) => self.fail(error),
            Ok(Found::Throughput(n)) => self.finish(Some(n)),
            Ok(found) => {
                let following = match self.phase {
                    ClientPhase::CleanResults => ClientPhase::AwaitingBarrier1,
                    ClientPhase::Starting => ClientPhase::Running,
                    ClientPhase::Running => match found {
                        Found::Words(true) => ClientPhase::Completed,
                        _ => ClientPhase::RunningPause,
                    },
                    _ => ClientPhase::Done,
                };
                self.enter(following)
            },
        }
    }
}

/// The thread of a client that has done nothing yet.
pub fn create_client_thread(
    config: Config,
    conn_info: ConnectionInfo,
    vm_args: String,
    action: Action,
    report_dir: Option<String>,
    format: ResultFormat,
) -> (thread: ClientThread)
    ensures
        thread.client() == (ClientView {
            user_name: config.system.user_name@,
            work_dir: config.system.remote_work_dir@,
            java_bin: config.jdk.remote_java_bin@,
            id: conn_info.id as int,
            ip: conn_info.ip@,
            vm_args: vm_args@,
        }),
        thread.job() == (ClientJob {
            action,
            report_dir: dir_view(report_dir),
            marker: format.marker@,
            delimiter: format.delimiter@,
        }),
        thread.phase() == ClientPhase::Fresh,
        thread.answers() == Seq::<Reply>::empty(),
        thread.throughput() == None::<u32>,
        thread.failure() == None::<ErrorView>,
{
    let client = Client::new(config, conn_info, vm_args);
    ClientThread {
        client,
        action,
        report_dir,
        format,
        phase: ClientPhase::Fresh,
        answers: Vec::new(),
        throughput: None,
        failure: None,
    }
}

/// Takes the thread of a client one turn further: `event` is what happened,
/// the step that comes back is what to do now.
pub fn execute_client_thread(thread: &mut ClientThread, event: Event) -> (step: Step)
    ensures
        final(thread).client() == old(thread).client(),
        final(thread).job() == old(thread).job(),
        final(thread).turn(step@) == old(thread).client().next(
            old(thread).job(),
            old(thread).phase(),
            old(thread).answers(),
            old(thread).throughput(),
            old(thread).failure(),
            event,
        ),
{
    let phase = thread.phase;
    match phase {
        ClientPhase::Done => { return Step::Report(ThreadResult::ClientSucceed(thread.throughput)); },
        ClientPhase::Failed => { return Step::Report(ThreadResult::Failed); },
        _ => {},
    }
    match event {
        Event::Begin => match phase {
            ClientPhase::Fresh => thread.enter(ClientPhase::CleanResults),
            _ => thread.out_of_turn(),
        },
        Event::Reply(reply) => match phase {
            ClientPhase::CleanResults | ClientPhase::Starting | ClientPhase::Running
            | ClientPhase::Completed => {
                thread.answers.push(reply);
                thread.settle()
            },
            _ => thread.out_of_turn(),
        },
        Event::Released => match phase {
            ClientPhase::AwaitingBarrier1 => thread.enter(ClientPhase::AwaitingBarrier2),
            ClientPhase::AwaitingBarrier2 => thread.enter(ClientPhase::Starting),
            _ => thread.out_of_turn(),
        },
        Event::Woke => match phase {
            ClientPhase::RunningPause => thread.enter(ClientPhase::Running),
            _ => thread.out_of_turn(),
        },
        Event::Stop(_) => thread.out_of_turn(),
    }
}

} // verus!

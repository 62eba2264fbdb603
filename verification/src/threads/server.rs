//! The thread of a server or of the sequencer.

use vstd::prelude::*;
use vstd::string::*;
use crate::command::Reply;
use crate::config::Config;
use crate::connections::server::ServerView;
use crate::connections::{Action, ConnectionInfo, Server};
use crate::error::{BenchError, ErrorView};
use crate::replay::{halt_view, Halt, HaltView, Tape};
use crate::threads::{Event, Step, StepView, ThreadResult, CHECKING_INTERVAL};

verus! {

/// Where a server stands in its run.
#[derive(Clone, Copy, Debug, PartialEq, Eq, Structural)]
pub enum ServerPhase {
    /// Nothing is done yet.
    Fresh,
    /// The benchmarker is being copied over and the database put into the
    /// state that the job starts from.
    StateReset,
    /// The server waits for every node to be prepared.
    AwaitingBarrier1,
    /// The command that starts the server program is on its way.
    Starting,
    /// The log is being searched for the words of readiness.
    AwaitingReady,
    /// The words were not there yet; the server sleeps before it looks again.
    ReadyPause,
    /// The server waits for every node to be ready.
    AwaitingBarrier2,
    /// The log is being searched for words of failure.
    Running,
    /// Nothing was wrong; the server sleeps before it reads the stop flag.
    RunningPause,
    /// The stop flag is being read.
    RunningStop,
    /// The server was told to stop; after a loading run its database is
    /// being saved.
    Stopped,
    /// The thread has ended well.
    Done,
    /// The thread has ended with a failure.
    Failed,
}

/// What is said when an event comes that the machine did not ask for.
pub open spec fn out_of_turn() -> ErrorView {
    ErrorView::Message("an event came out of turn"@)
}

/// What a turn of a server's machine leaves: its phase, the replies of the
/// phase so far, the step handed out, and the failure if it ended in one.
pub struct ServerTurn {
    pub phase: ServerPhase,
    pub answers: Seq<Reply>,
    pub step: StepView,
    pub failure: Option<ErrorView>,
}

impl ServerView {
    /// The preparation of a server: the benchmarker is copied over; then a
    /// loading run deletes the database and its backup, and a benchmarking
    /// run puts the backup in the place of the database.
    pub open spec fn prepare(self, action: Action, replies: Seq<Reply>, at: int) -> (
        Result<(), HaltView>,
        int,
    ) {
        let sent = self.send_bench_dir(replies, at);
        if sent.0 is Err {
            sent
        } else {
            match action {
                Action::Loading => {
                    let deleted = self.delete_db_dir(replies, sent.1);
                    if deleted.0 is Err {
                        deleted
                    } else {
                        self.delete_backup_db_dir(replies, deleted.1)
                    }
                },
                Action::Benchmarking => self.reset_db_dir(replies, sent.1),
            }
        }
    }

    /// What the work of a phase has come to with the replies so far: done,
    /// with the answer where the work is a question, stopped for a reply, or
    /// failed.
    pub open spec fn work(self, action: Action, phase: ServerPhase, answers: Seq<Reply>) -> Result<
        bool,
        HaltView,
    > {
        match phase {
            ServerPhase::StateReset => match self.prepare(action, answers, 0).0 {
                Ok(_) => Ok(true),
                Err(halt) => Err(halt),
            },
            ServerPhase::Starting => match self.start(answers, 0).0 {
                Ok(_) => Ok(true),
                Err(halt) => Err(halt),
            },
            ServerPhase::AwaitingReady => self.check_for_ready(answers, 0).0,
            ServerPhase::Running => match self.check_for_error(answers, 0).0 {
                Ok(_) => Ok(true),
                Err(halt) => Err(halt),
            },
            ServerPhase::Stopped => match action {
                Action::Loading => match self.backup_db(answers, 0).0 {
                    Ok(_) => Ok(true),
                    Err(halt) => Err(halt),
                },
                Action::Benchmarking => Ok(true),
            },
            _ => Ok(true),
        }
    }

    /// The turn that ends the thread with a failure.
    pub open spec fn failed(answers: Seq<Reply>, error: ErrorView) -> ServerTurn {
        ServerTurn {
            phase: ServerPhase::Failed,
            answers,
            step: StepView::Report(ThreadResult::Failed),
            failure: Some(error),
        }
    }

    /// The turn in which `phase` is taken up, with no reply of its own yet.
    pub open spec fn enter(self, action: Action, phase: ServerPhase) -> ServerTurn {
        let none = Seq::<Reply>::empty();
        match phase {
            ServerPhase::AwaitingBarrier1 | ServerPhase::AwaitingBarrier2 => ServerTurn {
                phase,
                answers: none,
                step: StepView::Rendezvous,
                failure: None,
            },
            ServerPhase::ReadyPause | ServerPhase::RunningPause => ServerTurn {
                phase,
                answers: none,
                step: StepView::Sleep(CHECKING_INTERVAL as int),
                failure: None,
            },
            ServerPhase::RunningStop => ServerTurn {
                phase,
                answers: none,
                step: StepView::ReadStop,
                failure: None,
            },
            ServerPhase::StateReset | ServerPhase::Starting | ServerPhase::AwaitingReady
            | ServerPhase::Running | ServerPhase::Stopped => match self.work(action, phase, none) {
                Err(HaltView::Ask(request)) => ServerTurn {
                    phase,
                    answers: none,
                    step: StepView::Run(request),
                    failure: None,
                },
                Err(HaltView::Fail(error)) => Self::failed(none, error),
                Ok(_) => ServerTurn {
                    phase: ServerPhase::Done,
                    answers: none,
                    step: StepView::Report(ThreadResult::ServerSucceed),
                    failure: None,
                },
            },
            _ => ServerTurn {
                phase: ServerPhase::Done,
                answers: none,
                step: StepView::Report(ThreadResult::ServerSucceed),
                failure: None,
            },
        }
    }

    /// The phase that follows when the work of `phase` is done; `answer` is
    /// what the work found where it is a question.
    pub open spec fn following(phase: ServerPhase, answer: bool) -> ServerPhase {
        match phase {
            ServerPhase::StateReset => ServerPhase::AwaitingBarrier1,
            ServerPhase::Starting => ServerPhase::AwaitingReady,
            ServerPhase::AwaitingReady => if answer {
                ServerPhase::AwaitingBarrier2
            } else {
                ServerPhase::ReadyPause
            },
            ServerPhase::Running => ServerPhase::RunningPause,
            _ => ServerPhase::Done,
        }
    }

    /// The turn after a reply has come in a phase that has work.
    pub open spec fn settle(self, action: Action, phase: ServerPhase, answers: Seq<Reply>) -> ServerTurn {
        match self.work(action, phase, answers) {
            Err(HaltView::Ask(request)) => ServerTurn {
                phase,
                answers,
                step: StepView::Run(request),
                failure: None,
            },
            Err(HaltView::Fail(error)) => Self::failed(answers, error),
            Ok(answer) => self.enter(action, Self::following(phase, answer)),
        }
    }

    /// The turn that `event` brings about.
    ///
    /// A reply goes to the work of the phase. The release from a rendezvous
    /// leads from the first one to the start of the program and from the
    /// second one to the watch over the log. Waking up leads back to the
    /// search for readiness, or on to reading the stop flag. A stop flag that
    /// is set ends the watch; one that is not starts the next round of it.
    /// A thread at its end stays there and reports again. Any other event is
    /// out of turn and ends the thread as failed, and so does a lock that is
    /// poisoned.
    pub open spec fn next(
        self,
        action: Action,
        phase: ServerPhase,
        answers: Seq<Reply>,
        failure: Option<ErrorView>,
        event: Event,
    ) -> ServerTurn {
        match (phase, event) {
            (ServerPhase::Fresh, Event::Begin) => self.enter(action, ServerPhase::StateReset),
            (ServerPhase::StateReset, Event::Reply(reply))
            | (ServerPhase::Starting, Event::Reply(reply))
            | (ServerPhase::AwaitingReady, Event::Reply(reply))
            | (ServerPhase::Running, Event::Reply(reply))
            | (ServerPhase::Stopped, Event::Reply(reply)) => self.settle(
                action,
                phase,
                answers.push(reply),
            ),
            (ServerPhase::AwaitingBarrier1, Event::Released) => self.enter(
                action,
                ServerPhase::Starting,
            ),
            (ServerPhase::AwaitingBarrier2, Event::Released) => self.enter(
                action,
                ServerPhase::Running,
            ),
            (ServerPhase::ReadyPause, Event::Woke) => self.enter(action, ServerPhase::AwaitingReady),
            (ServerPhase::RunningPause, Event::Woke) => self.enter(action, ServerPhase::RunningStop),
            (ServerPhase::RunningStop, Event::Stop(Ok(stop))) => if stop {
                self.enter(action, ServerPhase::Stopped)
            } else {
                self.enter(action, ServerPhase::Running)
            },
            (ServerPhase::RunningStop, Event::Stop(Err(error))) => Self::failed(answers, error@),
            (ServerPhase::Done, _) => ServerTurn {
                phase,
                answers,
                step: StepView::Report(ThreadResult::ServerSucceed),
                failure,
            },
            (ServerPhase::Failed, _) => ServerTurn {
                phase,
                answers,
                step: StepView::Report(ThreadResult::Failed),
                failure,
            },
            _ => Self::failed(answers, out_of_turn()),
        }
    }
}

/// The thread of one server: the server, its job and how far it has come.
pub struct ServerThread {
    server: Server,
    action: Action,
    phase: ServerPhase,
    answers: Vec<Reply>,
    failure: Option<BenchError>,
}

/// The failure that a thread ended in, as plain values.
pub open spec fn failure_view(failure: Option<BenchError>) -> Option<ErrorView> {
    match failure {
        Some(error) => Some(error@),
        None => None,
    }
}

impl ServerThread {
    pub closed spec fn server(&self) -> ServerView {
        self.server@
    }

    pub closed spec fn action(&self) -> Action {
        self.action
    }

    pub closed spec fn phase(&self) -> ServerPhase {
        self.phase
    }

    /// The replies that have come in the phase the thread is in.
    pub closed spec fn answers(&self) -> Seq<Reply> {
        self.answers@
    }

    pub closed spec fn failure(&self) -> Option<ErrorView> {
        failure_view(self.failure)
    }

    /// Where the thread stands.
    pub fn current_phase(&self) -> (phase: ServerPhase)
        ensures
            phase == self.phase(),
    {
        self.phase
    }

    /// The server that the thread drives.
    pub fn node(&self) -> (server: &Server)
        ensures
            server@ == self.server(),
    {
        &self.server
    }

    /// What went wrong, once the thread has failed.
    pub fn error(&self) -> (failure: &Option<BenchError>)
        ensures
            failure_view(*failure) == self.failure(),
    {
        &self.failure
    }

    fn work(&self, phase: ServerPhase) -> (done: Result<bool, Halt>)
        ensures
            halt_view(done) == self.server().work(self.action(), phase, self.answers()),
    {
        let mut tape = Tape::new(&self.answers);
        match phase {
            ServerPhase::StateReset => {
                self.server.send_bench_dir(&mut tape)?;
                match self.action {
                    Action::Loading => {
                        self.server.delete_db_dir(&mut tape)?;
                        self.server.delete_backup_db_dir(&mut tape)?;
                    },
                    Action::Benchmarking => {
                        self.server.reset_db_dir(&mut tape)?;
                    },
                }
                Ok(true)
            },
            ServerPhase::Starting => {
                self.server.start(&mut tape)?;
                Ok(true)
            },
            ServerPhase::AwaitingReady => self.server.check_for_ready(&mut tape),
            ServerPhase::Running => {
                self.server.check_for_error(&mut tape)?;
                Ok(true)
            },
            ServerPhase::Stopped => {
                if let Action::Loading = self.action {
                    self.server.backup_db(&mut tape)?;
                }
                Ok(true)
            },
            _ => Ok(true),
        }
    }

    fn fail(&mut self, error: BenchError) -> (step: Step)
        ensures
            final(self).server() == old(self).server(),
            final(self).action() == old(self).action(),
            final(self).phase() == ServerPhase::Failed,
            final(self).answers() == old(self).answers(),
            final(self).failure() == Some(error@),
            step@ == StepView::Report(ThreadResult::Failed),
    {
        self.phase = ServerPhase::Failed;
        self.failure = Some(error);
        Step::Report(ThreadResult::Failed)
    }

    fn finish(&mut self) -> (step: Step)
        ensures
            final(self).server() == old(self).server(),
            final(self).action() == old(self).action(),
            final(self).phase() == ServerPhase::Done,
            final(self).answers() == Seq::<Reply>::empty(),
            final(self).failure() == None::<ErrorView>,
            step@ == StepView::Report(ThreadResult::ServerSucceed),
    {
        self.phase = ServerPhase::Done;
        self.answers = Vec::new();
        self.failure = None;
        Step::Report(ThreadResult::ServerSucceed)
    }

    fn enter(&mut self, phase: ServerPhase) -> (step: Step)
        ensures
            final(self).server() == old(self).server(),
            final(self).action() == old(self).action(),
            (ServerTurn {
                phase: final(self).phase(),
                answers: final(self).answers(),
                step: step@,
                failure: final(self).failure(),
            }) == old(self).server().enter(old(self).action(), phase),
    {
        self.answers = Vec::new();
        self.failure = None;
        match phase {
            ServerPhase::AwaitingBarrier1 | ServerPhase::AwaitingBarrier2 => {
                self.phase = phase;
                Step::Rendezvous
            },
            ServerPhase::ReadyPause | ServerPhase::RunningPause => {
                self.phase = phase;
                Step::Sleep(CHECKING_INTERVAL)
            },
            ServerPhase::RunningStop => {
                self.phase = phase;
                Step::ReadStop
            },
            ServerPhase::StateReset | ServerPhase::Starting | ServerPhase::AwaitingReady
            | ServerPhase::Running | ServerPhase::Stopped => {
                match self.work(phase) {
                    Err(Halt::Ask(request)) => {
                        self.phase = phase;
                        Step::Run(request)
                    },
                    Err(Halt::Fail(error)) => self.fail(error),
                    Ok(_) => self.finish(),
                }
            },
            _ => self.finish(),
        }
    }

    fn settle(&mut self) -> (step: Step)
        ensures
            final(self).server() == old(self).server(),
            final(self).action() == old(self).action(),
            (ServerTurn {
                phase: final(self).phase(),
                answers: final(self).answers(),
                step: step@,
                failure: final(self).failure(),
            }) == old(self).server().settle(old(self).action(), old(self).phase(), old(self).answers()),
    {
        self.failure = None;
        match self.work(self.phase) {
            Err(Halt::Ask(request)) => Step::Run(request),
            Err(Halt::Fail(error)) => self.fail(error),
            Ok(answer) => {
                let following = match self.phase {
                    ServerPhase::StateReset => ServerPhase::AwaitingBarrier1,
                    ServerPhase::Starting => ServerPhase::AwaitingReady,
                    ServerPhase::AwaitingReady => if answer {
                        ServerPhase::AwaitingBarrier2
                    } else {
                        ServerPhase::ReadyPause
                    },
                    ServerPhase::Running => ServerPhase::RunningPause,
                    _ => ServerPhase::Done,
                };
                self.enter(following)
            },
        }
    }
}

/// The thread of a server that has done nothing yet.
pub fn create_server_thread(
    config: Config,
    conn_info: ConnectionInfo,
    db_name: String,
    vm_args: String,
    is_sequencer: bool,
    action: Action,
) -> (thread: ServerThread)
    ensures
        thread.server() == (ServerView {
            user_name: config.system.user_name@,
            work_dir: config.system.remote_work_dir@,
            java_bin: config.jdk.remote_java_bin@,
            id: conn_info.id as int,
            ip: conn_info.ip@,
            proc_name: ServerView::named(conn_info.id as int, is_sequencer),
            db_name: ServerView::own_db(db_name@, conn_info.id as int, is_sequencer),
            vm_args: vm_args@,
            is_sequencer,
        }),
        thread.action() == action,
        thread.phase() == ServerPhase::Fresh,
        thread.answers() == Seq::<Reply>::empty(),
        thread.failure() == None::<ErrorView>,
{
    let server = Server::new(config, conn_info, db_name, vm_args, is_sequencer);
    ServerThread { server, action, phase: ServerPhase::Fresh, answers: Vec::new(), failure: None }
}

/// Takes the thread of a server one turn further: `event` is what happened,
/// the step that comes back is what to do now.
pub fn execute_server_thread(thread: &mut ServerThread, event: Event) -> (step: Step)
    ensures
        final(thread).server() == old(thread).server(),
        final(thread).action() == old(thread).action(),
        (ServerTurn {
            phase: final(thread).phase(),
            answers: final(thread).answers(),
            step: step@,
            failure: final(thread).failure(),
        }) == old(thread).server().next(
            old(thread).action(),
            old(thread).phase(),
            old(thread).answers(),
            old(thread).failure(),
            event,
        ),
{
    let phase = thread.phase;
    match phase {
        ServerPhase::Done => { return Step::Report(ThreadResult::ServerSucceed); },
        ServerPhase::Failed => { return Step::Report(ThreadResult::Failed); },
        _ => {},
    }
    match event {
        Event::Begin => match phase {
            ServerPhase::Fresh => thread.enter(ServerPhase::StateReset),
            _ => thread.out_of_turn(),
        },
        Event::Reply(reply) => match phase {
            ServerPhase::StateReset | ServerPhase::Starting | ServerPhase::AwaitingReady
            | ServerPhase::Running | ServerPhase::Stopped => {
                thread.answers.push(reply);
                thread.settle()
            },
            _ => thread.out_of_turn(),
        },
        Event::Released => match phase {
            ServerPhase::AwaitingBarrier1 => thread.enter(ServerPhase::Starting),
            ServerPhase::AwaitingBarrier2 => thread.enter(ServerPhase::Running),
            _ => thread.out_of_turn(),
        },
        Event::Woke => match phase {
            ServerPhase::ReadyPause => thread.enter(ServerPhase::AwaitingReady),
            ServerPhase::RunningPause => thread.enter(ServerPhase::RunningStop),
            _ => thread.out_of_turn(),
        },
        Event::Stop(read) => match phase {
            ServerPhase::RunningStop => match read {
                Ok(stop) => if stop {
                    thread.enter(ServerPhase::Stopped)
                } else {
                    thread.enter(ServerPhase::Running)
                },
                Err(error) => thread.fail(error),
            },
            _ => thread.out_of_turn(),
        },
    }
}

impl ServerThread {
    fn out_of_turn(&mut self) -> (step: Step)
        ensures
            final(self).server() == old(self).server(),
            final(self).action() == old(self).action(),
            final(self).phase() == ServerPhase::Failed,
            final(self).answers() == old(self).answers(),
            final(self).failure() == Some(out_of_turn()),
            step@ == StepView::Report(ThreadResult::Failed),
    {
        self.fail(BenchError::Message(String::from_str("an event came out of turn")))
    }
}

} // verus!

//! The one who starts the threads of a run, counts their reports and says
//! when the servers may stop.

use vstd::prelude::*;
use vstd::string::*;
use crate::command::Reply;
use crate::config::Config;
use crate::connections::client::ClientView;
use crate::connections::server::ServerView;
use crate::connections::throughput::ResultFormat;
use crate::connections::{Action, ConnectionInfo};
use crate::error::{BenchError, ErrorView};
use crate::threads::client::{create_client_thread, dir_view, ClientJob, ClientPhase, ClientThread};
use crate::threads::server::{create_server_thread, ServerPhase, ServerThread};
use crate::threads::ThreadResult;

verus! {

/// The count of the reports of a run. The counts stop at the largest number
/// that fits.
#[derive(Clone, Copy, Debug, PartialEq, Eq, Structural)]
pub struct Orchestrator {
    /// How many threads the run has.
    pub threads: usize,
    /// How many of them are clients.
    pub clients: usize,
    /// How many threads have reported.
    pub reported: usize,
    /// How many clients have reported that they are done.
    pub client_done: usize,
    /// Whether a thread has reported a failure.
    pub failed: bool,
}

/// What the orchestrator is to do after a report.
#[derive(Clone, Copy, Debug, PartialEq, Eq, Structural)]
pub struct Verdict {
    /// Set the stop flag now: the last client has just reported.
    pub stop: bool,
    /// Every thread has reported: join them and end the run.
    pub complete: bool,
}

/// One more, up to the largest number that fits.
pub open spec fn counted(n: usize) -> usize {
    if n < usize::MAX {
        (n + 1) as usize
    } else {
        n
    }
}

/// What is said of a run in which a thread failed.
pub open spec fn thread_failed() -> ErrorView {
    ErrorView::Message("A thread exits with an error"@)
}

impl Orchestrator {
    /// Whether the servers are told to stop: every client that was planned
    /// has reported that it is done.
    pub open spec fn stopped(self) -> bool {
        self.client_done >= self.clients
    }

    /// Whether every thread has reported.
    pub open spec fn complete(self) -> bool {
        self.reported >= self.threads
    }

    /// The count after one more report.
    pub open spec fn after(self, result: ThreadResult) -> Orchestrator {
        Orchestrator {
            threads: self.threads,
            clients: self.clients,
            reported: counted(self.reported),
            client_done: if result is ClientSucceed {
                counted(self.client_done)
            } else {
                self.client_done
            },
            failed: self.failed || result is Failed,
        }
    }

    /// The count after a row of reports.
    pub open spec fn after_all(self, results: Seq<ThreadResult>) -> Orchestrator
        decreases results.len(),
    {
        if results.len() == 0 {
            self
        } else {
            self.after_all(results.drop_last()).after(results.last())
        }
    }

    /// The count of a run before any report.
    pub fn new(threads: usize, clients: usize) -> (count: Orchestrator)
        ensures
            count == (Orchestrator { threads, clients, reported: 0, client_done: 0, failed: false }),
    {
        Orchestrator { threads, clients, reported: 0, client_done: 0, failed: false }
    }

    /// Whether the stop flag is to be set.
    pub fn is_stopped(&self) -> (stopped: bool)
        ensures
            stopped == self.stopped(),
    {
        self.client_done >= self.clients
    }

    /// Whether every thread has reported.
    pub fn is_complete(&self) -> (complete: bool)
        ensures
            complete == self.complete(),
    {
        self.reported >= self.threads
    }

    /// Takes in the report of one thread. The stop flag is to be set in the
    /// turn in which the last planned client reports, and never taken back.
    pub fn record(&mut self, result: ThreadResult) -> (verdict: Verdict)
        ensures
            *final(self) == old(self).after(result),
            verdict.stop == (!old(self).stopped() && final(self).stopped()),
            verdict.complete == final(self).complete(),
            old(self).stopped() ==> final(self).stopped(),
            old(self).failed ==> final(self).failed,
    {
        let was_stopped = self.is_stopped();
        if self.reported < usize::MAX {
            self.reported = self.reported + 1;
        }
        match result {
            ThreadResult::ClientSucceed(_) => {
                if self.client_done < usize::MAX {
                    self.client_done = self.client_done + 1;
                }
            },
            ThreadResult::Failed => {
                self.failed = true;
            },
            ThreadResult::ServerSucceed => {},
        }
        Verdict { stop: !was_stopped && self.is_stopped(), complete: self.is_complete() }
    }
}

/// The throughputs of the clients, in the order of the list.
pub open spec fn throughputs(clients: Seq<ClientThread>) -> Seq<Option<u32>> {
    Seq::new(clients.len(), |i: int| clients[i].throughput())
}

/// What a run comes to: the failure if a thread reported one, whatever the
/// others reported; else what the clients measured, client by client.
pub open spec fn run_outcome(count: Orchestrator, clients: Seq<ClientThread>) -> Result<
    Seq<Option<u32>>,
    ErrorView,
> {
    if count.failed {
        Err(thread_failed())
    } else {
        Ok(throughputs(clients))
    }
}

/// What a run came to, as plain values.
pub open spec fn outcome_view(outcome: Result<Vec<Option<u32>>, BenchError>) -> Result<
    Seq<Option<u32>>,
    ErrorView,
> {
    match outcome {
        Ok(results) => Ok(results@),
        Err(error) => Err(error@),
    }
}

/// A failure is never forgotten and a stop never taken back, whatever is
/// reported afterwards.
pub proof fn lemma_reports_keep(count: Orchestrator, results: Seq<ThreadResult>)
    ensures
        count.failed ==> count.after_all(results).failed,
        count.stopped() ==> count.after_all(results).stopped(),
        count.after_all(results).threads == count.threads,
        count.after_all(results).clients == count.clients,
    decreases results.len(),
{
    if results.len() > 0 {
        lemma_reports_keep(count, results.drop_last());
    }
}

/// One report of a failure among the reports of a run makes the run a
/// failure, however many threads report success before or after it.
pub proof fn lemma_one_failure_fails_the_run(
    threads: usize,
    planned: usize,
    results: Seq<ThreadResult>,
    which: int,
    clients: Seq<ClientThread>,
)
    requires
        0 <= which < results.len(),
        results[which] is Failed,
    ensures
        run_outcome(
            (Orchestrator {
                threads,
                clients: planned,
                reported: 0,
                client_done: 0,
                failed: false,
            }).after_all(results),
            clients,
        ) == Err::<Seq<Option<u32>>, ErrorView>(thread_failed()),
    decreases results.len(),
{
    if which == results.len() - 1 {
    } else {
        lemma_one_failure_fails_the_run(threads, planned, results.drop_last(), which, clients);
    }
}

/// Without a report of a failure the run does not fail.
pub proof fn lemma_no_failure_no_error(count: Orchestrator, results: Seq<ThreadResult>)
    requires
        !count.failed,
        forall|i: int| 0 <= i < results.len() ==> !(#[trigger] results[i] is Failed),
    ensures
        !count.after_all(results).failed,
    decreases results.len(),
{
    if results.len() > 0 {
        lemma_no_failure_no_error(count, results.drop_last());
    }
}

/// How many of the reports say that a client is done.
pub open spec fn clients_done(results: Seq<ThreadResult>) -> nat
    decreases results.len(),
{
    if results.len() == 0 {
        0
    } else {
        clients_done(results.drop_last()) + if results.last() is ClientSucceed {
            1nat
        } else {
            0nat
        }
    }
}

/// The stop flag is set exactly when as many clients have reported that they
/// are done as the run has clients.
pub proof fn lemma_stop_when_clients_done(threads: usize, planned: usize, results: Seq<ThreadResult>)
    requires
        results.len() <= usize::MAX,
    ensures
        (Orchestrator {
            threads,
            clients: planned,
            reported: 0,
            client_done: 0,
            failed: false,
        }).after_all(results).client_done == clients_done(results),
        (Orchestrator {
            threads,
            clients: planned,
            reported: 0,
            client_done: 0,
            failed: false,
        }).after_all(results).stopped() <==> clients_done(results) >= planned,
        clients_done(results) <= results.len(),
    decreases results.len(),
{
    let start = Orchestrator {
        threads,
        clients: planned,
        reported: 0,
        client_done: 0,
        failed: false,
    };
    lemma_reports_keep(start, results);
    if results.len() > 0 {
        lemma_stop_when_clients_done(threads, planned, results.drop_last());
    }
}

/// What the run returns once every thread is joined.
pub fn outcome(count: &Orchestrator, clients: &Vec<ClientThread>) -> (outcome: Result<
    Vec<Option<u32>>,
    BenchError,
>)
    ensures
        outcome_view(outcome) == run_outcome(*count, clients@),
{
    if count.failed {
        return Err(BenchError::Message(String::from_str("A thread exits with an error")));
    }
    let mut results: Vec<Option<u32>> = Vec::new();
    let mut i: usize = 0;
    while i < clients.len()
        invariant
            i <= clients@.len(),
            results@ == throughputs(clients@).take(i as int),
        decreases clients@.len() - i,
    {
        results.push(clients[i].measured());
        assert(results@ =~= throughputs(clients@).take(i + 1));
        i += 1;
    }
    assert(throughputs(clients@).take(i as int) =~= throughputs(clients@));
    Ok(results)
}


/// The threads of a run before any of them has begun, and the count of
/// their reports. The threads stand in the order in which they are started:
/// the servers, the sequencer, the clients.
pub struct Run {
    pub servers: Vec<ServerThread>,
    pub sequencer: Option<ServerThread>,
    pub clients: Vec<ClientThread>,
    pub count: Orchestrator,
}

/// The arguments for the virtual machine of a node: those of the run, a
/// blank, and those of the settings.
pub open spec fn role_args(vm_args: Seq<char>, jvm_args: Seq<char>) -> Seq<char> {
    vm_args + " "@ + jvm_args
}

/// The server that stands on `node`.
pub open spec fn server_on(
    config: Config,
    node: ConnectionInfo,
    db_name: Seq<char>,
    vm_args: Seq<char>,
    is_sequencer: bool,
) -> ServerView {
    ServerView {
        user_name: config.system.user_name@,
        work_dir: config.system.remote_work_dir@,
        java_bin: config.jdk.remote_java_bin@,
        id: node.id as int,
        ip: node.ip@,
        proc_name: ServerView::named(node.id as int, is_sequencer),
        db_name: ServerView::own_db(db_name, node.id as int, is_sequencer),
        vm_args: role_args(vm_args, config.jdk.jvm_args@),
        is_sequencer,
    }
}

/// The client that stands on `node`.
pub open spec fn client_on(config: Config, node: ConnectionInfo, vm_args: Seq<char>) -> ClientView {
    ClientView {
        user_name: config.system.user_name@,
        work_dir: config.system.remote_work_dir@,
        java_bin: config.jdk.remote_java_bin@,
        id: node.id as int,
        ip: node.ip@,
        vm_args: role_args(vm_args, config.jdk.jvm_args@),
    }
}

/// Whether `thread` is the thread of `server` with nothing done yet.
pub open spec fn fresh_server(thread: ServerThread, server: ServerView, action: Action) -> bool {
    &&& thread.server() == server
    &&& thread.action() == action
    &&& thread.phase() == ServerPhase::Fresh
    &&& thread.answers() == Seq::<Reply>::empty()
    &&& thread.failure() == None::<ErrorView>
}

/// Whether `thread` is the thread of `client` with nothing done yet.
pub open spec fn fresh_client(thread: ClientThread, client: ClientView, job: ClientJob) -> bool {
    &&& thread.client() == client
    &&& thread.job() == job
    &&& thread.phase() == ClientPhase::Fresh
    &&& thread.answers() == Seq::<Reply>::empty()
    &&& thread.throughput() == None::<u32>
    &&& thread.failure() == None::<ErrorView>
}

/// How many threads a run has.
pub open spec fn thread_count(sequencer: Option<ConnectionInfo>, servers: nat, clients: nat) -> nat {
    servers + clients + if sequencer is Some {
        1nat
    } else {
        0nat
    }
}

/// Whether `run` holds the threads of the given nodes, each with nothing
/// done yet and in the order of the lists, and the count for them.
pub open spec fn is_set_up(
    run: Run,
    config: Config,
    db_name: Seq<char>,
    action: Action,
    report_dir: Option<Seq<char>>,
    vm_args: Seq<char>,
    format: ResultFormat,
    sequencer: Option<ConnectionInfo>,
    server_list: Seq<ConnectionInfo>,
    client_list: Seq<ConnectionInfo>,
) -> bool {
    &&& run.servers@.len() == server_list.len()
    &&& forall|i: int|
        0 <= i < server_list.len() ==> fresh_server(
            #[trigger] run.servers@[i],
            server_on(config, server_list[i], db_name, vm_args, false),
            action,
        )
    &&& sequencer is Some <==> run.sequencer is Some
    &&& sequencer matches Some(node) ==> fresh_server(
        run.sequencer->0,
        server_on(config, node, db_name, vm_args, true),
        action,
    )
    &&& run.clients@.len() == client_list.len()
    &&& forall|i: int|
        0 <= i < client_list.len() ==> fresh_client(
            #[trigger] run.clients@[i],
            client_on(config, client_list[i], vm_args),
            (ClientJob {
                action,
                report_dir,
                marker: format.marker@,
                delimiter: format.delimiter@,
            }),
        )
    &&& run.count == (Orchestrator {
        threads: thread_count(sequencer, server_list.len(), client_list.len()) as usize,
        clients: client_list.len() as usize,
        reported: 0,
        client_done: 0,
        failed: false,
    })
}

fn with_jvm_args(vm_args: &str, config: &Config) -> (args: String)
    ensures
        args@ == role_args(vm_args@, config.jdk.jvm_args@),
{
    let mut args = String::from_str(vm_args);
    args.append(" ");
    args.append(config.jdk.jvm_args.as_str());
    args
}

fn copy_dir(dir: &Option<String>) -> (copy: Option<String>)
    ensures
        copy == *dir,
{
    match dir {
        Some(path) => Some(path.clone()),
        None => None,
    }
}

/// Sets up the threads of a run: one for every server, one for the
/// sequencer if there is one, one for every client, each with nothing done
/// yet, and the count that waits for as many reports as there are threads.
pub fn run_in_threads(
    config: &Config,
    db_name: &str,
    action: Action,
    report_dir: Option<String>,
    vm_args: &str,
    format: &ResultFormat,
    sequencer: Option<ConnectionInfo>,
    server_list: Vec<ConnectionInfo>,
    client_list: Vec<ConnectionInfo>,
) -> (run: Run)
    requires
        server_list@.len() + client_list@.len() + 1 <= usize::MAX,
    ensures
        is_set_up(
            run,
            *config,
            db_name@,
            action,
            dir_view(report_dir),
            vm_args@,
            *format,
            sequencer,
            server_list@,
            client_list@,
        ),
{
    let threads = match sequencer {
        Some(_) => server_list.len() + client_list.len() + 1,
        None => server_list.len() + client_list.len(),
    };
    let mut servers: Vec<ServerThread> = Vec::new();
    let mut i: usize = 0;
    while i < server_list.len()
        invariant
            i <= server_list@.len(),
            servers@.len() == i,
            forall|k: int|
                0 <= k < i ==> fresh_server(
                    #[trigger] servers@[k],
                    server_on(*config, server_list@[k], db_name@, vm_args@, false),
                    action,
                ),
        decreases server_list@.len() - i,
    {
        let thread = create_server_thread(
            config.clone(),
            server_list[i].clone(),
            String::from_str(db_name),
            with_jvm_args(vm_args, config),
            false,
            action,
        );
        servers.push(thread);
        i += 1;
    }
    let sequencer_thread = match sequencer {
        Some(node) => Some(
            create_server_thread(
                config.clone(),
                node,
                String::from_str(db_name),
                with_jvm_args(vm_args, config),
                true,
                action,
            ),
        ),
        None => None,
    };
    let mut clients: Vec<ClientThread> = Vec::new();
    let mut j: usize = 0;
    while j < client_list.len()
        invariant
            j <= client_list@.len(),
            clients@.len() == j,
            forall|k: int|
                0 <= k < j ==> fresh_client(
                    #[trigger] clients@[k],
                    client_on(*config, client_list@[k], vm_args@),
                    (ClientJob {
                        action,
                        report_dir: dir_view(report_dir),
                        marker: format.marker@,
                        delimiter: format.delimiter@,
                    }),
                ),
        decreases client_list@.len() - j,
    {
        let thread = create_client_thread(
            config.clone(),
            client_list[j].clone(),
            with_jvm_args(vm_args, config),
            action,
            copy_dir(&report_dir),
            format.clone(),
        );
        clients.push(thread);
        j += 1;
    }
    Run {
        servers,
        sequencer: sequencer_thread,
        clients,
        count: Orchestrator::new(threads, client_list.len()),
    }
}

} // verus!

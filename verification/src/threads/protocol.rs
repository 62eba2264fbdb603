//! The run as a whole: every node's machine, and the rendezvous between
//! them. Nothing here is compiled; it states what the machines guarantee
//! when they are driven side by side.
//!
//! The rendezvous is taken to work as a barrier does that is made for as
//! many threads as the run has: a node is released from its n-th wait only
//! when every node of the run has come to its n-th wait. A node that fails
//! before a wait never comes to it.

use vstd::prelude::*;
use crate::command::Reply;
use crate::connections::client::ClientView;
use crate::connections::server::ServerView;
use crate::connections::Action;
use crate::error::ErrorView;
use crate::replay::{probed, HaltView, ProbeView};
use crate::threads::client::{ClientJob, ClientPhase};
use crate::threads::server::ServerPhase;
use crate::threads::{Event, StepView, CHECKING_INTERVAL, ThreadResult};

verus! {

/// The thread of a server, as the machine sees it.
pub struct ServerNode {
    pub server: ServerView,
    pub action: Action,
    pub phase: ServerPhase,
    pub answers: Seq<Reply>,
    pub failure: Option<ErrorView>,
}

/// The thread of a client, as the machine sees it.
pub struct ClientNode {
    pub client: ClientView,
    pub job: ClientJob,
    pub phase: ClientPhase,
    pub answers: Seq<Reply>,
    pub throughput: Option<u32>,
    pub failure: Option<ErrorView>,
}

pub enum Machine {
    Server(ServerNode),
    Client(ClientNode),
}

/// A node of a run: its machine, and at how many rendezvous it has arrived.
pub struct Node {
    pub machine: Machine,
    pub arrived: nat,
}

impl ServerNode {
    /// The node after `event`, as `execute_server_thread` leaves it.
    pub open spec fn after(self, event: Event) -> ServerNode {
        let turn = self.server.next(self.action, self.phase, self.answers, self.failure, event);
        ServerNode {
            server: self.server,
            action: self.action,
            phase: turn.phase,
            answers: turn.answers,
            failure: turn.failure,
        }
    }

    /// The step handed out after `event`.
    pub open spec fn step(self, event: Event) -> StepView {
        self.server.next(self.action, self.phase, self.answers, self.failure, event).step
    }
}

impl ClientNode {
    /// The node after `event`, as `execute_client_thread` leaves it.
    pub open spec fn after(self, event: Event) -> ClientNode {
        let turn = self.client.next(
            self.job,
            self.phase,
            self.answers,
            self.throughput,
            self.failure,
            event,
        );
        ClientNode {
            client: self.client,
            job: self.job,
            phase: turn.phase,
            answers: turn.answers,
            throughput: turn.throughput,
            failure: turn.failure,
        }
    }
}

impl Machine {
    pub open spec fn after(self, event: Event) -> Machine {
        match self {
            Machine::Server(node) => Machine::Server(node.after(event)),
            Machine::Client(node) => Machine::Client(node.after(event)),
        }
    }

    /// Whether the machine waits at a rendezvous.
    pub open spec fn waits(self) -> bool {
        match self {
            Machine::Server(node) => node.phase == ServerPhase::AwaitingBarrier1 || node.phase
                == ServerPhase::AwaitingBarrier2,
            Machine::Client(node) => node.phase == ClientPhase::AwaitingBarrier1 || node.phase
                == ClientPhase::AwaitingBarrier2,
        }
    }

    /// Whether the machine has not begun.
    pub open spec fn fresh(self) -> bool {
        match self {
            Machine::Server(node) => node.phase == ServerPhase::Fresh,
            Machine::Client(node) => node.phase == ClientPhase::Fresh,
        }
    }

    /// Whether the two stand in the same phase.
    pub open spec fn same_phase(self, other: Machine) -> bool {
        match (self, other) {
            (Machine::Server(a), Machine::Server(b)) => a.phase == b.phase,
            (Machine::Client(a), Machine::Client(b)) => a.phase == b.phase,
            _ => false,
        }
    }

    /// Whether this is a server, or the sequencer, that in this turn sends
    /// the command that starts its program.
    pub open spec fn server_starts(self, event: Event) -> bool {
        self matches Machine::Server(node) && node.phase != ServerPhase::Starting && node.after(
            event,
        ).phase == ServerPhase::Starting
    }

    /// Whether this is a client that in this turn sends the command that
    /// starts its program.
    pub open spec fn client_launches(self, event: Event) -> bool {
        self matches Machine::Client(node) && node.phase != ClientPhase::Starting && node.after(
            event,
        ).phase == ClientPhase::Starting
    }
}

impl Node {
    /// The node after `event`. It has arrived at one more rendezvous if the
    /// event brought it to one.
    pub open spec fn after(self, event: Event) -> Node {
        let machine = self.machine.after(event);
        Node {
            machine,
            arrived: if machine.waits() && !machine.same_phase(self.machine) {
                self.arrived + 1
            } else {
                self.arrived
            },
        }
    }

    /// Whether the node has finished its preparation: it has come to the
    /// first rendezvous.
    pub open spec fn prepared(self) -> bool {
        self.arrived >= 1
    }

    /// Whether the node has come to the second rendezvous; a server does so
    /// when it has found itself ready.
    pub open spec fn ready(self) -> bool {
        self.arrived >= 2
    }

    /// How the count of rendezvous goes with the phase of a node. A node
    /// that has failed may have failed before or after any of them.
    pub open spec fn counted(self) -> bool {
        match self.machine {
            Machine::Server(node) => match node.phase {
                ServerPhase::Fresh | ServerPhase::StateReset => self.arrived == 0,
                ServerPhase::AwaitingBarrier1 | ServerPhase::Starting | ServerPhase::AwaitingReady
                | ServerPhase::ReadyPause => self.arrived == 1,
                ServerPhase::Failed => self.arrived <= 2,
                _ => self.arrived == 2,
            },
            Machine::Client(node) => match node.phase {
                ClientPhase::Fresh | ClientPhase::CleanResults => self.arrived == 0,
                ClientPhase::AwaitingBarrier1 => self.arrived == 1,
                ClientPhase::Failed => self.arrived <= 2,
                _ => self.arrived == 2,
            },
        }
    }

    /// How many rendezvous the node has been released from, as its phase
    /// tells; a node that has failed tells nothing.
    pub open spec fn released(self) -> nat {
        match self.machine {
            Machine::Server(node) => match node.phase {
                ServerPhase::Fresh | ServerPhase::StateReset | ServerPhase::AwaitingBarrier1
                | ServerPhase::Failed => 0,
                ServerPhase::Starting | ServerPhase::AwaitingReady | ServerPhase::ReadyPause
                | ServerPhase::AwaitingBarrier2 => 1,
                _ => 2,
            },
            Machine::Client(node) => match node.phase {
                ClientPhase::Fresh | ClientPhase::CleanResults | ClientPhase::AwaitingBarrier1
                | ClientPhase::Failed => 0,
                ClientPhase::AwaitingBarrier2 => 1,
                _ => 2,
            },
        }
    }
}

/// Whether every node of the fleet has arrived at `count` rendezvous.
pub open spec fn all_arrived(fleet: Seq<Node>, count: nat) -> bool {
    forall|j: int| 0 <= j < fleet.len() ==> (#[trigger] fleet[j]).arrived >= count
}

/// Whether the fleet stands as a run begins: no node has begun.
pub open spec fn initial(fleet: Seq<Node>) -> bool {
    forall|j: int|
        0 <= j < fleet.len() ==> (#[trigger] fleet[j]).machine.fresh() && fleet[j].arrived == 0
}

/// One turn of a run: the node `i` is told `event`. It is told of a release
/// only when every node has arrived at as many rendezvous as it has itself.
pub open spec fn turn(before: Seq<Node>, after: Seq<Node>, i: int, event: Event) -> bool {
    &&& 0 <= i < before.len()
    &&& event is Released ==> all_arrived(before, before[i].arrived)
    &&& after == before.update(i, before[i].after(event))
}

/// Whether `after` follows `before` by one turn of some node.
pub open spec fn follows(before: Seq<Node>, after: Seq<Node>) -> bool {
    exists|i: int, event: Event| #[trigger] turn(before, after, i, event)
}

/// Whether `trace` is a run: it begins with a fleet in which no node has
/// begun, and goes on turn by turn.
pub open spec fn is_run(trace: Seq<Seq<Node>>) -> bool {
    &&& trace.len() > 0
    &&& initial(trace[0])
    &&& forall|k: int| 0 <= k < trace.len() - 1 ==> follows(#[trigger] trace[k], trace[k + 1])
}

/// What holds of a fleet throughout a run: every node's count goes with its
/// phase, and every rendezvous that a node was released from was complete.
pub open spec fn in_order(fleet: Seq<Node>) -> bool {
    forall|j: int|
        0 <= j < fleet.len() ==> (#[trigger] fleet[j]).counted() && all_arrived(
            fleet,
            fleet[j].released(),
        )
}

/// The work of a phase begins with a command: with no reply yet it stops and
/// asks. The one exception is the end of a server's run, where not every
/// server has something to save.
pub proof fn lemma_server_work_asks(server: ServerView, action: Action, phase: ServerPhase)
    requires
        phase == ServerPhase::StateReset || phase == ServerPhase::Starting || phase
            == ServerPhase::AwaitingReady || phase == ServerPhase::Running,
    ensures
        server.work(action, phase, Seq::empty()) matches Err(HaltView::Ask(_)),
{
}

pub proof fn lemma_client_work_asks(client: ClientView, job: ClientJob, phase: ClientPhase)
    requires
        phase == ClientPhase::CleanResults || phase == ClientPhase::Starting || phase
            == ClientPhase::Running,
    ensures
        client.work(job, phase, Seq::empty()) matches Err(HaltView::Ask(_)),
{
}

/// The phases that a server can go to in one turn, and the event that it
/// takes.
pub open spec fn server_moves(from: ServerPhase, event: Event, to: ServerPhase) -> bool {
    to == ServerPhase::Failed || match from {
        ServerPhase::Fresh => to == ServerPhase::StateReset && event is Begin,
        ServerPhase::StateReset => event is Reply && (to == ServerPhase::StateReset || to
            == ServerPhase::AwaitingBarrier1),
        ServerPhase::AwaitingBarrier1 => event is Released && to == ServerPhase::Starting,
        ServerPhase::Starting => event is Reply && (to == ServerPhase::Starting || to
            == ServerPhase::AwaitingReady),
        ServerPhase::AwaitingReady => event is Reply && (to == ServerPhase::AwaitingReady || to
            == ServerPhase::ReadyPause || to == ServerPhase::AwaitingBarrier2),
        ServerPhase::ReadyPause => event is Woke && to == ServerPhase::AwaitingReady,
        ServerPhase::AwaitingBarrier2 => event is Released && to == ServerPhase::Running,
        ServerPhase::Running => event is Reply && (to == ServerPhase::Running || to
            == ServerPhase::RunningPause),
        ServerPhase::RunningPause => event is Woke && to == ServerPhase::RunningStop,
        ServerPhase::RunningStop => event is Stop && (to == ServerPhase::Running || to
            == ServerPhase::Stopped || to == ServerPhase::Done),
        ServerPhase::Stopped => event is Reply && (to == ServerPhase::Stopped || to
            == ServerPhase::Done),
        ServerPhase::Done => to == ServerPhase::Done,
        ServerPhase::Failed => false,
    }
}

/// The phases that a client can go to in one turn, and the event that it
/// takes.
pub open spec fn client_moves(from: ClientPhase, event: Event, to: ClientPhase) -> bool {
    to == ClientPhase::Failed || match from {
        ClientPhase::Fresh => to == ClientPhase::CleanResults && event is Begin,
        ClientPhase::CleanResults => event is Reply && (to == ClientPhase::CleanResults || to
            == ClientPhase::AwaitingBarrier1),
        ClientPhase::AwaitingBarrier1 => event is Released && to == ClientPhase::AwaitingBarrier2,
        ClientPhase::AwaitingBarrier2 => event is Released && to == ClientPhase::Starting,
        ClientPhase::Starting => event is Reply && (to == ClientPhase::Starting || to
            == ClientPhase::Running),
        ClientPhase::Running => event is Reply && (to == ClientPhase::Running || to
            == ClientPhase::RunningPause || to == ClientPhase::Completed || to
            == ClientPhase::Done),
        ClientPhase::RunningPause => event is Woke && to == ClientPhase::Running,
        ClientPhase::Completed => event is Reply && (to == ClientPhase::Completed || to
            == ClientPhase::Done),
        ClientPhase::Done => to == ClientPhase::Done,
        ClientPhase::Failed => false,
    }
}

/// A server's machine goes from phase to phase only along `server_moves`.
pub proof fn lemma_server_moves(node: ServerNode, event: Event)
    ensures
        server_moves(node.phase, event, node.after(event).phase),
{
    let server = node.server;
    let action = node.action;
    lemma_server_work_asks(server, action, ServerPhase::StateReset);
    lemma_server_work_asks(server, action, ServerPhase::Starting);
    lemma_server_work_asks(server, action, ServerPhase::AwaitingReady);
    lemma_server_work_asks(server, action, ServerPhase::Running);
}

/// A client's machine goes from phase to phase only along `client_moves`.
pub proof fn lemma_client_moves(node: ClientNode, event: Event)
    ensures
        client_moves(node.phase, event, node.after(event).phase),
{
    let client = node.client;
    let job = node.job;
    lemma_client_work_asks(client, job, ClientPhase::CleanResults);
    lemma_client_work_asks(client, job, ClientPhase::Starting);
    lemma_client_work_asks(client, job, ClientPhase::Running);
}

impl Machine {
    /// Whether the machine is still at its preparation, or has not begun.
    pub open spec fn preparing(self) -> bool {
        match self {
            Machine::Server(node) => node.phase == ServerPhase::Fresh || node.phase
                == ServerPhase::StateReset,
            Machine::Client(node) => node.phase == ClientPhase::Fresh || node.phase
                == ClientPhase::CleanResults,
        }
    }

    /// Whether this is a server that has found itself ready and has come to
    /// the second rendezvous or further, or a server that has failed.
    pub open spec fn server_ready_or_failed(self) -> bool {
        self matches Machine::Server(node) && node.phase != ServerPhase::Fresh && node.phase
            != ServerPhase::StateReset && node.phase != ServerPhase::AwaitingBarrier1
            && node.phase != ServerPhase::Starting && node.phase != ServerPhase::AwaitingReady
            && node.phase != ServerPhase::ReadyPause
    }
}

proof fn lemma_arrivals_stay(before: Seq<Node>, after: Seq<Node>, i: int, event: Event, count: nat)
    requires
        turn(before, after, i, event),
        all_arrived(before, count),
    ensures
        all_arrived(after, count),
{
    assert forall|j: int| 0 <= j < after.len() implies (#[trigger] after[j]).arrived >= count by {
        assert(before[j].arrived >= count);
    }
}

/// One turn keeps the order of a fleet.
pub proof fn lemma_turn_keeps_order(before: Seq<Node>, after: Seq<Node>, i: int, event: Event)
    requires
        in_order(before),
        turn(before, after, i, event),
    ensures
        in_order(after),
{
    let old_node = before[i];
    let new_node = old_node.after(event);
    assert(old_node.counted() && all_arrived(before, old_node.released()));
    match old_node.machine {
        Machine::Server(node) => {
            lemma_server_moves(node, event);
        },
        Machine::Client(node) => {
            lemma_client_moves(node, event);
        },
    }
    assert(new_node.counted());
    if new_node.released() > old_node.released() {
        assert(event is Released);
        assert(new_node.released() == old_node.arrived);
        lemma_arrivals_stay(before, after, i, event, old_node.arrived);
    } else {
        lemma_arrivals_stay(before, after, i, event, old_node.released());
        assert(new_node.released() <= old_node.released());
    }
    assert(all_arrived(after, new_node.released()));
    assert forall|j: int| 0 <= j < after.len() implies (#[trigger] after[j]).counted()
        && all_arrived(after, after[j].released()) by {
        if j != i {
            assert(after[j] == before[j]);
            assert(before[j].counted() && all_arrived(before, before[j].released()));
            lemma_arrivals_stay(before, after, i, event, before[j].released());
        }
    }
}

/// Every fleet of a run is in order.
pub proof fn lemma_run_in_order(trace: Seq<Seq<Node>>, k: int)
    requires
        is_run(trace),
        0 <= k < trace.len(),
    ensures
        in_order(trace[k]),
    decreases k,
{
    if k == 0 {
        let fleet = trace[0];
        assert forall|j: int| 0 <= j < fleet.len() implies (#[trigger] fleet[j]).counted()
            && all_arrived(fleet, fleet[j].released()) by {
            assert(fleet[j].machine.fresh());
        }
    } else {
        lemma_run_in_order(trace, k - 1);
        assert(follows(trace[k - 1], trace[k]));
        let (i, event) = choose|i: int, event: Event|
            #[trigger] turn(trace[k - 1], trace[k], i, event);
        lemma_turn_keeps_order(trace[k - 1], trace[k], i, event);
    }
}

/// A run has two rendezvous and no more: no node ever comes to a third.
pub proof fn lemma_two_rendezvous(trace: Seq<Seq<Node>>, k: int, j: int)
    requires
        is_run(trace),
        0 <= k < trace.len(),
        0 <= j < trace[k].len(),
    ensures
        trace[k][j].arrived <= 2,
{
    lemma_run_in_order(trace, k);
    assert(trace[k][j].counted());
}

/// No server and no sequencer starts its program before every node of the
/// run has finished its preparation: in the turn of a run in which one of
/// them sends the command that starts it, every node has come to the first
/// rendezvous, and none is still preparing.
pub proof fn lemma_start_follows_preparation(
    trace: Seq<Seq<Node>>,
    k: int,
    i: int,
    event: Event,
)
    requires
        is_run(trace),
        0 <= k < trace.len() - 1,
        turn(trace[k], trace[k + 1], i, event),
        trace[k][i].machine.server_starts(event),
    ensures
        forall|j: int|
            0 <= j < trace[k].len() ==> (#[trigger] trace[k][j]).prepared()
                && !trace[k][j].machine.preparing(),
{
    lemma_run_in_order(trace, k);
    let fleet = trace[k];
    let node = fleet[i];
    assert(node.counted());
    match node.machine {
        Machine::Server(server) => {
            lemma_server_moves(server, event);
        },
        Machine::Client(_) => {},
    }
    assert(all_arrived(fleet, 1));
    assert forall|j: int| 0 <= j < fleet.len() implies (#[trigger] fleet[j]).prepared()
        && !fleet[j].machine.preparing() by {
        assert(fleet[j].arrived >= 1);
        assert(fleet[j].counted());
    }
}

/// No client starts its program before every server is ready: in the turn
/// of a run in which a client sends the command that starts it, every node
/// has come to the second rendezvous, and so every server and the sequencer
/// have found themselves ready, or have failed after that.
pub proof fn lemma_launch_follows_readiness(
    trace: Seq<Seq<Node>>,
    k: int,
    i: int,
    event: Event,
)
    requires
        is_run(trace),
        0 <= k < trace.len() - 1,
        turn(trace[k], trace[k + 1], i, event),
        trace[k][i].machine.client_launches(event),
    ensures
        forall|j: int|
            0 <= j < trace[k].len() ==> (#[trigger] trace[k][j]).ready() && (
            trace[k][j].machine is Server ==> trace[k][j].machine.server_ready_or_failed()),
{
    lemma_run_in_order(trace, k);
    let fleet = trace[k];
    let node = fleet[i];
    assert(node.counted());
    match node.machine {
        Machine::Client(client) => {
            lemma_client_moves(client, event);
        },
        Machine::Server(_) => {},
    }
    assert(all_arrived(fleet, 2));
    assert forall|j: int| 0 <= j < fleet.len() implies (#[trigger] fleet[j]).ready() && (
    fleet[j].machine is Server ==> fleet[j].machine.server_ready_or_failed()) by {
        assert(fleet[j].arrived >= 2);
        assert(fleet[j].counted());
    }
}

/// A round of the watch is short: a reply during the watch ends the round,
/// with a sleep or with a failure, or it is one of the first two replies of
/// the round. A round has at most three searches.
pub proof fn lemma_watch_round_is_short(node: ServerNode, reply: Reply)
    requires
        node.phase == ServerPhase::Running,
    ensures
        ({
            let then = node.after(Event::Reply(reply));
            ||| then.phase == ServerPhase::Failed
            ||| then.phase == ServerPhase::RunningPause && node.step(Event::Reply(reply))
                == StepView::Sleep(CHECKING_INTERVAL as int)
            ||| then.phase == ServerPhase::Running && then.answers == node.answers.push(reply)
                && then.answers.len() <= 2 && node.step(Event::Reply(reply)) is Run
        }),
{
}

/// After the sleep that ends a round of the watch the stop flag is read,
/// before anything else is done.
pub proof fn lemma_flag_is_read_after_sleep(node: ServerNode)
    requires
        node.phase == ServerPhase::RunningPause,
    ensures
        node.after(Event::Woke).phase == ServerPhase::RunningStop,
        node.step(Event::Woke) == StepView::ReadStop,
{
}

/// A server that reads the stop flag as set leaves the watch in that turn
/// and searches its log no more: it reports that it is done, or, after a
/// loading run and if it has a database, it first sends the command that
/// saves the database.
pub proof fn lemma_stop_ends_watch(node: ServerNode)
    requires
        node.phase == ServerPhase::RunningStop,
    ensures
        ({
            let then = node.after(Event::Stop(Ok(true)));
            let step = node.step(Event::Stop(Ok(true)));
            if node.action == Action::Loading && !node.server.is_sequencer {
                then.phase == ServerPhase::Stopped && step == StepView::Run(
                    node.server.shell(
                        "cp -r "@ + node.server.db_path() + " "@ + node.server.backup_db_path(),
                    ),
                )
            } else {
                then.phase == ServerPhase::Done && step == StepView::Report(
                    ThreadResult::ServerSucceed,
                )
            }
        }),
{
}

/// A server that reads the stop flag as not set begins the next round of
/// the watch.
pub proof fn lemma_no_stop_next_round(node: ServerNode)
    requires
        node.phase == ServerPhase::RunningStop,
    ensures
        node.after(Event::Stop(Ok(false))).phase == ServerPhase::Running,
        node.after(Event::Stop(Ok(false))).answers == Seq::<Reply>::empty(),
        node.step(Event::Stop(Ok(false))) is Run,
{
    lemma_server_work_asks(node.server, node.action, ServerPhase::Running);
}

/// Whether a search came back empty.
pub open spec fn nothing_found(reply: Reply) -> bool {
    probed(reply) == ProbeView::NotFound
}

/// The whole of a round of the watch with the stop flag set: a server that
/// begins a round finds nothing in three searches, sleeps once, reads the
/// flag as set and is out of the watch. No further search follows.
pub proof fn lemma_one_round_then_out(node: ServerNode, first: Reply, second: Reply, third: Reply)
    requires
        node.phase == ServerPhase::Running,
        node.answers == Seq::<Reply>::empty(),
        nothing_found(first),
        nothing_found(second),
        nothing_found(third),
    ensures
        ({
            let asleep = node.after(Event::Reply(first)).after(Event::Reply(second)).after(
                Event::Reply(third),
            );
            let out = asleep.after(Event::Woke).after(Event::Stop(Ok(true)));
            &&& asleep.phase == ServerPhase::RunningPause
            &&& asleep.after(Event::Woke).phase == ServerPhase::RunningStop
            &&& out.phase == ServerPhase::Stopped || out.phase == ServerPhase::Done
            &&& !(asleep.after(Event::Woke).step(Event::Stop(Ok(true))) is Sleep)
        }),
{
    let one = node.after(Event::Reply(first));
    assert(node.answers.push(first) =~= seq![first]);
    assert(one.phase == ServerPhase::Running && one.answers == seq![first]);
    let two = one.after(Event::Reply(second));
    assert(one.answers.push(second) =~= seq![first, second]);
    assert(two.phase == ServerPhase::Running && two.answers == seq![first, second]);
    let asleep = two.after(Event::Reply(third));
    assert(two.answers.push(third) =~= seq![first, second, third]);
    assert(asleep.phase == ServerPhase::RunningPause);
    lemma_flag_is_read_after_sleep(asleep);
    lemma_stop_ends_watch(asleep.after(Event::Woke));
}

} // verus!

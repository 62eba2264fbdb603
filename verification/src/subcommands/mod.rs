//! What the commands of the bencher do before and around the threads of a
//! run.

pub mod all_execute;
pub mod benchmark;
pub mod init_env;
pub mod load;
pub mod pull;
pub mod timeline;

use vstd::prelude::*;
use vstd::string::*;
use crate::command::{Reply, Request, RequestView};
use crate::config::Config;
use crate::connections::throughput::ResultFormat;
use crate::connections::{plan, Action, ConnectionInfo, ConnectionView, INIT_PORT};
use crate::error::{BenchError, ErrorView};
use crate::parameters::{bencher_value, cannot_find, Files, Parameter};
use crate::preparation::{prepare_bench_dir, prepared, remote_prop_dir};
use crate::properties::{vm_args, PropertiesFileMap};
use crate::replay::{command_step, halt_view, Halt, HaltView, Tape};
use crate::text::{parse_unsigned, parse_usize};
use crate::threads::client::dir_view;
use crate::threads::orchestrator::{is_set_up, run_in_threads, Run};

verus! {

/// The number that the bencher's own parameters give `key`.
pub open spec fn count_of(files: Files, key: Seq<char>) -> Result<nat, ErrorView> {
    match bencher_value(files, key, 0) {
        None => Err(cannot_find(key)),
        Some(text) => match parse_unsigned(text, usize::MAX as nat) {
            Some(n) => Ok(n),
            None => Err(ErrorView::ParseIntError(text)),
        },
    }
}

/// A number, or the failure to read one, as plain values.
pub open spec fn count_view(count: Result<usize, BenchError>) -> Result<nat, ErrorView> {
    match count {
        Ok(n) => Ok(n as nat),
        Err(error) => Err(error@),
    }
}

/// Reads the number that the bencher's own parameters give `key`. It is a
/// failure if they give none, or something that is no number.
pub fn bencher_count(parameter: &Parameter, key: &str) -> (count: Result<usize, BenchError>)
    ensures
        count_view(count) == count_of(parameter@, key@),
{
    let text = parameter.get_autobencher_param(key)?;
    match parse_usize(text) {
        Some(n) => Ok(n),
        None => Err(BenchError::ParseIntError(String::from_str(text))),
    }
}

/// The nodes of a run: the sequencer if there is one, the servers, the
/// clients.
pub struct NodesView {
    pub sequencer: Option<ConnectionView>,
    pub servers: Seq<ConnectionView>,
    pub clients: Seq<ConnectionView>,
}

/// What is said when a machine would have to take more nodes than there
/// are ports.
pub open spec fn too_many_per_machine() -> ErrorView {
    ErrorView::Message("The number of nodes per machine is too large."@)
}

/// The names of machines as plain values.
pub open spec fn names(list: Seq<String>) -> Seq<Seq<char>> {
    list.map_values(|name: String| name@)
}

/// The sequencer's node: it has the number behind the last server's and
/// the first port.
pub open spec fn sequencer_node(machine: Option<String>, server_count: nat) -> Option<
    ConnectionView,
> {
    match machine {
        Some(ip) => Some(ConnectionView { id: server_count as int, ip: ip@, port: INIT_PORT as int }),
        None => None,
    }
}

/// How many clients a run has: one for loading, whatever the number of
/// servers, and as many as planned for benchmarking.
pub open spec fn clients_wanted(action: Action, client_count: nat) -> nat {
    match action {
        Action::Loading => 1,
        Action::Benchmarking => client_count,
    }
}

/// The nodes of a run with `client_count` clients planned. The bencher's
/// parameters give the number of servers and how many servers and how many
/// clients a machine may take; the first of these that is missing or no
/// number is the failure, then a number per machine that leaves no port,
/// then servers that do not fit, then clients that do not fit.
pub open spec fn nodes_of(config: Config, files: Files, action: Action, client_count: nat) -> Result<
    NodesView,
    ErrorView,
> {
    match count_of(files, "server_count"@) {
        Err(error) => Err(error),
        Ok(server_count) => match count_of(files, "max_server_per_machine"@) {
            Err(error) => Err(error),
            Ok(max_server) => match count_of(files, "max_client_per_machine"@) {
                Err(error) => Err(error),
                Ok(max_client) => if INIT_PORT + max_server > usize::MAX || INIT_PORT
                    + max_client > usize::MAX {
                    Err(too_many_per_machine())
                } else {
                    match plan(names(config.machines.servers@), server_count, max_server) {
                        Err(error) => Err(error),
                        Ok(servers) => match plan(
                            names(config.machines.clients@),
                            clients_wanted(action, client_count),
                            max_client,
                        ) {
                            Err(error) => Err(error),
                            Ok(clients) => Ok(
                                NodesView {
                                    sequencer: sequencer_node(
                                        config.machines.sequencer,
                                        server_count,
                                    ),
                                    servers,
                                    clients,
                                },
                            ),
                        },
                    }
                },
            },
        },
    }
}

/// The sequencer as plain values.
pub open spec fn node_view(node: Option<ConnectionInfo>) -> Option<ConnectionView> {
    match node {
        Some(info) => Some(info@),
        None => None,
    }
}

/// The nodes of a run, or the failure to place them, as plain values.
pub open spec fn nodes_view(
    nodes: Result<(Option<ConnectionInfo>, Vec<ConnectionInfo>, Vec<ConnectionInfo>), BenchError>,
) -> Result<NodesView, ErrorView> {
    match nodes {
        Ok((sequencer, servers, clients)) => Ok(
            NodesView {
                sequencer: node_view(sequencer),
                servers: servers.deep_view(),
                clients: clients.deep_view(),
            },
        ),
        Err(error) => Err(error@),
    }
}

/// Places the nodes of a run on the machines of the settings.
/// `client_count` is the number of clients that a benchmarking run is to
/// have.
pub fn generate_connection_list(
    config: &Config,
    parameter: &Parameter,
    action: Action,
    client_count: usize,
) -> (nodes: Result<(Option<ConnectionInfo>, Vec<ConnectionInfo>, Vec<ConnectionInfo>), BenchError>)
    ensures
        nodes_view(nodes) == nodes_of(*config, parameter@, action, client_count as nat),
{
    let server_count = bencher_count(parameter, "server_count")?;
    let max_server_per_machine = bencher_count(parameter, "max_server_per_machine")?;
    let max_client_per_machine = bencher_count(parameter, "max_client_per_machine")?;
    if max_server_per_machine > usize::MAX - INIT_PORT || max_client_per_machine > usize::MAX
        - INIT_PORT {
        return Err(
            BenchError::Message(String::from_str("The number of nodes per machine is too large.")),
        );
    }
    let sequencer = match &config.machines.sequencer {
        Some(seq_ip) => Some(ConnectionInfo { id: server_count, ip: seq_ip.clone(), port: 30000 }),
        None => None,
    };
    proof {
        assert(config.machines.servers.deep_view() =~= names(config.machines.servers@));
        assert(config.machines.clients.deep_view() =~= names(config.machines.clients@));
    }
    let server_list = ConnectionInfo::generate_connection_list(
        &config.machines.servers,
        server_count,
        max_server_per_machine,
    )?;
    let client_list = if let Action::Loading = action {
        ConnectionInfo::generate_connection_list(
            &config.machines.clients,
            1,
            max_client_per_machine,
        )?
    } else {
        ConnectionInfo::generate_connection_list(
            &config.machines.clients,
            client_count,
            max_client_per_machine,
        )?
    };
    Ok((sequencer, server_list, client_list))
}

/// The command that ends what is left of an earlier run on a machine.
pub open spec fn kill_request(user_name: Seq<char>, ip: Seq<char>) -> RequestView {
    RequestView::Ssh { user_name, ip, remote_cmd: "pkill -f benchmarker"@ }
}

/// Ends the benchmarker's processes on the machine of a node. That none
/// ran there is no failure.
pub fn kill_benchmarker(config: &Config, machine: &ConnectionInfo, tape: &mut Tape) -> (killed: Result<
    (),
    Halt,
>)
    ensures
        final(tape).replies == old(tape).replies,
        (halt_view(killed), final(tape).next as int) == command_step(
            old(tape).replies@,
            old(tape).next as int,
            kill_request(config.system.user_name@, machine.ip@),
            true,
        ),
{
    let request = Request::Ssh {
        user_name: config.system.user_name.clone(),
        ip: machine.ip.clone(),
        remote_cmd: String::from_str("pkill -f benchmarker"),
    };
    tape.command(request, true)
}

/// The benchmarker's processes are ended on the machine of every node of
/// the list, node by node, up to the first failure.
pub open spec fn all_killed(
    user_name: Seq<char>,
    nodes: Seq<ConnectionInfo>,
    replies: Seq<Reply>,
    at: int,
) -> (Result<(), HaltView>, int)
    decreases nodes.len(),
{
    if nodes.len() == 0 {
        (Ok(()), at)
    } else {
        let before = all_killed(user_name, nodes.drop_last(), replies, at);
        if before.0 is Err {
            before
        } else {
            command_step(replies, before.1, kill_request(user_name, nodes.last().ip@), true)
        }
    }
}

fn kill_all(config: &Config, nodes: &Vec<ConnectionInfo>, tape: &mut Tape) -> (killed: Result<
    (),
    Halt,
>)
    ensures
        final(tape).replies == old(tape).replies,
        (halt_view(killed), final(tape).next as int) == all_killed(
            config.system.user_name@,
            nodes@,
            old(tape).replies@,
            old(tape).next as int,
        ),
{
    let ghost start = tape.next as int;
    let ghost user = config.system.user_name@;
    let mut i: usize = 0;
    while i < nodes.len()
        invariant
            tape.replies == old(tape).replies,
            user == config.system.user_name@,
            start == old(tape).next,
            i <= nodes@.len(),
            (Ok::<(), HaltView>(()), tape.next as int) == all_killed(
                user,
                nodes@.take(i as int),
                tape.replies@,
                start,
            ),
        decreases nodes@.len() - i,
    {
        proof {
            assert(nodes@.take(i + 1).drop_last() =~= nodes@.take(i as int));
            assert(nodes@.take(i + 1).last() == nodes@[i as int]);
        }
        match kill_benchmarker(config, &nodes[i], tape) {
            Ok(()) => {},
            Err(halt) => {
                proof {
                    assert(all_killed(user, nodes@.take(i + 1), tape.replies@, start).0 is Err);
                    lemma_kill_stops(user, nodes@, tape.replies@, start, i + 1);
                }
                return Err(halt);
            },
        }
        i += 1;
    }
    assert(nodes@.take(i as int) =~= nodes@);
    Ok(())
}

/// Where ending the processes stops at one node, it stays stopped there for
/// every longer list.
proof fn lemma_kill_stops(
    user_name: Seq<char>,
    nodes: Seq<ConnectionInfo>,
    replies: Seq<Reply>,
    at: int,
    upto: int,
)
    requires
        0 <= upto <= nodes.len(),
        all_killed(user_name, nodes.take(upto), replies, at).0 is Err,
    ensures
        all_killed(user_name, nodes, replies, at) == all_killed(
            user_name,
            nodes.take(upto),
            replies,
            at,
        ),
    decreases nodes.len() - upto,
{
    if upto < nodes.len() {
        assert(nodes.drop_last().take(upto) =~= nodes.take(upto));
        lemma_kill_stops(user_name, nodes.drop_last(), replies, at, upto);
    } else {
        assert(nodes.take(upto) =~= nodes);
    }
}

/// What is said when a run would have more threads than can be counted.
pub open spec fn too_many_nodes() -> ErrorView {
    ErrorView::Message("The run has too many nodes."@)
}

/// The sequencer as a list.
pub open spec fn sequencer_list(sequencer: Option<ConnectionInfo>) -> Seq<ConnectionInfo> {
    match sequencer {
        Some(node) => seq![node],
        None => Seq::empty(),
    }
}

/// Sets a run up.
///
/// The nodes are placed, the properties files of the job are made in `map`,
/// and what is left of an earlier run is ended on the machine of every node:
/// the sequencer's first, then the servers', then the clients'. Then the
/// threads of the run stand ready, with the arguments that tell them where
/// the properties files lie.
pub fn run(
    config: &Config,
    parameter: &Parameter,
    db_name: &str,
    action: Action,
    report_dir: Option<String>,
    client_count: usize,
    format: &ResultFormat,
    map: &mut PropertiesFileMap,
    tape: &mut Tape,
) -> (set_up: Result<Run, Halt>)
    ensures
        final(tape).replies == old(tape).replies,
        match nodes_of(*config, parameter@, action, client_count as nat) {
            Err(error) => set_up matches Err(halt) && halt@ == HaltView::Fail(error)
                && final(map)@ == old(map)@,
            Ok(nodes) => exists|
                sequencer: Option<ConnectionInfo>,
                servers: Seq<ConnectionInfo>,
                clients: Seq<ConnectionInfo>,
            |
                {
                    &&& node_view(sequencer) == nodes.sequencer
                    &&& servers.map_values(|node: ConnectionInfo| node@) == nodes.servers
                    &&& clients.map_values(|node: ConnectionInfo| node@) == nodes.clients
                    &&& final(map)@ == prepared(
                        *config,
                        parameter@,
                        old(map)@,
                        sequencer,
                        nodes.servers,
                        nodes.clients,
                    )
                    &&& #[trigger] run_after_kills(
                        set_up,
                        *config,
                        db_name@,
                        action,
                        dir_view(report_dir),
                        vm_args(final(map)@, remote_prop_dir(config.system.remote_work_dir@)),
                        *format,
                        sequencer,
                        servers,
                        clients,
                        old(tape).replies@,
                        old(tape).next as int,
                    )
                },
        },
{
    // Generate connection information (ip, port)
    let (sequencer, server_list, client_list) = match generate_connection_list(
        config,
        parameter,
        action,
        client_count,
    ) {
        Ok(nodes) => nodes,
        Err(error) => { return Err(Halt::Fail(error)); },
    };
    // Prepare the bench dir
    let vm_args = match prepare_bench_dir(
        config,
        parameter,
        map,
        &sequencer,
        &server_list,
        &client_list,
    ) {
        Ok(args) => args,
        Err(error) => { return Err(Halt::Fail(error)); },
    };
    proof {
        assert(server_list@.map_values(|node: ConnectionInfo| node@) =~= server_list.deep_view());
        assert(client_list@.map_values(|node: ConnectionInfo| node@) =~= client_list.deep_view());
    }
    let ghost witness = (sequencer, server_list@, client_list@);
    let outcome = finish_run(
        config,
        db_name,
        action,
        report_dir,
        vm_args.as_str(),
        format,
        sequencer,
        server_list,
        client_list,
        tape,
    );
    proof {
        assert(run_after_kills(
            outcome,
            *config,
            db_name@,
            action,
            dir_view(report_dir),
            vm_args@,
            *format,
            witness.0,
            witness.1,
            witness.2,
            old(tape).replies@,
            old(tape).next as int,
        ));
    }
    outcome
}

/// Whether `set_up` is what comes after the nodes are placed: the stop at
/// the first command that is still to be answered or that failed; or a
/// failure if the threads are too many to count; or the run with its
/// threads.
pub open spec fn run_after_kills(
    set_up: Result<Run, Halt>,
    config: Config,
    db_name: Seq<char>,
    action: Action,
    report_dir: Option<Seq<char>>,
    vm_args: Seq<char>,
    format: ResultFormat,
    sequencer: Option<ConnectionInfo>,
    servers: Seq<ConnectionInfo>,
    clients: Seq<ConnectionInfo>,
    replies: Seq<Reply>,
    at: int,
) -> bool {
    let user = config.system.user_name@;
    let first = all_killed(user, sequencer_list(sequencer), replies, at);
    let second = all_killed(user, servers, replies, first.1);
    let third = all_killed(user, clients, replies, second.1);
    match (first.0, second.0, third.0) {
        (Err(halt), _, _) => set_up matches Err(stop) && stop@ == halt,
        (_, Err(halt), _) => set_up matches Err(stop) && stop@ == halt,
        (_, _, Err(halt)) => set_up matches Err(stop) && stop@ == halt,
        _ => if servers.len() + clients.len() + 1 > usize::MAX {
            set_up matches Err(stop) && stop@ == HaltView::Fail(too_many_nodes())
        } else {
            set_up matches Ok(run) && is_set_up(
                run,
                config,
                db_name,
                action,
                report_dir,
                vm_args,
                format,
                sequencer,
                servers,
                clients,
            )
        },
    }
}

fn finish_run(
    config: &Config,
    db_name: &str,
    action: Action,
    report_dir: Option<String>,
    vm_args: &str,
    format: &ResultFormat,
    sequencer: Option<ConnectionInfo>,
    server_list: Vec<ConnectionInfo>,
    client_list: Vec<ConnectionInfo>,
    tape: &mut Tape,
) -> (set_up: Result<Run, Halt>)
    ensures
        final(tape).replies == old(tape).replies,
        run_after_kills(
            set_up,
            *config,
            db_name@,
            action,
            dir_view(report_dir),
            vm_args@,
            *format,
            sequencer,
            server_list@,
            client_list@,
            old(tape).replies@,
            old(tape).next as int,
        ),
{
    let ghost user = config.system.user_name@;
    let ghost replies = tape.replies@;
    let ghost at = tape.next as int;
    let ghost first = all_killed(user, sequencer_list(sequencer), replies, at);
    proof {
        let none = Seq::<ConnectionInfo>::empty();
        assert(all_killed(user, none, replies, at) == (Ok::<(), HaltView>(()), at));
        if sequencer is Some {
            assert(sequencer_list(sequencer).drop_last() =~= none);
            assert(sequencer_list(sequencer).last() == sequencer->0);
        }
    }
    if let Some(seq) = &sequencer {
        match kill_benchmarker(config, seq, tape) {
            Ok(()) => {},
            Err(halt) => {
                assert(first.0 == Err::<(), HaltView>(halt@));
                return Err(halt);
            },
        }
    }
    assert(first == (Ok::<(), HaltView>(()), tape.next as int));
    let ghost second = all_killed(user, server_list@, replies, first.1);
    match kill_all(config, &server_list, tape) {
        Ok(()) => {},
        Err(halt) => {
            assert(second.0 == Err::<(), HaltView>(halt@));
            return Err(halt);
        },
    }
    assert(second == (Ok::<(), HaltView>(()), tape.next as int));
    let ghost third = all_killed(user, client_list@, replies, second.1);
    match kill_all(config, &client_list, tape) {
        Ok(()) => {},
        Err(halt) => {
            assert(third.0 == Err::<(), HaltView>(halt@));
            return Err(halt);
        },
    }
    assert(third.0 is Ok);
    let servers_and_clients = match server_list.len().checked_add(client_list.len()) {
        Some(n) => n,
        None => {
            return Err(
                Halt::Fail(BenchError::Message(String::from_str("The run has too many nodes."))),
            );
        },
    };
    if servers_and_clients == usize::MAX {
        return Err(Halt::Fail(BenchError::Message(String::from_str("The run has too many nodes."))));
    }
    Ok(
        run_in_threads(
            config,
            db_name,
            action,
            report_dir,
            vm_args,
            format,
            sequencer,
            server_list,
            client_list,
        ),
    )
}

} // verus!

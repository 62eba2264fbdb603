//! What is put into the benchmarker's directory before a run: the jars and
//! the properties of the job.

use vstd::prelude::*;
use vstd::string::*;
use crate::command::{Reply, Request, RequestView};
use crate::config::Config;
use crate::connections::{ConnectionInfo, ConnectionView};
use crate::error::BenchError;
use crate::parameters::{overridden, Parameter};
use crate::properties::{files_set, vm_args, PropertiesFileMap, PropertiesFileView};
use crate::replay::{command_step, halt_view, Halt, HaltView, Tape};
use crate::text::{decimal, usize_to_string};

verus! {

/// Where in the directory `dir_name` of jars the jar called `filename`
/// lies.
pub open spec fn jar_path(dir_name: Seq<char>, filename: Seq<char>) -> Seq<char> {
    "jars/"@ + dir_name + "/"@ + filename
}

/// One jar is looked up and then copied into the benchmarker's directory.
pub open spec fn jar_copied(dir_name: Seq<char>, filename: Seq<char>, replies: Seq<Reply>, at: int) -> (
    Result<(), HaltView>,
    int,
) {
    let path = jar_path(dir_name, filename);
    let listed = command_step(replies, at, RequestView::Ls { path }, false);
    if listed.0 is Err {
        listed
    } else {
        command_step(
            replies,
            listed.1,
            RequestView::Cp { is_dir: false, source: path, dest: "benchmarker"@ },
            false,
        )
    }
}

/// The jar of the servers and then the jar of the clients are copied.
pub open spec fn jars_copied(dir_name: Seq<char>, replies: Seq<Reply>, at: int) -> (
    Result<(), HaltView>,
    int,
) {
    let server = jar_copied(dir_name, "server.jar"@, replies, at);
    if server.0 is Err {
        server
    } else {
        jar_copied(dir_name, "client.jar"@, replies, server.1)
    }
}

fn copy_jar(dir_name: &str, filename: &str, tape: &mut Tape) -> (copied: Result<(), Halt>)
    ensures
        final(tape).replies == old(tape).replies,
        (halt_view(copied), final(tape).next as int) == jar_copied(
            dir_name@,
            filename@,
            old(tape).replies@,
            old(tape).next as int,
        ),
{
    let mut path = String::from_str("jars/");
    path.append(dir_name);
    path.append("/");
    path.append(filename);
    // Check if the jar exists
    tape.command(Request::Ls { path: path.clone() }, false)?;
    // Copy it to the benchmarker directory
    tape.command(
        Request::Cp { is_dir: false, source: path, dest: String::from_str("benchmarker") },
        false,
    )
}

/// Copies the two jars of the directory `dir_name` into the benchmarker's
/// directory, each after a look whether it is there.
pub fn copy_jars(dir_name: &str, tape: &mut Tape) -> (copied: Result<(), Halt>)
    ensures
        final(tape).replies == old(tape).replies,
        (halt_view(copied), final(tape).next as int) == jars_copied(
            dir_name@,
            old(tape).replies@,
            old(tape).next as int,
        ),
{
    copy_jar(dir_name, "server.jar", tape)?;
    copy_jar(dir_name, "client.jar", tape)
}

/// The properties files with the two directories of a machine set: where
/// the databases lie and where the results go.
pub open spec fn paths_set(work_dir: Seq<char>, map: Seq<PropertiesFileView>) -> Seq<
    PropertiesFileView,
> {
    files_set(
        files_set(
            map,
            "vanilladb"@,
            "org.vanilladb.core.storage.file.FileMgr.DB_FILES_DIR"@,
            work_dir + "/databases"@,
        ),
        "vanillabench"@,
        "org.vanilladb.bench.StatisticMgr.OUTPUT_DIR"@,
        work_dir + "/results"@,
    )
}

pub fn set_paths(config: &Config, map: &mut PropertiesFileMap)
    ensures
        final(map)@ == paths_set(config.system.remote_work_dir@, old(map)@),
{
    let mut databases = config.system.remote_work_dir.clone();
    databases.append("/databases");
    map.set(
        "vanilladb",
        "org.vanilladb.core.storage.file.FileMgr.DB_FILES_DIR",
        databases.as_str(),
    );
    let mut results = config.system.remote_work_dir.clone();
    results.append("/results");
    map.set("vanillabench", "org.vanilladb.bench.StatisticMgr.OUTPUT_DIR", results.as_str());
}

/// The nodes as the entries of a process view. Every node but the one with
/// the number zero has a comma and a blank before it.
pub open spec fn process_view(nodes: Seq<ConnectionView>) -> Seq<char>
    decreases nodes.len(),
{
    if nodes.len() == 0 {
        Seq::empty()
    } else {
        process_view(nodes.drop_last()) + if nodes.last().id > 0 {
            ", "@
        } else {
            Seq::empty()
        } + nodes.last().entry()
    }
}

/// The view of the servers: the servers, and behind them, after a comma,
/// the sequencer if there is one.
pub open spec fn server_view(sequencer: Option<ConnectionInfo>, servers: Seq<ConnectionView>) -> Seq<
    char,
> {
    match sequencer {
        Some(node) => process_view(servers) + ", "@ + node@.entry(),
        None => process_view(servers),
    }
}

/// The properties files with the nodes of the run set: the view of the
/// servers, the view of the clients, and whether a sequencer stands alone.
pub open spec fn connections_set(
    map: Seq<PropertiesFileView>,
    sequencer: Option<ConnectionInfo>,
    servers: Seq<ConnectionView>,
    clients: Seq<ConnectionView>,
) -> Seq<PropertiesFileView> {
    files_set(
        files_set(
            files_set(
                map,
                "vanillacomm"@,
                "org.vanilladb.comm.view.ProcessView.SERVER_VIEW"@,
                server_view(sequencer, servers),
            ),
            "vanillacomm"@,
            "org.vanilladb.comm.view.ProcessView.CLIENT_VIEW"@,
            process_view(clients),
        ),
        "vanillacomm"@,
        "org.vanilladb.comm.ProcessView.STAND_ALONE_SEQUENCER"@,
        if sequencer is Some {
            "true"@
        } else {
            "false"@
        },
    )
}

fn process_view_text(nodes: &Vec<ConnectionInfo>) -> (text: String)
    ensures
        text@ == process_view(nodes.deep_view()),
{
    let ghost all = nodes.deep_view();
    let mut text = String::new();
    let mut i: usize = 0;
    while i < nodes.len()
        invariant
            all == nodes.deep_view(),
            i <= nodes@.len(),
            text@ == process_view(all.take(i as int)),
        decreases nodes@.len() - i,
    {
        proof {
            assert(all.take(i + 1).drop_last() =~= all.take(i as int));
            assert(all.take(i + 1).last() == nodes@[i as int]@);
        }
        let ghost before = text@;
        if nodes[i].id > 0 {
            text.append(", ");
        }
        let entry = nodes[i].to_string();
        text.append(entry.as_str());
        assert(text@ =~= process_view(all.take(i + 1)));
        i += 1;
    }
    assert(all.take(i as int) =~= all);
    text
}

pub fn set_connection_properties(
    map: &mut PropertiesFileMap,
    sequencer: &Option<ConnectionInfo>,
    server_list: &Vec<ConnectionInfo>,
    client_list: &Vec<ConnectionInfo>,
) -> (set: Result<(), BenchError>)
    ensures
        set is Ok,
        final(map)@ == connections_set(
            old(map)@,
            *sequencer,
            server_list.deep_view(),
            client_list.deep_view(),
        ),
{
    // Set server view
    let mut server_view = process_view_text(server_list);
    if let Some(seq_info) = sequencer {
        server_view.append(", ");
        let entry = seq_info.to_string();
        server_view.append(entry.as_str());
    }
    map.set(
        "vanillacomm",
        "org.vanilladb.comm.view.ProcessView.SERVER_VIEW",
        server_view.as_str(),
    );
    // Set client view
    let client_view = process_view_text(client_list);
    map.set(
        "vanillacomm",
        "org.vanilladb.comm.view.ProcessView.CLIENT_VIEW",
        client_view.as_str(),
    );
    // Set stand alone sequencer
    if sequencer.is_some() {
        map.set("vanillacomm", "org.vanilladb.comm.ProcessView.STAND_ALONE_SEQUENCER", "true");
    } else {
        map.set("vanillacomm", "org.vanilladb.comm.ProcessView.STAND_ALONE_SEQUENCER", "false");
    }
    Ok(())
}

/// The properties files with the number of partitions set to the number of
/// servers.
pub open spec fn elasql_set(map: Seq<PropertiesFileView>, server_count: nat) -> Seq<
    PropertiesFileView,
> {
    files_set(
        map,
        "elasql"@,
        "org.elasql.storage.metadata.PartitionMetaMgr.NUM_PARTITIONS"@,
        decimal(server_count),
    )
}

pub fn set_elasql_properties(map: &mut PropertiesFileMap, server_count: usize)
    ensures
        final(map)@ == elasql_set(old(map)@, server_count as nat),
{
    let count = usize_to_string(server_count);
    map.set(
        "elasql",
        "org.elasql.storage.metadata.PartitionMetaMgr.NUM_PARTITIONS",
        count.as_str(),
    );
}

/// The properties files of a job: the parameters of the job are set, then
/// the paths, then the nodes, then the number of partitions.
pub open spec fn prepared(
    config: Config,
    parameter: crate::parameters::Files,
    map: Seq<PropertiesFileView>,
    sequencer: Option<ConnectionInfo>,
    servers: Seq<ConnectionView>,
    clients: Seq<ConnectionView>,
) -> Seq<PropertiesFileView> {
    elasql_set(
        connections_set(
            paths_set(config.system.remote_work_dir@, overridden(parameter, map)),
            sequencer,
            servers,
            clients,
        ),
        servers.len(),
    )
}

/// Where the properties files lie on a machine.
pub open spec fn remote_prop_dir(work_dir: Seq<char>) -> Seq<char> {
    work_dir + "/benchmarker/props"@
}

/// Makes the properties files of a job out of the default ones, and gives
/// the arguments that tell a program on a remote machine where they lie.
pub fn prepare_bench_dir(
    config: &Config,
    parameter: &Parameter,
    map: &mut PropertiesFileMap,
    sequencer: &Option<ConnectionInfo>,
    server_list: &Vec<ConnectionInfo>,
    client_list: &Vec<ConnectionInfo>,
) -> (args: Result<String, BenchError>)
    ensures
        final(map)@ == prepared(
            *config,
            parameter@,
            old(map)@,
            *sequencer,
            server_list.deep_view(),
            client_list.deep_view(),
        ),
        args matches Ok(text) && text@ == vm_args(
            final(map)@,
            remote_prop_dir(config.system.remote_work_dir@),
        ),
{
    // Apply the parameters
    parameter.override_properties(map);
    set_paths(config, map);
    set_connection_properties(map, sequencer, server_list, client_list)?;
    set_elasql_properties(map, server_list.len());
    let mut remote_prop_dir_path = config.system.remote_work_dir.clone();
    remote_prop_dir_path.append("/benchmarker/props");
    map.get_vm_args(remote_prop_dir_path.as_str())
}

} // verus!

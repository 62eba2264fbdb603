//! Making the machines ready for the benchmarker: a working directory and a
//! Java runtime on each.

use vstd::prelude::*;
use vstd::string::*;
use crate::command::{Reply, Request, RequestView};
use crate::config::Config;
use crate::error::{BenchError, ErrorView};
use crate::replay::{command_step, halt_view, Halt, HaltView, Tape};

verus! {

/// A shell command of the settings' account on the machine `ip`.
pub open spec fn shell(config: Config, ip: Seq<char>, remote_cmd: Seq<char>) -> RequestView {
    RequestView::Ssh { user_name: config.system.user_name@, ip, remote_cmd }
}

/// A question, or the stop before its answer, as plain values.
pub open spec fn answer_view(result: Result<bool, Halt>) -> Result<bool, HaltView> {
    match result {
        Ok(answer) => Ok(answer),
        Err(halt) => Err(halt@),
    }
}

/// What is said when the package of the JDK is not on this machine.
pub open spec fn no_jdk(config: Config) -> ErrorView {
    ErrorView::Message("cannot find the JDK at "@ + config.jdk.package_path@)
}

/// Whether the package of the JDK lies on this machine: it is listed. A
/// file that is not found is the answer no; any other failure is a failure.
pub open spec fn local_jdk_checked(config: Config, replies: Seq<Reply>, at: int) -> (
    Result<bool, HaltView>,
    int,
) {
    if 0 <= at < replies.len() {
        (
            match replies[at] {
                Ok(_) => Ok(true),
                Err(BenchError::FileNotFound(_)) => Ok(false),
                Err(error) => Err(HaltView::Fail(error@)),
            },
            at + 1,
        )
    } else {
        (Err(HaltView::Ask(RequestView::Ls { path: config.jdk.package_path@ })), at)
    }
}

/// Whether the working directory is on the machine: it is listed there, and
/// code 2 from the machine is the answer no.
pub open spec fn working_dir_checked(config: Config, ip: Seq<char>, replies: Seq<Reply>, at: int) -> (
    Result<bool, HaltView>,
    int,
) {
    if 0 <= at < replies.len() {
        (
            match replies[at] {
                Ok(_) => Ok(true),
                Err(error) => if error@.is_remote_exit(2) {
                    Ok(false)
                } else {
                    Err(HaltView::Fail(error@))
                },
            },
            at + 1,
        )
    } else {
        (Err(HaltView::Ask(shell(config, ip, "ls -l "@ + config.system.remote_work_dir@))), at)
    }
}

/// The two directories of the working directory are made, the one for the
/// databases first.
pub open spec fn working_dir_created(config: Config, ip: Seq<char>, replies: Seq<Reply>, at: int) -> (
    Result<(), HaltView>,
    int,
) {
    let work = config.system.remote_work_dir@;
    let databases = command_step(
        replies,
        at,
        shell(config, ip, "mkdir -p "@ + work + "/databases"@),
        false,
    );
    if databases.0 is Err {
        databases
    } else {
        command_step(
            replies,
            databases.1,
            shell(config, ip, "mkdir -p "@ + work + "/results"@),
            false,
        )
    }
}

/// Whether Java runs on the machine: it is asked for its version. A command
/// that this machine does not have is the answer no; any other failure is a
/// failure.
pub open spec fn java_runtime_checked(
    config: Config,
    ip: Seq<char>,
    replies: Seq<Reply>,
    at: int,
) -> (Result<bool, HaltView>, int) {
    if 0 <= at < replies.len() {
        (
            match replies[at] {
                Ok(_) => Ok(true),
                Err(BenchError::NoSuchCommand(_)) => Ok(false),
                Err(error) => Err(HaltView::Fail(error@)),
            },
            at + 1,
        )
    } else {
        (
            Err(
                HaltView::Ask(
                    shell(
                        config,
                        ip,
                        config.system.remote_work_dir@ + "/"@ + config.jdk.dir_name@
                            + "/bin/java -version"@,
                    ),
                ),
            ),
            at,
        )
    }
}

pub open spec fn jdk_sent(config: Config, ip: Seq<char>, replies: Seq<Reply>, at: int) -> (
    Result<(), HaltView>,
    int,
) {
    command_step(
        replies,
        at,
        RequestView::Scp {
            is_dir: false,
            user_name: config.system.user_name@,
            ip,
            local_path: config.jdk.package_path@,
            remote_path: config.system.remote_work_dir@,
        },
        false,
    )
}

pub open spec fn jdk_unpacked(config: Config, ip: Seq<char>, replies: Seq<Reply>, at: int) -> (
    Result<(), HaltView>,
    int,
) {
    let work = config.system.remote_work_dir@;
    command_step(
        replies,
        at,
        shell(
            config,
            ip,
            "tar -C "@ + work + " -zxf "@ + work + "/"@ + config.jdk.package_filename@,
        ),
        false,
    )
}

pub open spec fn jdk_package_removed(config: Config, ip: Seq<char>, replies: Seq<Reply>, at: int) -> (
    Result<(), HaltView>,
    int,
) {
    command_step(
        replies,
        at,
        shell(
            config,
            ip,
            "rm "@ + config.system.remote_work_dir@ + "/"@ + config.jdk.package_filename@,
        ),
        false,
    )
}

/// One machine is made ready: its working directory is made, and if Java
/// does not run there the JDK is sent, unpacked, and its package removed.
pub open spec fn machine_ready(config: Config, ip: Seq<char>, replies: Seq<Reply>, at: int) -> (
    Result<(), HaltView>,
    int,
) {
    let created = working_dir_created(config, ip, replies, at);
    if created.0 is Err {
        created
    } else {
        let checked = java_runtime_checked(config, ip, replies, created.1);
        match checked.0 {
            Err(halt) => (Err(halt), checked.1),
            Ok(true) => (Ok(()), checked.1),
            Ok(false) => {
                let sent = jdk_sent(config, ip, replies, checked.1);
                if sent.0 is Err {
                    sent
                } else {
                    let unpacked = jdk_unpacked(config, ip, replies, sent.1);
                    if unpacked.0 is Err {
                        unpacked
                    } else {
                        jdk_package_removed(config, ip, replies, unpacked.1)
                    }
                }
            },
        }
    }
}

/// The machines are made ready one after the other, up to the first
/// failure.
pub open spec fn machines_ready(config: Config, machines: Seq<String>, replies: Seq<Reply>, at: int) -> (
    Result<(), HaltView>,
    int,
)
    decreases machines.len(),
{
    if machines.len() == 0 {
        (Ok(()), at)
    } else {
        let before = machines_ready(config, machines.drop_last(), replies, at);
        if before.0 is Err {
            before
        } else {
            machine_ready(config, machines.last()@, replies, before.1)
        }
    }
}

/// Everything is made ready: the package of the JDK must lie on this
/// machine; then every machine of the settings is made ready.
pub open spec fn all_ready(config: Config, replies: Seq<Reply>, at: int) -> (
    Result<(), HaltView>,
    int,
) {
    let jdk = local_jdk_checked(config, replies, at);
    match jdk.0 {
        Err(halt) => (Err(halt), jdk.1),
        Ok(false) => (Err(HaltView::Fail(no_jdk(config))), jdk.1),
        Ok(true) => machines_ready(config, config.machines.all@, replies, jdk.1),
    }
}

fn remote(config: &Config, ip: &str, remote_cmd: String) -> (request: Request)
    ensures
        request@ == shell(*config, ip@, remote_cmd@),
{
    Request::Ssh {
        user_name: config.system.user_name.clone(),
        ip: String::from_str(ip),
        remote_cmd,
    }
}

/// Looks whether the working directory is on the machine `ip`.
pub fn check_working_dir(config: &Config, ip: &str, tape: &mut Tape) -> (there: Result<bool, Halt>)
    ensures
        final(tape).replies == old(tape).replies,
        (answer_view(there), final(tape).next as int) == working_dir_checked(
            *config,
            ip@,
            old(tape).replies@,
            old(tape).next as int,
        ),
{
    let mut cmd = String::from_str("ls -l ");
    cmd.append(config.system.remote_work_dir.as_str());
    match tape.ask(remote(config, ip, cmd))? {
        Ok(_) => Ok(true),
        Err(error) => if error.is_remote_exit(2) {
            Ok(false)
        } else {
            Err(Halt::Fail(error))
        },
    }
}

/// Makes the working directory on the machine `ip`.
pub fn create_working_dir(config: &Config, ip: &str, tape: &mut Tape) -> (created: Result<(), Halt>)
    ensures
        final(tape).replies == old(tape).replies,
        (halt_view(created), final(tape).next as int) == working_dir_created(
            *config,
            ip@,
            old(tape).replies@,
            old(tape).next as int,
        ),
{
    let mut databases = String::from_str("mkdir -p ");
    databases.append(config.system.remote_work_dir.as_str());
    databases.append("/databases");
    tape.command(remote(config, ip, databases), false)?;
    let mut results = String::from_str("mkdir -p ");
    results.append(config.system.remote_work_dir.as_str());
    results.append("/results");
    tape.command(remote(config, ip, results), false)
}

/// Looks whether Java runs on the machine `ip`.
pub fn check_java_runtime(config: &Config, ip: &str, tape: &mut Tape) -> (runs: Result<bool, Halt>)
    ensures
        final(tape).replies == old(tape).replies,
        (answer_view(runs), final(tape).next as int) == java_runtime_checked(
            *config,
            ip@,
            old(tape).replies@,
            old(tape).next as int,
        ),
{
    let mut cmd = config.system.remote_work_dir.clone();
    cmd.append("/");
    cmd.append(config.jdk.dir_name.as_str());
    cmd.append("/bin/java -version");
    // Check if the java is installed
    match tape.ask(remote(config, ip, cmd))? {
        Ok(_) => Ok(true),
        Err(BenchError::NoSuchCommand(_)) => Ok(false),
        Err(error) => Err(Halt::Fail(error)),
    }
}

/// Looks whether the package of the JDK lies on this machine.
pub fn check_local_jdk(config: &Config, tape: &mut Tape) -> (there: Result<bool, Halt>)
    ensures
        final(tape).replies == old(tape).replies,
        (answer_view(there), final(tape).next as int) == local_jdk_checked(
            *config,
            old(tape).replies@,
            old(tape).next as int,
        ),
{
    match tape.ask(Request::Ls { path: config.jdk.package_path.clone() })? {
        Ok(_) => Ok(true),
        Err(BenchError::FileNotFound(_)) => Ok(false),
        Err(error) => Err(Halt::Fail(error)),
    }
}

/// Sends the package of the JDK to the machine `ip`.
pub fn send_jdk(config: &Config, ip: &str, tape: &mut Tape) -> (sent: Result<(), Halt>)
    ensures
        final(tape).replies == old(tape).replies,
        (halt_view(sent), final(tape).next as int) == jdk_sent(
            *config,
            ip@,
            old(tape).replies@,
            old(tape).next as int,
        ),
{
    let request = Request::Scp {
        is_dir: false,
        user_name: config.system.user_name.clone(),
        ip: String::from_str(ip),
        local_path: config.jdk.package_path.clone(),
        remote_path: config.system.remote_work_dir.clone(),
    };
    tape.command(request, false)
}

/// Unpacks the package of the JDK on the machine `ip`.
pub fn unpack_jdk(config: &Config, ip: &str, tape: &mut Tape) -> (unpacked: Result<(), Halt>)
    ensures
        final(tape).replies == old(tape).replies,
        (halt_view(unpacked), final(tape).next as int) == jdk_unpacked(
            *config,
            ip@,
            old(tape).replies@,
            old(tape).next as int,
        ),
{
    let mut cmd = String::from_str("tar -C ");
    cmd.append(config.system.remote_work_dir.as_str());
    cmd.append(" -zxf ");
    cmd.append(config.system.remote_work_dir.as_str());
    cmd.append("/");
    cmd.append(config.jdk.package_filename.as_str());
    tape.command(remote(config, ip, cmd), false)
}

/// Removes the package of the JDK from the machine `ip`.
pub fn remove_jdk_package(config: &Config, ip: &str, tape: &mut Tape) -> (removed: Result<(), Halt>)
    ensures
        final(tape).replies == old(tape).replies,
        (halt_view(removed), final(tape).next as int) == jdk_package_removed(
            *config,
            ip@,
            old(tape).replies@,
            old(tape).next as int,
        ),
{
    let mut cmd = String::from_str("rm ");
    cmd.append(config.system.remote_work_dir.as_str());
    cmd.append("/");
    cmd.append(config.jdk.package_filename.as_str());
    tape.command(remote(config, ip, cmd), false)
}

fn prepare_machine(config: &Config, ip: &str, tape: &mut Tape) -> (ready: Result<(), Halt>)
    ensures
        final(tape).replies == old(tape).replies,
        (halt_view(ready), final(tape).next as int) == machine_ready(
            *config,
            ip@,
            old(tape).replies@,
            old(tape).next as int,
        ),
{
    // Create the working directory
    create_working_dir(config, ip, tape)?;
    // Check Java Runtime
    if !check_java_runtime(config, ip, tape)? {
        send_jdk(config, ip, tape)?;
        unpack_jdk(config, ip, tape)?;
        remove_jdk_package(config, ip, tape)?;
    }
    Ok(())
}

proof fn lemma_machines_stop(
    config: Config,
    machines: Seq<String>,
    replies: Seq<Reply>,
    at: int,
    upto: int,
)
    requires
        0 <= upto <= machines.len(),
        machines_ready(config, machines.take(upto), replies, at).0 is Err,
    ensures
        machines_ready(config, machines, replies, at) == machines_ready(
            config,
            machines.take(upto),
            replies,
            at,
        ),
    decreases machines.len() - upto,
{
    if upto < machines.len() {
        assert(machines.drop_last().take(upto) =~= machines.take(upto));
        lemma_machines_stop(config, machines.drop_last(), replies, at, upto);
    } else {
        assert(machines.take(upto) =~= machines);
    }
}

/// Makes every machine of the settings ready for the benchmarker.
pub fn execute(config: &Config, tape: &mut Tape) -> (ready: Result<(), Halt>)
    ensures
        final(tape).replies == old(tape).replies,
        (halt_view(ready), final(tape).next as int) == all_ready(
            *config,
            old(tape).replies@,
            old(tape).next as int,
        ),
{
    // Check local files
    if !check_local_jdk(config, tape)? {
        let mut message = String::from_str("cannot find the JDK at ");
        message.append(config.jdk.package_path.as_str());
        return Err(Halt::Fail(BenchError::Message(message)));
    }
    let ghost start = tape.next as int;
    let ghost machines = config.machines.all@;
    // For all the nodes
    let mut i: usize = 0;
    while i < config.machines.all.len()
        invariant
            tape.replies == old(tape).replies,
            machines == config.machines.all@,
            local_jdk_checked(*config, old(tape).replies@, old(tape).next as int) == (
                Ok::<bool, HaltView>(true),
                start,
            ),
            i <= machines.len(),
            (Ok::<(), HaltView>(()), tape.next as int) == machines_ready(
                *config,
                machines.take(i as int),
                tape.replies@,
                start,
            ),
        decreases machines.len() - i,
    {
        proof {
            assert(machines.take(i + 1).drop_last() =~= machines.take(i as int));
            assert(machines.take(i + 1).last() == machines[i as int]);
        }
        match prepare_machine(config, config.machines.all[i].as_str(), tape) {
            Ok(()) => {},
            Err(halt) => {
                proof {
                    assert(machines_ready(*config, machines.take(i + 1), tape.replies@, start).0
                        is Err);
                    lemma_machines_stop(*config, machines, tape.replies@, start, i + 1);
                }
                return Err(halt);
            },
        }
        i += 1;
    }
    assert(machines.take(i as int) =~= machines);
    Ok(())
}

} // verus!

//! Fetching files from every machine.

use vstd::prelude::*;
use vstd::string::*;
use crate::command::{Reply, Request, RequestView};
use crate::config::Config;
use crate::replay::{halt_view, Halt, HaltView, Tape};

verus! {

/// The directory on this machine that fetched files go to.
pub open spec fn local_dir() -> Seq<char> {
    "pulls"@
}

/// Where the files of the machine `ip` go: into a directory of its own
/// under the common one if the machines are kept apart.
pub open spec fn local_path(ip: Seq<char>, is_separated: bool) -> Seq<char> {
    if is_separated {
        local_dir() + "/"@ + ip
    } else {
        local_dir()
    }
}

/// The copy that fetches what matches `pattern` from the machine `ip`.
pub open spec fn pull_request(config: Config, pattern: Seq<char>, ip: Seq<char>, is_separated: bool) -> RequestView {
    RequestView::ScpFrom {
        is_dir: false,
        user_name: config.system.user_name@,
        ip,
        remote_path: config.system.remote_work_dir@ + "/"@ + pattern,
        local_path: local_path(ip, is_separated),
    }
}

/// The files are fetched from one machine. A failure is passed over if
/// failures are to be ignored.
pub open spec fn pulled(
    config: Config,
    pattern: Seq<char>,
    ip: Seq<char>,
    is_separated: bool,
    ignore_error: bool,
    replies: Seq<Reply>,
    at: int,
) -> (Result<(), HaltView>, int) {
    if 0 <= at < replies.len() {
        (
            match replies[at] {
                Ok(_) => Ok(()),
                Err(error) => if ignore_error {
                    Ok(())
                } else {
                    Err(HaltView::Fail(error@))
                },
            },
            at + 1,
        )
    } else {
        (Err(HaltView::Ask(pull_request(config, pattern, ip, is_separated))), at)
    }
}

/// The files are fetched from the machines one after the other, up to the
/// first failure that is not ignored.
pub open spec fn all_pulled(
    config: Config,
    pattern: Seq<char>,
    machines: Seq<String>,
    is_separated: bool,
    ignore_error: bool,
    replies: Seq<Reply>,
    at: int,
) -> (Result<(), HaltView>, int)
    decreases machines.len(),
{
    if machines.len() == 0 {
        (Ok(()), at)
    } else {
        let before = all_pulled(
            config,
            pattern,
            machines.drop_last(),
            is_separated,
            ignore_error,
            replies,
            at,
        );
        if before.0 is Err {
            before
        } else {
            pulled(
                config,
                pattern,
                machines.last()@,
                is_separated,
                ignore_error,
                replies,
                before.1,
            )
        }
    }
}

proof fn lemma_pull_stops(
    config: Config,
    pattern: Seq<char>,
    machines: Seq<String>,
    is_separated: bool,
    ignore_error: bool,
    replies: Seq<Reply>,
    at: int,
    upto: int,
)
    requires
        0 <= upto <= machines.len(),
        all_pulled(config, pattern, machines.take(upto), is_separated, ignore_error, replies, at).0
            is Err,
    ensures
        all_pulled(config, pattern, machines, is_separated, ignore_error, replies, at)
            == all_pulled(
            config,
            pattern,
            machines.take(upto),
            is_separated,
            ignore_error,
            replies,
            at,
        ),
    decreases machines.len() - upto,
{
    if upto < machines.len() {
        assert(machines.drop_last().take(upto) =~= machines.take(upto));
        lemma_pull_stops(
            config,
            pattern,
            machines.drop_last(),
            is_separated,
            ignore_error,
            replies,
            at,
            upto,
        );
    } else {
        assert(machines.take(upto) =~= machines);
    }
}

fn pull_from(
    config: &Config,
    pattern: &str,
    ip: &String,
    is_separated: bool,
    ignore_error: bool,
    tape: &mut Tape,
) -> (done: Result<(), Halt>)
    ensures
        final(tape).replies == old(tape).replies,
        (halt_view(done), final(tape).next as int) == pulled(
            *config,
            pattern@,
            ip@,
            is_separated,
            ignore_error,
            old(tape).replies@,
            old(tape).next as int,
        ),
{
    let mut remote_path = config.system.remote_work_dir.clone();
    remote_path.append("/");
    remote_path.append(pattern);
    let mut local_path = String::from_str("pulls");
    if is_separated {
        local_path.append("/");
        local_path.append(ip.as_str());
    }
    let request = Request::ScpFrom {
        is_dir: false,
        user_name: config.system.user_name.clone(),
        ip: ip.clone(),
        remote_path,
        local_path,
    };
    match tape.ask(request)? {
        Ok(_) => Ok(()),
        Err(error) => if ignore_error {
            Ok(())
        } else {
            Err(Halt::Fail(error))
        },
    }
}

/// Fetches from every machine of the settings the files of its working
/// directory that match `pattern`.
pub fn execute(
    config: &Config,
    pattern: &str,
    is_separated: bool,
    ignore_error: bool,
    tape: &mut Tape,
) -> (done: Result<(), Halt>)
    ensures
        final(tape).replies == old(tape).replies,
        (halt_view(done), final(tape).next as int) == all_pulled(
            *config,
            pattern@,
            config.machines.all@,
            is_separated,
            ignore_error,
            old(tape).replies@,
            old(tape).next as int,
        ),
{
    let ghost start = tape.next as int;
    let ghost machines = config.machines.all@;
    let mut i: usize = 0;
    while i < config.machines.all.len()
        invariant
            tape.replies == old(tape).replies,
            machines == config.machines.all@,
            start == old(tape).next,
            i <= machines.len(),
            (Ok::<(), HaltView>(()), tape.next as int) == all_pulled(
                *config,
                pattern@,
                machines.take(i as int),
                is_separated,
                ignore_error,
                tape.replies@,
                start,
            ),
        decreases machines.len() - i,
    {
        proof {
            assert(machines.take(i + 1).drop_last() =~= machines.take(i as int));
            assert(machines.take(i + 1).last() == machines[i as int]);
        }
        match pull_from(config, pattern, &config.machines.all[i], is_separated, ignore_error, tape) {
            Ok(()) => {},
            Err(halt) => {
                proof {
                    assert(all_pulled(
                        *config,
                        pattern@,
                        machines.take(i + 1),
                        is_separated,
                        ignore_error,
                        tape.replies@,
                        start,
                    ).0 is Err);
                    lemma_pull_stops(
                        *config,
                        pattern@,
                        machines,
                        is_separated,
                        ignore_error,
                        tape.replies@,
                        start,
                        i + 1,
                    );
                }
                return Err(halt);
            },
        }
        i += 1;
    }
    assert(machines.take(i as int) =~= machines);
    Ok(())
}

} // verus!

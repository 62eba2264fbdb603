//! Running one command on every machine.

use vstd::prelude::*;
use vstd::string::*;
use crate::command::{Reply, Request, RequestView};
use crate::config::Config;
use crate::replay::{Halt, HaltView, Tape};

verus! {

/// The command `cmd` is run on the machines one after the other, up to the
/// first failure; what comes back is what each machine printed.
pub open spec fn all_executed(
    config: Config,
    cmd: Seq<char>,
    machines: Seq<String>,
    replies: Seq<Reply>,
    at: int,
) -> (Result<Seq<Seq<char>>, HaltView>, int)
    decreases machines.len(),
{
    if machines.len() == 0 {
        (Ok(Seq::empty()), at)
    } else {
        let before = all_executed(config, cmd, machines.drop_last(), replies, at);
        match before.0 {
            Err(halt) => before,
            Ok(outputs) => if 0 <= before.1 < replies.len() {
                (
                    match replies[before.1] {
                        Ok(output) => Ok(outputs.push(output@)),
                        Err(error) => Err(HaltView::Fail(error@)),
                    },
                    before.1 + 1,
                )
            } else {
                (
                    Err(
                        HaltView::Ask(
                            RequestView::Ssh {
                                user_name: config.system.user_name@,
                                ip: machines.last()@,
                                remote_cmd: cmd,
                            },
                        ),
                    ),
                    before.1,
                )
            },
        }
    }
}

/// Outputs, or the stop before them, as plain values.
pub open spec fn outputs_view(result: Result<Vec<String>, Halt>) -> Result<
    Seq<Seq<char>>,
    HaltView,
> {
    match result {
        Ok(outputs) => Ok(outputs.deep_view()),
        Err(halt) => Err(halt@),
    }
}

proof fn lemma_execute_stops(
    config: Config,
    cmd: Seq<char>,
    machines: Seq<String>,
    replies: Seq<Reply>,
    at: int,
    upto: int,
)
    requires
        0 <= upto <= machines.len(),
        all_executed(config, cmd, machines.take(upto), replies, at).0 is Err,
    ensures
        all_executed(config, cmd, machines, replies, at) == all_executed(
            config,
            cmd,
            machines.take(upto),
            replies,
            at,
        ),
    decreases machines.len() - upto,
{
    if upto < machines.len() {
        assert(machines.drop_last().take(upto) =~= machines.take(upto));
        lemma_execute_stops(config, cmd, machines.drop_last(), replies, at, upto);
    } else {
        assert(machines.take(upto) =~= machines);
    }
}

/// Runs `cmd` on every machine of the settings and gives what each of them
/// printed.
pub fn execute(config: &Config, cmd: &str, tape: &mut Tape) -> (outputs: Result<Vec<String>, Halt>)
    ensures
        final(tape).replies == old(tape).replies,
        (outputs_view(outputs), final(tape).next as int) == all_executed(
            *config,
            cmd@,
            config.machines.all@,
            old(tape).replies@,
            old(tape).next as int,
        ),
{
    let ghost start = tape.next as int;
    let ghost machines = config.machines.all@;
    let mut outputs: Vec<String> = Vec::new();
    let mut i: usize = 0;
    proof {
        assert(outputs.deep_view() =~= Seq::<Seq<char>>::empty());
    }
    while i < config.machines.all.len()
        invariant
            tape.replies == old(tape).replies,
            machines == config.machines.all@,
            start == old(tape).next,
            i <= machines.len(),
            (Ok::<Seq<Seq<char>>, HaltView>(outputs.deep_view()), tape.next as int)
                == all_executed(*config, cmd@, machines.take(i as int), tape.replies@, start),
        decreases machines.len() - i,
    {
        proof {
            assert(machines.take(i + 1).drop_last() =~= machines.take(i as int));
            assert(machines.take(i + 1).last() == machines[i as int]);
        }
        let request = Request::Ssh {
            user_name: config.system.user_name.clone(),
            ip: config.machines.all[i].clone(),
            remote_cmd: String::from_str(cmd),
        };
        let reply = match tape.ask(request) {
            Ok(reply) => reply,
            Err(halt) => {
                proof {
                    assert(all_executed(*config, cmd@, machines.take(i + 1), tape.replies@, start).0
                        is Err);
                    lemma_execute_stops(*config, cmd@, machines, tape.replies@, start, i + 1);
                }
                return Err(halt);
            },
        };
        match reply {
            Ok(output) => {
                let ghost before = outputs.deep_view();
                outputs.push(output);
                assert(outputs.deep_view() =~= before.push(output@));
            },
            Err(error) => {
                proof {
                    assert(all_executed(*config, cmd@, machines.take(i + 1), tape.replies@, start).0
                        is Err);
                    lemma_execute_stops(*config, cmd@, machines, tape.replies@, start, i + 1);
                }
                return Err(Halt::Fail(error));
            },
        }
        i += 1;
    }
    assert(machines.take(i as int) =~= machines);
    Ok(outputs)
}

} // verus!

use auto_bencher::command::{Reply, Request};
use auto_bencher::config::{Config, Jdk, Machines, System};
use auto_bencher::connections::throughput::ResultFormat;
use auto_bencher::connections::{Action, ConnectionInfo};
use auto_bencher::error::BenchError;
use auto_bencher::threads::client::{execute_client_thread, ClientThread};
use auto_bencher::threads::orchestrator::{outcome, Run};
use auto_bencher::threads::server::{execute_server_thread, ServerThread};
use auto_bencher::threads::{run_in_threads, Event, Step, ThreadResult};

fn config() -> Config {
    Config {
        system: System { user_name: "bench".to_owned(), remote_work_dir: "/work".to_owned() },
        jdk: Jdk {
            use_custom_jdk: true,
            dir_name: "jdk".to_owned(),
            package_path: "pkg/jdk.tar.gz".to_owned(),
            jvm_args: "-Xmx1g".to_owned(),
            package_filename: "jdk.tar.gz".to_owned(),
            remote_java_bin: "/work/jdk/bin/java".to_owned(),
        },
        machines: Machines { all: vec![], sequencer: None, servers: vec![], clients: vec![] },
    }
}

fn node(id: usize, ip: &str) -> ConnectionInfo {
    ConnectionInfo { id, ip: ip.to_owned(), port: 30000 }
}

enum Machine {
    Server(ServerThread),
    Client(ClientThread),
}

/// One node of a simulated run: its machine, the step it is at, how often
/// it has come to the rendezvous, and how often its log was searched for the
/// words it waits for.
struct Sim {
    machine: Machine,
    step: Step,
    arrived: usize,
    waited: usize,
    reported: Option<ThreadResult>,
}

fn tell(sim: &mut Sim, event: Event) {
    let step = match &mut sim.machine {
        Machine::Server(thread) => execute_server_thread(thread, event),
        Machine::Client(thread) => execute_client_thread(thread, event),
    };
    if step == Step::Rendezvous {
        sim.arrived += 1;
    }
    if let Step::Report(result) = &step {
        sim.reported = Some(*result);
    }
    sim.step = step;
}

/// What a machine of the simulated fleet answers to a command: the words a
/// node waits for show up at the third look, and servers that are marked as
/// broken fail their first search.
fn answer(sim: &mut Sim, request: &Request, broken: bool) -> Reply {
    let cmd = match request {
        Request::Ssh { remote_cmd, .. } => remote_cmd.clone(),
        _ => return Ok("".to_owned()),
    };
    let nothing = Err(BenchError::CommandFailedOnRemote(
        "ip".to_owned(),
        "grep".to_owned(),
        1,
        "".to_owned(),
    ));
    if cmd.starts_with("grep 'TOTAL'") {
        Ok("TOTAL 50 avg latency: 1 ms".to_owned())
    } else if cmd.contains("server ready") || cmd.contains("finished.") {
        sim.waited += 1;
        if sim.waited >= 3 {
            Ok("there".to_owned())
        } else {
            nothing
        }
    } else if cmd.starts_with("grep ") {
        if broken {
            Ok("Exception".to_owned())
        } else {
            nothing
        }
    } else if cmd.starts_with("ls ") {
        Ok("r.csv".to_owned())
    } else {
        Ok("".to_owned())
    }
}

fn is_start_of(step: &Step, jar: &str) -> bool {
    matches!(step, Step::Run(Request::Ssh { remote_cmd, .. }) if remote_cmd.contains(jar))
}

/// Runs the fleet with a rendezvous that releases a node only when every
/// node has come to it, picking the next node to move by `seed`. Checks at
/// every start of a program that the nodes it must wait for have arrived.
fn simulate(run: Run, seed: u64, broken_server: Option<usize>) -> (Vec<Sim>, bool) {
    let mut fleet: Vec<Sim> = Vec::new();
    for thread in run.servers {
        fleet.push(Sim { machine: Machine::Server(thread), step: Step::ReadStop, arrived: 0, waited: 0, reported: None });
    }
    if let Some(thread) = run.sequencer {
        fleet.push(Sim { machine: Machine::Server(thread), step: Step::ReadStop, arrived: 0, waited: 0, reported: None });
    }
    for thread in run.clients {
        fleet.push(Sim { machine: Machine::Client(thread), step: Step::ReadStop, arrived: 0, waited: 0, reported: None });
    }
    let mut count = run.count;
    let mut stop = count.is_stopped();
    let mut released: Vec<usize> = vec![0; fleet.len()];
    for sim in fleet.iter_mut() {
        tell(sim, Event::Begin);
    }
    let mut state = seed;
    let mut server_starts = 0;
    let mut client_starts = 0;
    for _ in 0..100_000 {
        if fleet.iter().all(|sim| sim.reported.is_some()) {
            break;
        }
        state = state.wrapping_mul(6364136223846793005).wrapping_add(1442695040888963407);
        let i = ((state >> 33) as usize) % fleet.len();
        if fleet[i].reported.is_some() {
            continue;
        }
        let all_arrived = fleet.iter().map(|sim| sim.arrived).min().unwrap();
        let servers_arrived = fleet
            .iter()
            .filter(|sim| matches!(sim.machine, Machine::Server(_)))
            .map(|sim| sim.arrived)
            .min()
            .unwrap_or(2);
        let step = std::mem::replace(&mut fleet[i].step, Step::ReadStop);
        match step {
            Step::Rendezvous => {
                if all_arrived > released[i] {
                    released[i] += 1;
                    tell(&mut fleet[i], Event::Released);
                    if is_start_of(&fleet[i].step, "server.jar") {
                        server_starts += 1;
                        assert!(all_arrived >= 1, "a server starts before every node is prepared");
                    }
                    if is_start_of(&fleet[i].step, "client.jar") {
                        client_starts += 1;
                        assert!(servers_arrived >= 2, "a client starts before every server is ready");
                    }
                } else {
                    fleet[i].step = Step::Rendezvous;
                }
            }
            Step::Run(request) => {
                let broken = broken_server == Some(i);
                let reply = answer(&mut fleet[i], &request, broken);
                tell(&mut fleet[i], Event::Reply(reply));
            }
            Step::Sleep(_) => tell(&mut fleet[i], Event::Woke),
            Step::ReadStop => tell(&mut fleet[i], Event::Stop(Ok(stop))),
            Step::Report(_) => unreachable!(),
        }
        if let Some(result) = fleet[i].reported {
            let verdict = count.record(result);
            if verdict.stop {
                stop = true;
            }
        }
    }
    let finished = fleet.iter().all(|sim| sim.reported.is_some());
    if broken_server.is_none() {
        assert!(finished);
        assert!(count.is_complete());
        assert!(stop);
        assert!(server_starts > 0 && client_starts > 0);
        let clients: Vec<ClientThread> = fleet
            .drain(..)
            .filter_map(|sim| match sim.machine {
                Machine::Client(thread) => Some(thread),
                _ => None,
            })
            .collect();
        let results = outcome(&count, &clients).unwrap();
        assert!(results.iter().all(|result| *result == Some(50)));
        return (Vec::new(), finished);
    }
    (fleet, finished)
}

fn fleet(action: Action) -> Run {
    run_in_threads(
        &config(),
        "db",
        action,
        Some("reports".to_owned()),
        "",
        &ResultFormat::new("TOTAL", "avg"),
        Some(node(2, "10.0.0.5")),
        vec![node(0, "10.0.0.1"), node(1, "10.0.0.2")],
        vec![node(0, "10.0.0.8"), node(1, "10.0.0.9")],
    )
}

#[test]
fn nobody_starts_before_all_are_prepared_and_no_client_before_the_servers_are_ready() {
    for seed in 0..40 {
        simulate(fleet(Action::Benchmarking), seed, None);
    }
}

#[test]
fn a_server_that_fails_before_it_is_ready_keeps_the_clients_from_starting() {
    for seed in 0..10 {
        let (fleet, finished) = simulate(fleet(Action::Benchmarking), seed, Some(1));
        assert!(!finished);
        for sim in &fleet {
            match &sim.machine {
                Machine::Client(_) => {
                    assert_eq!(sim.arrived, 2);
                    assert_eq!(sim.step, Step::Rendezvous);
                }
                Machine::Server(_) => {}
            }
        }
        assert_eq!(fleet[1].reported, Some(ThreadResult::Failed));
        assert_eq!(fleet[1].arrived, 1);
    }
}

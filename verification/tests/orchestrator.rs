use auto_bencher::command::Reply;
use auto_bencher::config::{Config, Jdk, Machines, System};
use auto_bencher::connections::throughput::ResultFormat;
use auto_bencher::connections::{Action, ConnectionInfo};
use auto_bencher::error::BenchError;
use auto_bencher::threads::client::{create_client_thread, execute_client_thread, ClientThread};
use auto_bencher::threads::orchestrator::{outcome, Orchestrator, Verdict};
use auto_bencher::threads::server::ServerPhase;
use auto_bencher::threads::client::ClientPhase;
use auto_bencher::threads::{run_in_threads, Event, Step, ThreadResult};

fn config() -> Config {
    Config {
        system: System { user_name: "bench".to_owned(), remote_work_dir: "/work".to_owned() },
        jdk: Jdk {
            use_custom_jdk: true,
            dir_name: "jdk".to_owned(),
            package_path: "pkg/jdk.tar.gz".to_owned(),
            jvm_args: "-Xmx1g".to_owned(),
            package_filename: "jdk.tar.gz".to_owned(),
            remote_java_bin: "/work/jdk/bin/java".to_owned(),
        },
        machines: Machines { all: vec![], sequencer: None, servers: vec![], clients: vec![] },
    }
}

fn node(id: usize, ip: &str) -> ConnectionInfo {
    ConnectionInfo { id, ip: ip.to_owned(), port: 30000 }
}

fn exit(code: i32) -> Reply {
    Err(BenchError::CommandFailedOnRemote("ip".to_owned(), "cmd".to_owned(), code, "".to_owned()))
}

/// Drives a client to its end; `total` is what its result file reports.
fn finish(thread: &mut ClientThread, action: Action, total: u32) -> ThreadResult {
    let mut step = execute_client_thread(thread, Event::Begin);
    let finished = match action {
        Action::Loading => "loading procedure finished.",
        Action::Benchmarking => "benchmark process finished.",
    };
    loop {
        step = match step {
            Step::Rendezvous => execute_client_thread(thread, Event::Released),
            Step::Sleep(_) => execute_client_thread(thread, Event::Woke),
            Step::ReadStop => panic!("a client reads no stop flag"),
            Step::Report(result) => return result,
            Step::Run(request) => {
                let reply: Reply = match &request {
                    auto_bencher::command::Request::Ssh { remote_cmd, .. } => {
                        if remote_cmd.starts_with("grep 'TOTAL'") {
                            Ok(format!("TOTAL {} avg latency: 1 ms\n", total))
                        } else if remote_cmd.contains(finished) {
                            Ok(finished.to_owned())
                        } else if remote_cmd.starts_with("grep ") {
                            exit(1)
                        } else if remote_cmd.starts_with("ls ") {
                            Ok("file.csv".to_owned())
                        } else {
                            Ok("".to_owned())
                        }
                    }
                    _ => Ok("".to_owned()),
                };
                execute_client_thread(thread, Event::Reply(reply))
            }
        };
    }
}

#[test]
fn the_stop_flag_is_set_when_the_last_client_reports() {
    let mut count = Orchestrator::new(5, 2);
    assert!(!count.is_stopped());
    assert!(!count.is_complete());
    assert_eq!(
        count.record(ThreadResult::ClientSucceed(Some(100))),
        Verdict { stop: false, complete: false }
    );
    assert!(!count.is_stopped());
    assert_eq!(
        count.record(ThreadResult::ClientSucceed(Some(200))),
        Verdict { stop: true, complete: false }
    );
    assert!(count.is_stopped());
    assert_eq!(count.record(ThreadResult::ServerSucceed), Verdict { stop: false, complete: false });
    assert!(count.is_stopped());
    assert_eq!(count.record(ThreadResult::ServerSucceed), Verdict { stop: false, complete: false });
    assert_eq!(count.record(ThreadResult::ServerSucceed), Verdict { stop: false, complete: true });
    assert!(count.is_complete());
    assert!(count.is_stopped());
    assert_eq!(
        count,
        Orchestrator { threads: 5, clients: 2, reported: 5, client_done: 2, failed: false }
    );
}

#[test]
fn servers_alone_do_not_set_the_stop_flag() {
    let mut count = Orchestrator::new(3, 1);
    assert_eq!(count.record(ThreadResult::ServerSucceed), Verdict { stop: false, complete: false });
    assert_eq!(count.record(ThreadResult::Failed), Verdict { stop: false, complete: false });
    assert!(!count.is_stopped());
    assert!(count.failed);
}

#[test]
fn a_run_without_clients_is_stopped_from_the_start() {
    let count = Orchestrator::new(2, 0);
    assert!(count.is_stopped());
    assert!(!count.is_complete());
    assert!(Orchestrator::new(0, 0).is_complete());
}

#[test]
fn the_counts_stop_at_the_largest_number() {
    let mut count = Orchestrator {
        threads: 1,
        clients: 1,
        reported: usize::MAX,
        client_done: usize::MAX,
        failed: false,
    };
    assert_eq!(count.record(ThreadResult::ClientSucceed(None)), Verdict { stop: false, complete: true });
    assert_eq!(count.reported, usize::MAX);
    assert_eq!(count.client_done, usize::MAX);
}

#[test]
fn the_run_returns_what_the_clients_measured_client_by_client() {
    let format = ResultFormat::new("TOTAL", "avg");
    let mut clients = vec![
        create_client_thread(
            config(),
            node(0, "10.0.0.7"),
            "".to_owned(),
            Action::Benchmarking,
            Some("r".to_owned()),
            format.clone(),
        ),
        create_client_thread(
            config(),
            node(1, "10.0.0.8"),
            "".to_owned(),
            Action::Benchmarking,
            Some("r".to_owned()),
            format.clone(),
        ),
        create_client_thread(
            config(),
            node(2, "10.0.0.9"),
            "".to_owned(),
            Action::Loading,
            None,
            format.clone(),
        ),
    ];
    let mut count = Orchestrator::new(5, 3);
    // the clients end in another order than they stand in
    assert_eq!(
        finish(&mut clients[1], Action::Benchmarking, 200),
        ThreadResult::ClientSucceed(Some(200))
    );
    count.record(ThreadResult::ClientSucceed(Some(200)));
    assert_eq!(finish(&mut clients[2], Action::Loading, 0), ThreadResult::ClientSucceed(None));
    count.record(ThreadResult::ClientSucceed(None));
    assert_eq!(
        finish(&mut clients[0], Action::Benchmarking, 100),
        ThreadResult::ClientSucceed(Some(100))
    );
    let verdict = count.record(ThreadResult::ClientSucceed(Some(100)));
    assert_eq!(verdict, Verdict { stop: true, complete: false });
    count.record(ThreadResult::ServerSucceed);
    let verdict = count.record(ThreadResult::ServerSucceed);
    assert_eq!(verdict, Verdict { stop: false, complete: true });
    assert_eq!(outcome(&count, &clients), Ok(vec![Some(100), Some(200), None]));
}

#[test]
fn one_failure_fails_the_run_whatever_else_is_reported() {
    let format = ResultFormat::new("TOTAL", "avg");
    let mut clients = vec![create_client_thread(
        config(),
        node(0, "10.0.0.7"),
        "".to_owned(),
        Action::Benchmarking,
        Some("r".to_owned()),
        format,
    )];
    finish(&mut clients[0], Action::Benchmarking, 100);
    for failing in 0..4 {
        let mut count = Orchestrator::new(4, 1);
        for report in 0..4 {
            if report == failing {
                count.record(ThreadResult::Failed);
            } else if report == 3 {
                count.record(ThreadResult::ClientSucceed(Some(100)));
            } else {
                count.record(ThreadResult::ServerSucceed);
            }
        }
        assert!(count.is_complete());
        assert_eq!(
            outcome(&count, &clients),
            Err(BenchError::Message("A thread exits with an error".to_owned()))
        );
    }
    let mut count = Orchestrator::new(2, 1);
    count.record(ThreadResult::ServerSucceed);
    count.record(ThreadResult::ClientSucceed(Some(100)));
    assert_eq!(outcome(&count, &clients), Ok(vec![Some(100)]));
}

#[test]
fn the_threads_of_a_run_are_set_up_in_order() {
    let run = run_in_threads(
        &config(),
        "tpcc",
        Action::Benchmarking,
        Some("reports/job-3".to_owned()),
        "-Dprops=/work/p",
        &ResultFormat::new("TOTAL", "avg"),
        Some(node(2, "10.0.0.5")),
        vec![node(0, "10.0.0.1"), node(1, "10.0.0.2")],
        vec![node(0, "10.0.0.8"), node(1, "10.0.0.9"), node(2, "10.0.0.8")],
    );
    assert_eq!(
        run.count,
        Orchestrator { threads: 6, clients: 3, reported: 0, client_done: 0, failed: false }
    );
    assert_eq!(run.servers.len(), 2);
    assert_eq!(run.clients.len(), 3);
    for (i, server) in run.servers.iter().enumerate() {
        assert_eq!(server.node().id(), i);
        assert!(!server.node().is_sequencer());
        assert_eq!(server.current_phase(), ServerPhase::Fresh);
    }
    assert_eq!(run.servers[1].node().ip(), "10.0.0.2");
    let sequencer = run.sequencer.as_ref().unwrap();
    assert!(sequencer.node().is_sequencer());
    assert_eq!(sequencer.node().id(), 2);
    assert_eq!(sequencer.node().ip(), "10.0.0.5");
    for (i, client) in run.clients.iter().enumerate() {
        assert_eq!(client.node().id(), i);
        assert_eq!(client.current_phase(), ClientPhase::Fresh);
    }
    assert_eq!(run.clients[1].node().ip(), "10.0.0.9");

    let run = run_in_threads(
        &config(),
        "tpcc",
        Action::Loading,
        None,
        "",
        &ResultFormat::new("TOTAL", "avg"),
        None,
        vec![node(0, "10.0.0.1")],
        vec![node(0, "10.0.0.8")],
    );
    assert_eq!(run.count.threads, 2);
    assert!(run.sequencer.is_none());
}

#[test]
fn the_arguments_of_the_settings_follow_those_of_the_run() {
    let mut run = run_in_threads(
        &config(),
        "tpcc",
        Action::Loading,
        None,
        "-Dprops=/work/p",
        &ResultFormat::new("TOTAL", "avg"),
        None,
        vec![],
        vec![node(0, "10.0.0.8")],
    );
    let client = &mut run.clients[0];
    let mut step = execute_client_thread(client, Event::Begin);
    let mut started = None;
    for _ in 0..10 {
        step = match step {
            Step::Rendezvous => execute_client_thread(client, Event::Released),
            Step::Run(auto_bencher::command::Request::Ssh { remote_cmd, .. })
                if remote_cmd.contains("-jar") =>
            {
                started = Some(remote_cmd);
                break;
            }
            Step::Run(_) => execute_client_thread(client, Event::Reply(Ok("".to_owned()))),
            other => panic!("unexpected step {:?}", other),
        };
    }
    assert_eq!(
        started.unwrap(),
        "/work/jdk/bin/java -Dprops=/work/p -Xmx1g -jar /work/benchmarker/client.jar 0 1 > /work/client-0.log 2>&1 &"
    );
}

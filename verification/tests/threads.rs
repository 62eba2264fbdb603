use auto_bencher::command::{Reply, Request};
use auto_bencher::config::{Config, Jdk, Machines, System};
use auto_bencher::connections::throughput::ResultFormat;
use auto_bencher::connections::{Action, ConnectionInfo};
use auto_bencher::error::BenchError;
use auto_bencher::threads::client::{
    create_client_thread, execute_client_thread, ClientPhase, ClientThread,
};
use auto_bencher::threads::server::{
    create_server_thread, execute_server_thread, ServerPhase, ServerThread,
};
use auto_bencher::threads::{Event, Step, ThreadResult, CHECKING_INTERVAL};

fn config() -> Config {
    Config {
        system: System { user_name: "bench".to_owned(), remote_work_dir: "/work".to_owned() },
        jdk: Jdk {
            use_custom_jdk: true,
            dir_name: "jdk".to_owned(),
            package_path: "pkg/jdk.tar.gz".to_owned(),
            jvm_args: "-Xmx1g".to_owned(),
            package_filename: "jdk.tar.gz".to_owned(),
            remote_java_bin: "/work/jdk/bin/java".to_owned(),
        },
        machines: Machines { all: vec![], sequencer: None, servers: vec![], clients: vec![] },
    }
}

fn server_thread(action: Action, is_sequencer: bool) -> ServerThread {
    let node = ConnectionInfo { id: 0, ip: "10.0.0.1".to_owned(), port: 30000 };
    create_server_thread(config(), node, "db".to_owned(), "-Da=b".to_owned(), is_sequencer, action)
}

fn client_thread(action: Action, report_dir: Option<&str>) -> ClientThread {
    let node = ConnectionInfo { id: 1, ip: "10.0.0.9".to_owned(), port: 30000 };
    create_client_thread(
        config(),
        node,
        "-Da=b".to_owned(),
        action,
        report_dir.map(|dir| dir.to_owned()),
        ResultFormat::new("TOTAL", "avg"),
    )
}

fn shell(ip: &str, cmd: &str) -> Step {
    Step::Run(Request::Ssh {
        user_name: "bench".to_owned(),
        ip: ip.to_owned(),
        remote_cmd: cmd.to_owned(),
    })
}

fn upload(ip: &str) -> Step {
    Step::Run(Request::Scp {
        is_dir: true,
        user_name: "bench".to_owned(),
        ip: ip.to_owned(),
        local_path: "benchmarker".to_owned(),
        remote_path: "/work".to_owned(),
    })
}

fn exit(code: i32) -> Reply {
    Err(BenchError::CommandFailedOnRemote("ip".to_owned(), "cmd".to_owned(), code, "".to_owned()))
}

fn fine() -> Event {
    Event::Reply(Ok("".to_owned()))
}

fn nothing() -> Event {
    Event::Reply(exit(1))
}

fn grep(ip: &str, keyword: &str, log: &str) -> Step {
    shell(ip, &format!("grep '{}' {}", keyword, log))
}

/// Answers the three searches for words of failure with "nothing found" and
/// gives the step after them.
fn clear_log(thread: &mut ServerThread, first: Step) -> Step {
    assert_eq!(first, grep("10.0.0.1", "Exception", "/work/server-0.log"));
    assert_eq!(
        execute_server_thread(thread, nothing()),
        grep("10.0.0.1", "error", "/work/server-0.log")
    );
    assert_eq!(
        execute_server_thread(thread, nothing()),
        grep("10.0.0.1", "SEVERE", "/work/server-0.log")
    );
    execute_server_thread(thread, nothing())
}

#[test]
fn a_server_goes_through_a_loading_run() {
    let mut thread = server_thread(Action::Loading, false);
    assert_eq!(thread.current_phase(), ServerPhase::Fresh);
    assert_eq!(execute_server_thread(&mut thread, Event::Begin), upload("10.0.0.1"));
    assert_eq!(thread.current_phase(), ServerPhase::StateReset);
    assert_eq!(
        execute_server_thread(&mut thread, fine()),
        shell("10.0.0.1", "rm -rf /work/databases/db-0")
    );
    assert_eq!(
        execute_server_thread(&mut thread, nothing()),
        shell("10.0.0.1", "rm -rf /work/databases/db-0-backup")
    );
    assert_eq!(thread.current_phase(), ServerPhase::StateReset);
    assert_eq!(execute_server_thread(&mut thread, nothing()), Step::Rendezvous);
    assert_eq!(thread.current_phase(), ServerPhase::AwaitingBarrier1);
    assert_eq!(
        execute_server_thread(&mut thread, Event::Released),
        shell(
            "10.0.0.1",
            "/work/jdk/bin/java -Da=b -jar /work/benchmarker/server.jar db-0 0 > /work/server-0.log 2>&1 &"
        )
    );
    assert_eq!(thread.current_phase(), ServerPhase::Starting);
    let step = execute_server_thread(&mut thread, fine());
    assert_eq!(thread.current_phase(), ServerPhase::AwaitingReady);
    let step = clear_log(&mut thread, step);
    assert_eq!(step, grep("10.0.0.1", "ElaSQL server ready", "/work/server-0.log"));
    assert_eq!(execute_server_thread(&mut thread, nothing()), Step::Sleep(CHECKING_INTERVAL));
    assert_eq!(thread.current_phase(), ServerPhase::ReadyPause);
    let step = execute_server_thread(&mut thread, Event::Woke);
    assert_eq!(thread.current_phase(), ServerPhase::AwaitingReady);
    let step = clear_log(&mut thread, step);
    assert_eq!(step, grep("10.0.0.1", "ElaSQL server ready", "/work/server-0.log"));
    assert_eq!(
        execute_server_thread(&mut thread, Event::Reply(Ok("ElaSQL server ready\n".to_owned()))),
        Step::Rendezvous
    );
    assert_eq!(thread.current_phase(), ServerPhase::AwaitingBarrier2);
    let step = execute_server_thread(&mut thread, Event::Released);
    assert_eq!(thread.current_phase(), ServerPhase::Running);
    let step = clear_log(&mut thread, step);
    assert_eq!(step, Step::Sleep(1));
    assert_eq!(thread.current_phase(), ServerPhase::RunningPause);
    assert_eq!(execute_server_thread(&mut thread, Event::Woke), Step::ReadStop);
    assert_eq!(thread.current_phase(), ServerPhase::RunningStop);
    let step = execute_server_thread(&mut thread, Event::Stop(Ok(false)));
    assert_eq!(thread.current_phase(), ServerPhase::Running);
    let step = clear_log(&mut thread, step);
    assert_eq!(step, Step::Sleep(1));
    assert_eq!(execute_server_thread(&mut thread, Event::Woke), Step::ReadStop);
    assert_eq!(
        execute_server_thread(&mut thread, Event::Stop(Ok(true))),
        shell("10.0.0.1", "cp -r /work/databases/db-0 /work/databases/db-0-backup")
    );
    assert_eq!(thread.current_phase(), ServerPhase::Stopped);
    assert_eq!(
        execute_server_thread(&mut thread, fine()),
        Step::Report(ThreadResult::ServerSucceed)
    );
    assert_eq!(thread.current_phase(), ServerPhase::Done);
    assert_eq!(thread.error(), &None);
    // at its end the thread stays there
    assert_eq!(
        execute_server_thread(&mut thread, Event::Woke),
        Step::Report(ThreadResult::ServerSucceed)
    );
    assert_eq!(thread.current_phase(), ServerPhase::Done);
}

fn bring_to_stop_check(thread: &mut ServerThread) {
    assert_eq!(execute_server_thread(thread, Event::Begin), upload("10.0.0.1"));
    loop {
        if execute_server_thread(thread, fine()) == Step::Rendezvous {
            break;
        }
    }
    execute_server_thread(thread, Event::Released);
    let mut step = execute_server_thread(thread, fine());
    for _ in 0..3 {
        assert!(matches!(step, Step::Run(_)));
        step = execute_server_thread(thread, nothing());
    }
    assert_eq!(execute_server_thread(thread, fine()), Step::Rendezvous);
    let step = execute_server_thread(thread, Event::Released);
    assert_eq!(clear_log(thread, step), Step::Sleep(1));
    assert_eq!(execute_server_thread(thread, Event::Woke), Step::ReadStop);
    assert_eq!(thread.current_phase(), ServerPhase::RunningStop);
}

#[test]
fn a_benchmarking_server_resets_its_database_and_saves_nothing() {
    let mut thread = server_thread(Action::Benchmarking, false);
    assert_eq!(execute_server_thread(&mut thread, Event::Begin), upload("10.0.0.1"));
    assert_eq!(
        execute_server_thread(&mut thread, fine()),
        shell("10.0.0.1", "rm -rf /work/databases/db-0")
    );
    assert_eq!(
        execute_server_thread(&mut thread, fine()),
        shell("10.0.0.1", "cp -r /work/databases/db-0-backup /work/databases/db-0")
    );
    assert_eq!(execute_server_thread(&mut thread, fine()), Step::Rendezvous);

    let mut thread = server_thread(Action::Benchmarking, false);
    bring_to_stop_check(&mut thread);
    assert_eq!(
        execute_server_thread(&mut thread, Event::Stop(Ok(true))),
        Step::Report(ThreadResult::ServerSucceed)
    );
    assert_eq!(thread.current_phase(), ServerPhase::Done);
}

#[test]
fn a_stop_ends_the_watch_without_another_search() {
    for (action, is_sequencer) in [
        (Action::Loading, false),
        (Action::Loading, true),
        (Action::Benchmarking, false),
        (Action::Benchmarking, true),
    ] {
        let mut thread = server_thread(action, is_sequencer);
        assert_eq!(execute_server_thread(&mut thread, Event::Begin), upload("10.0.0.1"));
        loop {
            if execute_server_thread(&mut thread, fine()) == Step::Rendezvous {
                break;
            }
        }
        execute_server_thread(&mut thread, Event::Released);
        execute_server_thread(&mut thread, fine());
        for _ in 0..3 {
            execute_server_thread(&mut thread, nothing());
        }
        assert_eq!(execute_server_thread(&mut thread, fine()), Step::Rendezvous);
        execute_server_thread(&mut thread, Event::Released);
        // one round of the watch: three searches, a sleep, the flag
        let mut searches = 0;
        loop {
            match execute_server_thread(&mut thread, nothing()) {
                Step::Run(_) => searches += 1,
                Step::Sleep(seconds) => {
                    assert_eq!(seconds, 1);
                    break;
                }
                other => panic!("unexpected step {:?}", other),
            }
        }
        assert_eq!(searches, 2);
        assert_eq!(execute_server_thread(&mut thread, Event::Woke), Step::ReadStop);
        let step = execute_server_thread(&mut thread, Event::Stop(Ok(true)));
        match step {
            Step::Report(ThreadResult::ServerSucceed) => {
                assert!(action == Action::Benchmarking || is_sequencer)
            }
            Step::Run(Request::Ssh { remote_cmd, .. }) => {
                assert!(action == Action::Loading && !is_sequencer);
                assert!(remote_cmd.starts_with("cp -r "));
            }
            other => panic!("unexpected step {:?}", other),
        }
        assert!(thread.current_phase() != ServerPhase::Running);
    }
}

#[test]
fn the_sequencer_has_no_database() {
    let mut thread = server_thread(Action::Benchmarking, true);
    assert_eq!(execute_server_thread(&mut thread, Event::Begin), upload("10.0.0.1"));
    assert_eq!(
        execute_server_thread(&mut thread, fine()),
        shell("10.0.0.1", "rm -rf /work/databases/db-seq")
    );
    assert_eq!(execute_server_thread(&mut thread, fine()), Step::Rendezvous);
    assert_eq!(
        execute_server_thread(&mut thread, Event::Released),
        shell(
            "10.0.0.1",
            "/work/jdk/bin/java -Da=b -jar /work/benchmarker/server.jar db-seq 0 1 > /work/server-seq.log 2>&1 &"
        )
    );
}

#[test]
fn a_failed_command_ends_the_thread_as_failed() {
    let mut thread = server_thread(Action::Loading, false);
    execute_server_thread(&mut thread, Event::Begin);
    assert_eq!(
        execute_server_thread(&mut thread, Event::Reply(exit(1))),
        Step::Report(ThreadResult::Failed)
    );
    assert_eq!(thread.current_phase(), ServerPhase::Failed);
    assert_eq!(thread.error(), &Some(exit(1).unwrap_err()));
    // it stays failed, with the failure it had
    assert_eq!(execute_server_thread(&mut thread, fine()), Step::Report(ThreadResult::Failed));
    assert_eq!(thread.error(), &Some(exit(1).unwrap_err()));
}

#[test]
fn a_word_of_failure_during_the_watch_fails_the_server() {
    let mut thread = server_thread(Action::Benchmarking, false);
    bring_to_stop_check(&mut thread);
    execute_server_thread(&mut thread, Event::Stop(Ok(false)));
    execute_server_thread(&mut thread, nothing());
    assert_eq!(
        execute_server_thread(&mut thread, Event::Reply(Ok("error: disk\n".to_owned()))),
        Step::Report(ThreadResult::Failed)
    );
    assert_eq!(
        thread.error(),
        &Some(BenchError::Message("Server 0 error: error: disk\n".to_owned()))
    );
}

#[test]
fn a_poisoned_lock_fails_the_server() {
    let mut thread = server_thread(Action::Benchmarking, false);
    bring_to_stop_check(&mut thread);
    let poisoned = BenchError::Message("PoisonError".to_owned());
    assert_eq!(
        execute_server_thread(&mut thread, Event::Stop(Err(poisoned.clone()))),
        Step::Report(ThreadResult::Failed)
    );
    assert_eq!(thread.error(), &Some(poisoned));
}

#[test]
fn an_event_out_of_turn_fails_the_thread() {
    let mut thread = server_thread(Action::Loading, false);
    assert_eq!(
        execute_server_thread(&mut thread, Event::Released),
        Step::Report(ThreadResult::Failed)
    );
    assert_eq!(thread.error(), &Some(BenchError::Message("an event came out of turn".to_owned())));
    let mut thread = server_thread(Action::Loading, false);
    execute_server_thread(&mut thread, Event::Begin);
    assert_eq!(
        execute_server_thread(&mut thread, Event::Stop(Ok(true))),
        Step::Report(ThreadResult::Failed)
    );
    let mut thread = client_thread(Action::Loading, None);
    assert_eq!(execute_client_thread(&mut thread, fine()), Step::Report(ThreadResult::Failed));
    assert_eq!(thread.current_phase(), ClientPhase::Failed);
    let mut thread = client_thread(Action::Loading, None);
    execute_client_thread(&mut thread, Event::Begin);
    assert_eq!(
        execute_client_thread(&mut thread, Event::Stop(Ok(true))),
        Step::Report(ThreadResult::Failed)
    );
}

fn client_to_running(thread: &mut ClientThread, code: &str) -> Step {
    assert_eq!(thread.current_phase(), ClientPhase::Fresh);
    assert_eq!(
        execute_client_thread(thread, Event::Begin),
        shell("10.0.0.9", "rm -r /work/results")
    );
    assert_eq!(thread.current_phase(), ClientPhase::CleanResults);
    assert_eq!(execute_client_thread(thread, nothing()), upload("10.0.0.9"));
    assert_eq!(execute_client_thread(thread, fine()), Step::Rendezvous);
    assert_eq!(thread.current_phase(), ClientPhase::AwaitingBarrier1);
    assert_eq!(execute_client_thread(thread, Event::Released), Step::Rendezvous);
    assert_eq!(thread.current_phase(), ClientPhase::AwaitingBarrier2);
    assert_eq!(
        execute_client_thread(thread, Event::Released),
        shell(
            "10.0.0.9",
            &format!(
                "/work/jdk/bin/java -Da=b -jar /work/benchmarker/client.jar 1 {} > /work/client-1.log 2>&1 &",
                code
            )
        )
    );
    assert_eq!(thread.current_phase(), ClientPhase::Starting);
    let step = execute_client_thread(thread, fine());
    assert_eq!(thread.current_phase(), ClientPhase::Running);
    step
}

fn clear_client_log(thread: &mut ClientThread, first: Step) -> Step {
    assert_eq!(first, grep("10.0.0.9", "Exception", "/work/client-1.log"));
    assert_eq!(
        execute_client_thread(thread, nothing()),
        grep("10.0.0.9", "error", "/work/client-1.log")
    );
    assert_eq!(
        execute_client_thread(thread, nothing()),
        grep("10.0.0.9", "SEVERE", "/work/client-1.log")
    );
    execute_client_thread(thread, nothing())
}

#[test]
fn a_client_goes_through_a_benchmarking_run() {
    let mut thread = client_thread(Action::Benchmarking, Some("reports/job-0"));
    let step = client_to_running(&mut thread, "2");
    let step = clear_client_log(&mut thread, step);
    assert_eq!(step, grep("10.0.0.9", "benchmark process finished.", "/work/client-1.log"));
    assert_eq!(execute_client_thread(&mut thread, nothing()), Step::Sleep(CHECKING_INTERVAL));
    assert_eq!(thread.current_phase(), ClientPhase::RunningPause);
    let step = execute_client_thread(&mut thread, Event::Woke);
    assert_eq!(thread.current_phase(), ClientPhase::Running);
    let step = clear_client_log(&mut thread, step);
    assert_eq!(step, grep("10.0.0.9", "benchmark process finished.", "/work/client-1.log"));
    assert_eq!(
        execute_client_thread(&mut thread, Event::Reply(Ok("benchmark process finished.".to_owned()))),
        shell("10.0.0.9", "ls /work/results | grep '1[.]csv'")
    );
    assert_eq!(thread.current_phase(), ClientPhase::Completed);
    assert_eq!(
        execute_client_thread(&mut thread, Event::Reply(Ok("tpcc-1.csv".to_owned()))),
        Step::Run(Request::ScpFrom {
            is_dir: false,
            user_name: "bench".to_owned(),
            ip: "10.0.0.9".to_owned(),
            remote_path: "/work/results/tpcc-1.csv".to_owned(),
            local_path: "reports/job-0".to_owned(),
        })
    );
    assert_eq!(
        execute_client_thread(&mut thread, fine()),
        shell("10.0.0.9", "grep 'TOTAL' /work/results/*-1.txt")
    );
    assert_eq!(thread.measured(), None);
    assert_eq!(
        execute_client_thread(
            &mut thread,
            Event::Reply(Ok("TOTAL 12345 avg latency: 12 ms\n".to_owned()))
        ),
        Step::Report(ThreadResult::ClientSucceed(Some(12345)))
    );
    assert_eq!(thread.current_phase(), ClientPhase::Done);
    assert_eq!(thread.measured(), Some(12345));
    assert_eq!(
        execute_client_thread(&mut thread, Event::Woke),
        Step::Report(ThreadResult::ClientSucceed(Some(12345)))
    );
    assert_eq!(thread.measured(), Some(12345));
}

#[test]
fn a_loading_client_measures_nothing() {
    let mut thread = client_thread(Action::Loading, None);
    let step = client_to_running(&mut thread, "1");
    let step = clear_client_log(&mut thread, step);
    assert_eq!(step, grep("10.0.0.9", "loading procedure finished.", "/work/client-1.log"));
    assert_eq!(
        execute_client_thread(&mut thread, Event::Reply(Ok("loading procedure finished.".to_owned()))),
        Step::Report(ThreadResult::ClientSucceed(None))
    );
    assert_eq!(thread.current_phase(), ClientPhase::Done);
    assert_eq!(thread.measured(), None);
    assert_eq!(thread.error(), &None);
}

#[test]
fn a_benchmarking_client_needs_a_place_for_its_results() {
    let mut thread = client_thread(Action::Benchmarking, None);
    let step = client_to_running(&mut thread, "2");
    clear_client_log(&mut thread, step);
    assert_eq!(
        execute_client_thread(&mut thread, Event::Reply(Ok("benchmark process finished.".to_owned()))),
        Step::Report(ThreadResult::Failed)
    );
    assert_eq!(
        thread.error(),
        &Some(BenchError::Message("no directory for the results is given".to_owned()))
    );
}

#[test]
fn a_result_that_cannot_be_read_fails_the_client() {
    let mut thread = client_thread(Action::Benchmarking, Some("reports/job-0"));
    let step = client_to_running(&mut thread, "2");
    clear_client_log(&mut thread, step);
    execute_client_thread(&mut thread, Event::Reply(Ok("benchmark process finished.".to_owned())));
    execute_client_thread(&mut thread, Event::Reply(Ok("tpcc-1.csv".to_owned())));
    execute_client_thread(&mut thread, fine());
    assert_eq!(
        execute_client_thread(&mut thread, Event::Reply(Ok("TOTAL many avg".to_owned()))),
        Step::Report(ThreadResult::Failed)
    );
    assert_eq!(thread.error(), &Some(BenchError::ParseIntError("many".to_owned())));
    assert_eq!(thread.measured(), None);
}

#[test]
fn a_word_of_failure_fails_the_client() {
    let mut thread = client_thread(Action::Loading, None);
    let step = client_to_running(&mut thread, "1");
    assert!(matches!(step, Step::Run(_)));
    assert_eq!(
        execute_client_thread(&mut thread, Event::Reply(Ok("Exception\n".to_owned()))),
        Step::Report(ThreadResult::Failed)
    );
    assert_eq!(
        thread.error(),
        &Some(BenchError::Message("Client 1 error: Exception\n".to_owned()))
    );
    assert_eq!(thread.node().id(), 1);
}

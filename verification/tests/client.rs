use auto_bencher::command::{Reply, Request};
use auto_bencher::config::{Config, Jdk, Machines, System};
use auto_bencher::connections::throughput::ResultFormat;
use auto_bencher::connections::{Action, Client, ConnectionInfo};
use auto_bencher::error::BenchError;
use auto_bencher::replay::{Halt, Tape};

fn config() -> Config {
    Config {
        system: System { user_name: "bench".to_owned(), remote_work_dir: "/work".to_owned() },
        jdk: Jdk {
            use_custom_jdk: true,
            dir_name: "jdk".to_owned(),
            package_path: "pkg/jdk.tar.gz".to_owned(),
            jvm_args: "-Xmx1g".to_owned(),
            package_filename: "jdk.tar.gz".to_owned(),
            remote_java_bin: "/work/jdk/bin/java".to_owned(),
        },
        machines: Machines { all: vec![], sequencer: None, servers: vec![], clients: vec![] },
    }
}

fn client() -> Client {
    let node = ConnectionInfo { id: 3, ip: "10.0.0.9".to_owned(), port: 30001 };
    Client::new(config(), node, "-Dx=y".to_owned())
}

fn shell(cmd: &str) -> Halt {
    Halt::Ask(Request::Ssh {
        user_name: "bench".to_owned(),
        ip: "10.0.0.9".to_owned(),
        remote_cmd: cmd.to_owned(),
    })
}

fn exit(code: i32) -> Reply {
    Err(BenchError::CommandFailedOnRemote(
        "10.0.0.9".to_owned(),
        "cmd".to_owned(),
        code,
        "".to_owned(),
    ))
}

fn fine() -> Reply {
    Ok("".to_owned())
}

fn total_avg() -> ResultFormat {
    ResultFormat::new("TOTAL", "avg")
}

#[test]
fn a_client_knows_itself() {
    assert_eq!(client().id(), 3);
    assert_eq!(client().ip(), "10.0.0.9");
}

#[test]
fn earlier_results_are_deleted_if_there_are_any() {
    let none: Vec<Reply> = vec![];
    assert_eq!(
        client().clean_previous_results(&mut Tape::new(&none)),
        Err(shell("rm -r /work/results"))
    );
    let nothing_there: Vec<Reply> = vec![exit(1)];
    assert_eq!(client().clean_previous_results(&mut Tape::new(&nothing_there)), Ok(()));
    let deleted: Vec<Reply> = vec![fine()];
    assert_eq!(client().clean_previous_results(&mut Tape::new(&deleted)), Ok(()));
    let broken: Vec<Reply> = vec![exit(2)];
    assert!(matches!(
        client().clean_previous_results(&mut Tape::new(&broken)),
        Err(Halt::Fail(BenchError::CommandFailedOnRemote(_, _, 2, _)))
    ));
}

#[test]
fn the_benchmarker_is_copied_to_the_client() {
    let none: Vec<Reply> = vec![];
    assert_eq!(
        client().send_bench_dir(&mut Tape::new(&none)),
        Err(Halt::Ask(Request::Scp {
            is_dir: true,
            user_name: "bench".to_owned(),
            ip: "10.0.0.9".to_owned(),
            local_path: "benchmarker".to_owned(),
            remote_path: "/work".to_owned(),
        }))
    );
    let failed: Vec<Reply> = vec![exit(1)];
    assert!(matches!(client().send_bench_dir(&mut Tape::new(&failed)), Err(Halt::Fail(_))));
}

#[test]
fn the_client_is_started_with_its_number_and_its_job() {
    let none: Vec<Reply> = vec![];
    assert_eq!(
        client().start(Action::Benchmarking, &mut Tape::new(&none)),
        Err(shell(
            "/work/jdk/bin/java -Dx=y -jar /work/benchmarker/client.jar 3 2 > /work/client-3.log 2>&1 &"
        ))
    );
    assert_eq!(
        client().start(Action::Loading, &mut Tape::new(&none)),
        Err(shell(
            "/work/jdk/bin/java -Dx=y -jar /work/benchmarker/client.jar 3 1 > /work/client-3.log 2>&1 &"
        ))
    );
    assert_eq!(Action::Loading.as_int(), 1);
    assert_eq!(Action::Benchmarking.as_int(), 2);
    let started: Vec<Reply> = vec![fine()];
    assert_eq!(client().start(Action::Loading, &mut Tape::new(&started)), Ok(()));
}

#[test]
fn the_end_of_the_job_is_looked_for_in_the_log() {
    let mut replies: Vec<Reply> = vec![];
    for keyword in ["Exception", "error", "SEVERE", "benchmark process finished."] {
        assert_eq!(
            client().check_for_finished(Action::Benchmarking, &mut Tape::new(&replies)),
            Err(shell(&format!("grep '{}' /work/client-3.log", keyword)))
        );
        replies.push(exit(1));
    }
    assert_eq!(client().check_for_finished(Action::Benchmarking, &mut Tape::new(&replies)), Ok(false));
    replies[3] = Ok("benchmark process finished.\n".to_owned());
    assert_eq!(client().check_for_finished(Action::Benchmarking, &mut Tape::new(&replies)), Ok(true));
    replies[3] = exit(2);
    assert!(matches!(
        client().check_for_finished(Action::Benchmarking, &mut Tape::new(&replies)),
        Err(Halt::Fail(BenchError::CommandFailedOnRemote(_, _, 2, _)))
    ));
    let clear: Vec<Reply> = vec![exit(1), exit(1), exit(1)];
    assert_eq!(
        client().check_for_finished(Action::Loading, &mut Tape::new(&clear)),
        Err(shell("grep 'loading procedure finished.' /work/client-3.log"))
    );
}

#[test]
fn a_word_of_failure_in_the_clients_log_is_a_failure() {
    let first: Vec<Reply> = vec![Ok("Exception in thread\n".to_owned())];
    assert_eq!(
        client().check_for_finished(Action::Loading, &mut Tape::new(&first)),
        Err(Halt::Fail(BenchError::Message("Client 3 error: Exception in thread\n".to_owned())))
    );
    let third: Vec<Reply> = vec![exit(1), exit(1), Ok("SEVERE".to_owned()), fine()];
    assert_eq!(
        client().check_for_finished(Action::Loading, &mut Tape::new(&third)),
        Err(Halt::Fail(BenchError::Message("Client 3 error: SEVERE".to_owned())))
    );
    let broken: Vec<Reply> = vec![exit(3)];
    assert!(matches!(
        client().check_for_finished(Action::Loading, &mut Tape::new(&broken)),
        Err(Halt::Fail(BenchError::CommandFailedOnRemote(_, _, 3, _)))
    ));
}

#[test]
fn the_file_of_results_is_looked_up_and_fetched() {
    let none: Vec<Reply> = vec![];
    assert_eq!(
        client().pull_csv("reports/job-0", &mut Tape::new(&none)),
        Err(shell("ls /work/results | grep '3[.]csv'"))
    );
    let listed: Vec<Reply> = vec![Ok("tpcc-3.csv".to_owned())];
    assert_eq!(
        client().pull_csv("reports/job-0", &mut Tape::new(&listed)),
        Err(Halt::Ask(Request::ScpFrom {
            is_dir: false,
            user_name: "bench".to_owned(),
            ip: "10.0.0.9".to_owned(),
            remote_path: "/work/results/tpcc-3.csv".to_owned(),
            local_path: "reports/job-0".to_owned(),
        }))
    );
    let fetched: Vec<Reply> = vec![Ok("tpcc-3.csv".to_owned()), fine()];
    assert_eq!(client().pull_csv("reports/job-0", &mut Tape::new(&fetched)), Ok(()));
    let nothing: Vec<Reply> = vec![Ok("".to_owned())];
    assert_eq!(
        client().pull_csv("reports/job-0", &mut Tape::new(&nothing)),
        Err(Halt::Fail(BenchError::Message("cannot find the csv file on 10.0.0.9".to_owned())))
    );
    let no_match: Vec<Reply> = vec![exit(1)];
    assert!(matches!(
        client().pull_csv("reports/job-0", &mut Tape::new(&no_match)),
        Err(Halt::Fail(BenchError::CommandFailedOnRemote(_, _, 1, _)))
    ));
    let lost: Vec<Reply> =
        vec![Ok("a.csv".to_owned()), Err(BenchError::FileNotFound("x".to_owned()))];
    assert_eq!(
        client().pull_csv("reports/job-0", &mut Tape::new(&lost)),
        Err(Halt::Fail(BenchError::FileNotFound("x".to_owned())))
    );
}

#[test]
fn the_total_throughput_is_read_from_the_result_file() {
    let none: Vec<Reply> = vec![];
    assert_eq!(
        client().get_total_throughput(&total_avg(), &mut Tape::new(&none)),
        Err(shell("grep 'TOTAL' /work/results/*-3.txt"))
    );
    let found: Vec<Reply> = vec![Ok("TOTAL 12345 avg latency: 12 ms\n".to_owned())];
    assert_eq!(client().get_total_throughput(&total_avg(), &mut Tape::new(&found)), Ok(12345));
    let other = ResultFormat::new("COMMITTED:", "txs");
    assert_eq!(
        client().get_total_throughput(&other, &mut Tape::new(&none)),
        Err(shell("grep 'COMMITTED:' /work/results/*-3.txt"))
    );
    let found: Vec<Reply> = vec![Ok("COMMITTED: 77 txs".to_owned())];
    assert_eq!(client().get_total_throughput(&other, &mut Tape::new(&found)), Ok(77));
    let no_match: Vec<Reply> = vec![exit(1)];
    assert!(matches!(
        client().get_total_throughput(&total_avg(), &mut Tape::new(&no_match)),
        Err(Halt::Fail(BenchError::CommandFailedOnRemote(_, _, 1, _)))
    ));
    let cut: Vec<Reply> = vec![Ok("TOTAL 12345".to_owned())];
    assert_eq!(
        client().get_total_throughput(&total_avg(), &mut Tape::new(&cut)),
        Err(Halt::Fail(BenchError::Message("cannot parse result file: TOTAL 12345".to_owned())))
    );
}

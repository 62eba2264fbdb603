use auto_bencher::command::{
    cp, ls, output_into_string, scp, scp_from, ssh, ProcessOutput, Request,
};
use auto_bencher::error::BenchError;

fn ended(code: Option<i32>, stdout: &str, stderr: &str) -> ProcessOutput {
    ProcessOutput { code, stdout: stdout.as_bytes().to_vec(), stderr: stderr.as_bytes().to_vec() }
}

#[test]
fn code_zero_gives_the_output() {
    let reply = output_into_string("ls /tmp".to_owned(), ended(Some(0), "a\nb\n", "ignored"));
    assert_eq!(reply, Ok("a\nb\n".to_owned()));
}

#[test]
fn output_is_decoded_as_utf8() {
    let output = ProcessOutput { code: Some(0), stdout: vec![0xc3, 0xa9, 0x21], stderr: vec![] };
    assert_eq!(output_into_string("echo".to_owned(), output), Ok("\u{e9}!".to_owned()));
}

#[test]
fn code_127_is_a_missing_command() {
    let reply = output_into_string("nope".to_owned(), ended(Some(127), "", "not found"));
    assert_eq!(reply, Err(BenchError::NoSuchCommand("nope".to_owned())));
}

#[test]
fn another_code_is_a_failed_command() {
    let reply = output_into_string("grep x f".to_owned(), ended(Some(3), "out", "bad"));
    assert_eq!(reply, Err(BenchError::CommandFailed("grep x f".to_owned(), 3, "bad".to_owned())));
    let reply = output_into_string("c".to_owned(), ended(Some(-1), "", ""));
    assert_eq!(reply, Err(BenchError::CommandFailed("c".to_owned(), -1, "".to_owned())));
}

#[test]
fn no_code_is_a_signal() {
    let reply = output_into_string("sleep 9".to_owned(), ended(None, "", ""));
    assert_eq!(reply, Err(BenchError::CommandKilledBySingal("sleep 9".to_owned())));
}

#[test]
fn output_that_is_no_utf8_is_a_failure() {
    let output = ProcessOutput { code: Some(0), stdout: vec![0xff, 0xfe], stderr: vec![] };
    assert_eq!(
        output_into_string("cat f".to_owned(), output),
        Err(BenchError::ParseUtf8Error("cat f".to_owned()))
    );
    let output = ProcessOutput { code: Some(1), stdout: vec![], stderr: vec![0xc3] };
    assert_eq!(
        output_into_string("cat g".to_owned(), output),
        Err(BenchError::ParseUtf8Error("cat g".to_owned()))
    );
    // with code 127 the error stream is not read
    let output = ProcessOutput { code: Some(127), stdout: vec![], stderr: vec![0xff] };
    assert_eq!(
        output_into_string("x".to_owned(), output),
        Err(BenchError::NoSuchCommand("x".to_owned()))
    );
}

#[test]
fn ssh_is_made_of_account_and_command() {
    let request = ssh("bench", "10.0.0.1", "ls -l /work");
    assert_eq!(
        request,
        Request::Ssh {
            user_name: "bench".to_owned(),
            ip: "10.0.0.1".to_owned(),
            remote_cmd: "ls -l /work".to_owned()
        }
    );
    assert_eq!(request.program(), "ssh");
    assert_eq!(request.arguments(), vec!["bench@10.0.0.1".to_owned(), "ls -l /work".to_owned()]);
}

#[test]
fn scp_names_the_remote_place() {
    let up = scp(true, "bench", "10.0.0.1", "benchmarker", "/work");
    assert_eq!(up.program(), "scp");
    assert_eq!(
        up.arguments(),
        vec!["-r".to_owned(), "benchmarker".to_owned(), "bench@10.0.0.1:/work".to_owned()]
    );
    let file = scp(false, "bench", "10.0.0.1", "jdk.tar.gz", "/work");
    assert_eq!(
        file.arguments(),
        vec!["jdk.tar.gz".to_owned(), "bench@10.0.0.1:/work".to_owned()]
    );
    let down = scp_from(false, "bench", "10.0.0.2", "/work/results/a.csv", "reports/job-0");
    assert_eq!(down.program(), "scp");
    assert_eq!(
        down.arguments(),
        vec!["bench@10.0.0.2:/work/results/a.csv".to_owned(), "reports/job-0".to_owned()]
    );
}

#[test]
fn cp_and_ls_run_here() {
    let copy = cp(false, "jars/x/server.jar", "benchmarker");
    assert_eq!(copy.program(), "cp");
    assert_eq!(copy.arguments(), vec!["jars/x/server.jar".to_owned(), "benchmarker".to_owned()]);
    let tree = cp(true, "a", "b");
    assert_eq!(tree.arguments(), vec!["-r".to_owned(), "a".to_owned(), "b".to_owned()]);
    let list = ls("jars/x/server.jar");
    assert_eq!(list.program(), "ls");
    assert_eq!(list.arguments(), vec!["jars/x/server.jar".to_owned()]);
}

#[test]
fn ssh_marks_failures_as_remote() {
    let request = ssh("bench", "10.0.0.1", "grep x log");
    assert_eq!(
        request.reply("ssh ...".to_owned(), ended(Some(1), "", "")),
        Err(BenchError::CommandFailedOnRemote(
            "10.0.0.1".to_owned(),
            "ssh ...".to_owned(),
            1,
            "".to_owned()
        ))
    );
    assert_eq!(
        request.reply("ssh ...".to_owned(), ended(Some(127), "", "")),
        Err(BenchError::NoSuchCommandOnRemote("10.0.0.1".to_owned(), "ssh ...".to_owned()))
    );
    assert_eq!(
        request.reply("ssh ...".to_owned(), ended(None, "", "")),
        Err(BenchError::CommandKilledBySingal("ssh ...".to_owned()))
    );
    assert_eq!(
        request.reply("ssh ...".to_owned(), ended(Some(0), "line\n", "")),
        Ok("line\n".to_owned())
    );
    // code 2 has no meaning of its own for a shell command
    assert_eq!(
        request.reply("ssh ...".to_owned(), ended(Some(2), "", "e")),
        Err(BenchError::CommandFailedOnRemote(
            "10.0.0.1".to_owned(),
            "ssh ...".to_owned(),
            2,
            "e".to_owned()
        ))
    );
}

#[test]
fn a_copy_that_finds_nothing_names_the_source() {
    let up = scp(true, "bench", "10.0.0.1", "benchmarker", "/work");
    assert_eq!(
        up.reply("scp ...".to_owned(), ended(Some(2), "", "no")),
        Err(BenchError::FileNotFound("benchmarker".to_owned()))
    );
    assert_eq!(
        up.reply("scp ...".to_owned(), ended(Some(1), "", "denied")),
        Err(BenchError::CommandFailedOnRemote(
            "10.0.0.1".to_owned(),
            "scp ...".to_owned(),
            1,
            "denied".to_owned()
        ))
    );
    let down = scp_from(false, "bench", "10.0.0.1", "/work/r.csv", "here");
    assert_eq!(
        down.reply("scp ...".to_owned(), ended(Some(2), "", "no")),
        Err(BenchError::FileNotFound("/work/r.csv".to_owned()))
    );
    let copy = cp(false, "jars/x/server.jar", "benchmarker");
    assert_eq!(
        copy.reply("cp ...".to_owned(), ended(Some(2), "", "no")),
        Err(BenchError::FileNotFound("jars/x/server.jar".to_owned()))
    );
    assert_eq!(
        copy.reply("cp ...".to_owned(), ended(Some(1), "", "no")),
        Err(BenchError::CommandFailed("cp ...".to_owned(), 1, "no".to_owned()))
    );
    assert_eq!(copy.reply("cp ...".to_owned(), ended(Some(0), "", "")), Ok("".to_owned()));
}

#[test]
fn a_listing_knows_a_missing_file_by_code_or_by_words() {
    let list = ls("jdk.tar.gz");
    assert_eq!(
        list.reply("ls ...".to_owned(), ended(Some(2), "", "whatever")),
        Err(BenchError::FileNotFound("jdk.tar.gz".to_owned()))
    );
    assert_eq!(
        list.reply(
            "ls ...".to_owned(),
            ended(Some(1), "", "ls: jdk.tar.gz: No such file or directory\n")
        ),
        Err(BenchError::FileNotFound("jdk.tar.gz".to_owned()))
    );
    assert_eq!(
        list.reply("ls ...".to_owned(), ended(Some(1), "", "ls: permission denied")),
        Err(BenchError::CommandFailed(
            "ls ...".to_owned(),
            1,
            "ls: permission denied".to_owned()
        ))
    );
    assert_eq!(
        list.reply("ls ...".to_owned(), ended(Some(127), "", "No such file or directory")),
        Err(BenchError::NoSuchCommand("ls ...".to_owned()))
    );
    assert_eq!(
        list.reply("ls ...".to_owned(), ended(Some(0), "jdk.tar.gz\n", "")),
        Ok("jdk.tar.gz\n".to_owned())
    );
}

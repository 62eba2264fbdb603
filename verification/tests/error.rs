use auto_bencher::error::BenchError;

#[test]
fn a_local_failure_becomes_remote() {
    assert_eq!(
        BenchError::NoSuchCommand("java".to_owned()).as_remote_if_possible("10.0.0.1"),
        BenchError::NoSuchCommandOnRemote("10.0.0.1".to_owned(), "java".to_owned())
    );
    assert_eq!(
        BenchError::CommandFailed("rm x".to_owned(), 1, "no".to_owned())
            .as_remote_if_possible("10.0.0.1"),
        BenchError::CommandFailedOnRemote(
            "10.0.0.1".to_owned(),
            "rm x".to_owned(),
            1,
            "no".to_owned()
        )
    );
}

#[test]
fn other_failures_stay_as_they_are() {
    assert_eq!(
        BenchError::FileNotFound("p".to_owned()).as_remote_if_possible("10.0.0.1"),
        BenchError::FileNotFound("p".to_owned())
    );
    assert_eq!(
        BenchError::CommandKilledBySingal("c".to_owned()).as_remote_if_possible("10.0.0.1"),
        BenchError::CommandKilledBySingal("c".to_owned())
    );
    assert_eq!(
        BenchError::IoError("broken pipe".to_owned()).as_remote_if_possible("10.0.0.1"),
        BenchError::IoError("broken pipe".to_owned())
    );
    assert_eq!(
        BenchError::NoSuchCommandOnRemote("a".to_owned(), "c".to_owned())
            .as_remote_if_possible("b"),
        BenchError::NoSuchCommandOnRemote("a".to_owned(), "c".to_owned())
    );
}

#[test]
fn remote_exit_codes_are_told_apart() {
    let failed =
        BenchError::CommandFailedOnRemote("ip".to_owned(), "c".to_owned(), 1, "".to_owned());
    assert!(failed.is_remote_exit(1));
    assert!(!failed.is_remote_exit(2));
    assert!(!BenchError::CommandFailed("c".to_owned(), 1, "".to_owned()).is_remote_exit(1));
    assert!(!BenchError::Message("m".to_owned()).is_remote_exit(1));
}

#[test]
fn failures_in_words() {
    assert_eq!(
        BenchError::CommandFailed("cp a b".to_owned(), 1, "denied".to_owned()).to_string(),
        "command 'cp a b' fails with return code 1.\nError message: denied"
    );
    assert_eq!(
        BenchError::CommandFailed("x".to_owned(), -7, "".to_owned()).to_string(),
        "command 'x' fails with return code -7.\nError message: "
    );
    assert_eq!(
        BenchError::CommandFailed("x".to_owned(), i32::MIN, "".to_owned()).to_string(),
        "command 'x' fails with return code -2147483648.\nError message: "
    );
    assert_eq!(
        BenchError::FileNotFound("jars/a.jar".to_owned()).to_string(),
        "file not found: 'jars/a.jar'"
    );
    assert_eq!(BenchError::Message("plain words".to_owned()).to_string(), "plain words");
}

#[test]
fn other_failures_are_shown_with_their_name() {
    assert_eq!(
        BenchError::NoSuchCommand("java".to_owned()).to_string(),
        "NoSuchCommand(\"java\")"
    );
    assert_eq!(
        BenchError::CommandFailedOnRemote("ip".to_owned(), "c".to_owned(), 2, "e".to_owned())
            .to_string(),
        "CommandFailedOnRemote(\"ip\", \"c\", 2, \"e\")"
    );
}

#[test]
fn a_copy_of_a_failure_is_the_same_failure() {
    let failure = BenchError::CommandFailedOnRemote(
        "ip".to_owned(),
        "cmd".to_owned(),
        3,
        "stderr".to_owned(),
    );
    assert_eq!(failure.clone(), failure);
    let failure = BenchError::ParseIntError("12x".to_owned());
    assert_eq!(failure.clone(), failure);
}

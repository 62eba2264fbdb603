use auto_bencher::command::{ssh, Reply, Request};
use auto_bencher::error::BenchError;
use auto_bencher::replay::{probe, read_lenient, read_strict, Halt, Probe, Tape};

fn exit(code: i32) -> BenchError {
    BenchError::CommandFailedOnRemote("10.0.0.1".to_owned(), "cmd".to_owned(), code, "".to_owned())
}

fn request() -> Request {
    ssh("bench", "10.0.0.1", "rm -rf /work/databases/db")
}

#[test]
fn a_search_is_read_three_ways() {
    assert_eq!(probe(Ok("a line\n".to_owned())), Probe::Found("a line\n".to_owned()));
    assert_eq!(probe(Err(exit(1))), Probe::NotFound);
    assert_eq!(probe(Err(exit(2))), Probe::Error(exit(2)));
    assert_eq!(
        probe(Err(BenchError::CommandFailed("grep".to_owned(), 1, "".to_owned()))),
        Probe::Error(BenchError::CommandFailed("grep".to_owned(), 1, "".to_owned()))
    );
    assert_eq!(
        probe(Err(BenchError::IoError("no ssh".to_owned()))),
        Probe::Error(BenchError::IoError("no ssh".to_owned()))
    );
}

#[test]
fn nothing_to_remove_is_no_failure() {
    assert_eq!(read_lenient(Err(exit(1))), Ok(()));
    assert_eq!(read_lenient(Ok("".to_owned())), Ok(()));
    assert_eq!(read_lenient(Err(exit(2))), Err(exit(2)));
    assert_eq!(
        read_lenient(Err(BenchError::NoSuchCommandOnRemote("ip".to_owned(), "rm".to_owned()))),
        Err(BenchError::NoSuchCommandOnRemote("ip".to_owned(), "rm".to_owned()))
    );
    // a strict reading forgives nothing
    assert_eq!(read_strict(Err(exit(1))), Err(exit(1)));
    assert_eq!(read_strict(Ok("x".to_owned())), Ok(()));
}

#[test]
fn a_tape_hands_out_the_replies_in_order() {
    let replies: Vec<Reply> = vec![Ok("one".to_owned()), Err(exit(1))];
    let mut tape = Tape::new(&replies);
    assert_eq!(tape.ask(request()), Ok(Ok("one".to_owned())));
    assert_eq!(tape.next, 1);
    assert_eq!(tape.ask(request()), Ok(Err(exit(1))));
    assert_eq!(tape.next, 2);
    assert_eq!(tape.ask(request()), Err(Halt::Ask(request())));
    assert_eq!(tape.next, 2);
    assert_eq!(tape.ask(request()), Err(Halt::Ask(request())));
}

#[test]
fn a_command_on_a_tape() {
    let none: Vec<Reply> = vec![];
    assert_eq!(Tape::new(&none).command(request(), true), Err(Halt::Ask(request())));
    let gone: Vec<Reply> = vec![Err(exit(1))];
    assert_eq!(Tape::new(&gone).command(request(), true), Ok(()));
    assert_eq!(Tape::new(&gone).command(request(), false), Err(Halt::Fail(exit(1))));
    let broken: Vec<Reply> = vec![Err(exit(2))];
    assert_eq!(Tape::new(&broken).command(request(), true), Err(Halt::Fail(exit(2))));
    let fine: Vec<Reply> = vec![Ok("".to_owned())];
    let mut tape = Tape::new(&fine);
    assert_eq!(tape.command(request(), false), Ok(()));
    assert_eq!(tape.next, 1);
}

#[test]
fn a_search_on_a_tape() {
    let none: Vec<Reply> = vec![];
    assert_eq!(Tape::new(&none).probe(request()), Err(Halt::Ask(request())));
    let replies: Vec<Reply> = vec![Err(exit(1)), Ok("hit".to_owned()), Err(exit(3))];
    let mut tape = Tape::new(&replies);
    assert_eq!(tape.probe(request()), Ok(Probe::NotFound));
    assert_eq!(tape.probe(request()), Ok(Probe::Found("hit".to_owned())));
    assert_eq!(tape.probe(request()), Ok(Probe::Error(exit(3))));
    assert_eq!(tape.probe(request()), Err(Halt::Ask(request())));
}

//! Running a procedure again over the replies that are already known.
//!
//! A procedure that needs a remote command does not run it. It asks a `Tape`:
//! where the tape holds the reply, the procedure goes on with it; where the
//! tape has run out, the procedure stops and hands back the request. The
//! caller runs the request, puts the reply at the end of the list and runs
//! the procedure again from the start.

use vstd::prelude::*;
use vstd::string::*;
use crate::command::{Reply, Request, RequestView};
use crate::error::{BenchError, ErrorView};

verus! {

/// Why a procedure stopped before its end.
#[derive(Debug, PartialEq, Eq)]
pub enum Halt {
    /// It needs the reply to this request.
    Ask(Request),
    /// It failed.
    Fail(BenchError),
}

/// A stop as plain values.
pub enum HaltView {
    Ask(RequestView),
    Fail(ErrorView),
}

impl View for Halt {
    type V = HaltView;

    open spec fn view(&self) -> HaltView {
        match *self {
            Halt::Ask(request) => HaltView::Ask(request@),
            Halt::Fail(error) => HaltView::Fail(error@),
        }
    }
}

/// The result of a procedure with its stop as plain values.
pub open spec fn halt_view<T>(result: Result<T, Halt>) -> Result<T, HaltView> {
    match result {
        Ok(value) => Ok(value),
        Err(halt) => Err(halt@),
    }
}

/// A failure, as the stop of a procedure.
pub open spec fn failing<T>(result: Result<T, ErrorView>) -> Result<T, HaltView> {
    match result {
        Ok(value) => Ok(value),
        Err(error) => Err(HaltView::Fail(error)),
    }
}

/// What a search in a remote file came to.
#[derive(Debug, PartialEq, Eq)]
pub enum Probe {
    /// The search matched; these are the matching lines.
    Found(String),
    /// The search ran and matched nothing.
    NotFound,
    /// The search did not run to its end.
    Error(BenchError),
}

/// A probe as plain values.
pub enum ProbeView {
    Found(Seq<char>),
    NotFound,
    Error(ErrorView),
}

impl View for Probe {
    type V = ProbeView;

    open spec fn view(&self) -> ProbeView {
        match *self {
            Probe::Found(text) => ProbeView::Found(text@),
            Probe::NotFound => ProbeView::NotFound,
            Probe::Error(error) => ProbeView::Error(error@),
        }
    }
}

/// How the reply to a command is read where only success matters: every
/// failure is a failure.
pub open spec fn strict(reply: Reply) -> Result<(), ErrorView> {
    match reply {
        Ok(_) => Ok(()),
        Err(error) => Err(error@),
    }
}

/// How the reply to a command that removes something is read: code 1 from
/// the remote machine says that nothing was there to remove, which is as good
/// as done.
pub open spec fn lenient(reply: Reply) -> Result<(), ErrorView> {
    match reply {
        Ok(_) => Ok(()),
        Err(error) => if error@.is_remote_exit(1) {
            Ok(())
        } else {
            Err(error@)
        },
    }
}

/// How the reply to a search is read: code 1 from the remote machine says
/// that the search matched nothing; every other failure is an error.
pub open spec fn probed(reply: Reply) -> ProbeView {
    match reply {
        Ok(text) => ProbeView::Found(text@),
        Err(error) => if error@.is_remote_exit(1) {
            ProbeView::NotFound
        } else {
            ProbeView::Error(error@)
        },
    }
}

/// A command in a procedure: the reply at `at` read strictly or leniently,
/// or the request where no reply is there yet. The second part is the place
/// of the next reply.
pub open spec fn command_step(
    replies: Seq<Reply>,
    at: int,
    request: RequestView,
    tolerant: bool,
) -> (Result<(), HaltView>, int) {
    if 0 <= at < replies.len() {
        (
            failing(
                if tolerant {
                    lenient(replies[at])
                } else {
                    strict(replies[at])
                },
            ),
            at + 1,
        )
    } else {
        (Err(HaltView::Ask(request)), at)
    }
}

/// A search in a procedure: the reply at `at` read as a probe, or the
/// request where no reply is there yet.
pub open spec fn probe_step(replies: Seq<Reply>, at: int, request: RequestView) -> (
    Result<ProbeView, HaltView>,
    int,
) {
    if 0 <= at < replies.len() {
        (Ok(probed(replies[at])), at + 1)
    } else {
        (Err(HaltView::Ask(request)), at)
    }
}

/// Removing what is not there is no failure: where the remote machine
/// answers a removal with code 1, the procedure goes on as if the removal
/// was done.
pub proof fn lemma_nothing_to_remove_is_done(replies: Seq<Reply>, at: int, request: RequestView)
    requires
        0 <= at < replies.len(),
        replies[at] matches Err(error) && error@.is_remote_exit(1),
    ensures
        command_step(replies, at, request, true) == (Ok::<(), HaltView>(()), at + 1),
{
}

/// A probe, or the stop before it, as plain values.
pub open spec fn probe_view(result: Result<Probe, Halt>) -> Result<ProbeView, HaltView> {
    match result {
        Ok(probe) => Ok(probe@),
        Err(halt) => Err(halt@),
    }
}

pub fn read_strict(reply: Reply) -> (read: Result<(), BenchError>)
    ensures
        read is Ok <==> strict(reply) is Ok,
        read matches Err(error) ==> strict(reply) == Err::<(), ErrorView>(error@),
{
    match reply {
        Ok(_) => Ok(()),
        Err(error) => Err(error),
    }
}

/// Reads the reply to a removal: nothing to remove is no failure.
pub fn read_lenient(reply: Reply) -> (read: Result<(), BenchError>)
    ensures
        read is Ok <==> lenient(reply) is Ok,
        read matches Err(error) ==> lenient(reply) == Err::<(), ErrorView>(error@),
        reply matches Err(error) && error@.is_remote_exit(1) ==> read is Ok,
{
    match reply {
        Ok(_) => Ok(()),
        Err(error) => if error.is_remote_exit(1) {
            Ok(())
        } else {
            Err(error)
        },
    }
}

/// Reads the reply to a search.
pub fn probe(reply: Reply) -> (probe: Probe)
    ensures
        probe@ == probed(reply),
{
    match reply {
        Ok(text) => Probe::Found(text),
        Err(error) => if error.is_remote_exit(1) {
            Probe::NotFound
        } else {
            Probe::Error(error)
        },
    }
}

/// The replies known so far, and the place of the next one to hand out.
pub struct Tape<'a> {
    pub replies: &'a Vec<Reply>,
    pub next: usize,
}

fn copy_reply(reply: &Reply) -> (copy: Reply)
    ensures
        copy == *reply,
{
    match reply {
        Ok(text) => Ok(text.clone()),
        Err(error) => Err(error.clone()),
    }
}

impl<'a> Tape<'a> {
    /// A tape at its start.
    pub fn new(replies: &'a Vec<Reply>) -> (tape: Tape<'a>)
        ensures
            tape.replies == replies,
            tape.next == 0,
    {
        Tape { replies, next: 0 }
    }

    /// The reply to `request`, where the tape holds it; the request itself
    /// as a stop where it does not.
    pub fn ask(&mut self, request: Request) -> (reply: Result<Reply, Halt>)
        ensures
            final(self).replies == old(self).replies,
            old(self).next < old(self).replies@.len() ==> reply == Ok::<Reply, Halt>(
                old(self).replies@[old(self).next as int],
            ) && final(self).next == old(self).next + 1,
            old(self).next >= old(self).replies@.len() ==> reply == Err::<Reply, Halt>(
                Halt::Ask(request),
            ) && final(self).next == old(self).next,
    {
        if self.next < self.replies.len() {
            let reply = copy_reply(&self.replies[self.next]);
            self.next = self.next + 1;
            Ok(reply)
        } else {
            Err(Halt::Ask(request))
        }
    }

    /// Sends a command whose reply only says whether it worked. With
    /// `tolerant`, code 1 from the remote machine counts as done.
    pub fn command(&mut self, request: Request, tolerant: bool) -> (done: Result<(), Halt>)
        ensures
            final(self).replies == old(self).replies,
            (halt_view(done), final(self).next as int) == command_step(
                old(self).replies@,
                old(self).next as int,
                request@,
                tolerant,
            ),
    {
        let reply = self.ask(request)?;
        let read = if tolerant {
            read_lenient(reply)
        } else {
            read_strict(reply)
        };
        match read {
            Ok(()) => Ok(()),
            Err(error) => Err(Halt::Fail(error)),
        }
    }

    /// Sends a search and reads its reply as a probe.
    pub fn probe(&mut self, request: Request) -> (found: Result<Probe, Halt>)
        ensures
            final(self).replies == old(self).replies,
            (probe_view(found), final(self).next as int) == probe_step(
                old(self).replies@,
                old(self).next as int,
                request@,
            ),
    {
        let reply = self.ask(request)?;
        Ok(probe(reply))
    }
}

} // verus!

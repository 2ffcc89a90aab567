//! What the listeners and the task that runs them decide.
//!
//! A listener waits for two things at once: a lifecycle signal, and work on
//! its socket. [`listener_step`] says what it does about each. When the
//! listeners have been joined, [`serve_result`] says what their exits come to.

use crate::signal::Signal;
use vstd::prelude::*;
use vstd::string::to_string_from_display_ensures;

verus! {

/// `std::io::Error`, an input or output error as the system reports it.
#[verifier::external_type_specification]
#[verifier::external_body]
pub struct ExIoError(std::io::Error);

/// The protocol a server speaks.
#[derive(Debug, Clone, Copy, PartialEq, Eq, Structural)]
pub enum ServerProto {
    TCP,
    UDP,
    UNIX,
}

impl ServerProto {
    /// The protocol's name.
    pub fn name(&self) -> (name: String)
        ensures
            name@ == match *self {
                ServerProto::TCP => "tcp"@,
                ServerProto::UDP => "udp"@,
                ServerProto::UNIX => "unix"@,
            },
    {
        match self {
            ServerProto::TCP => "tcp".to_owned(),
            ServerProto::UDP => "udp".to_owned(),
            ServerProto::UNIX => "unix".to_owned(),
        }
    }
}

/// Why a server stopped with an error.
#[derive(Debug)]
pub enum ServerError {
    /// The listening socket could not be bound.
    BindError(std::io::Error),
}

impl ServerError {
    /// The text shown for the error: a fixed opening, then the cause in its
    /// own words.
    pub fn message(&self) -> (text: String)
        ensures
            exists|cause: String|
                to_string_from_display_ensures::<std::io::Error>(
                    &self->BindError_0,
                    cause,
                ) && text@ == "server bind error: "@ + cause@,
    {
        match self {
            ServerError::BindError(err) => {
                let cause = err.to_string();
                "server bind error: ".to_owned().concat(cause.as_str())
            },
        }
    }
}

/// What a listener has been woken by.
#[derive(Debug, Clone, Copy, PartialEq, Eq, Structural)]
pub enum ListenerEvent {
    /// The signal channel has a new value.
    Signalled(Signal),
    /// A connection or a datagram has come in.
    Accepted,
    /// Taking a connection in has failed.
    AcceptFailed,
}

/// What a listener does next.
#[derive(Debug, Clone, Copy, PartialEq, Eq, Structural)]
pub enum ListenerAction {
    /// Leave the loop and return normally.
    Exit,
    /// Hand the connection or datagram to a handler, then wait again.
    Dispatch,
    /// Report the failure, then wait again.
    Skip,
}

/// Whether a listener knows what to do about `event`. It knows of no signal
/// but `Stop`.
pub open spec fn handled(event: ListenerEvent) -> bool {
    event matches ListenerEvent::Signalled(signal) ==> signal == Signal::Stop
}

/// What a listener does about `event`: on `Stop` it leaves its loop for
/// good; work that has come in is dispatched; a failed accept is passed over.
pub open spec fn action_on(event: ListenerEvent) -> ListenerAction {
    match event {
        ListenerEvent::Signalled(_) => ListenerAction::Exit,
        ListenerEvent::Accepted => ListenerAction::Dispatch,
        ListenerEvent::AcceptFailed => ListenerAction::Skip,
    }
}

/// Tells whether a listener knows what to do about `event`.
pub fn is_handled(event: ListenerEvent) -> (known: bool)
    ensures
        known == handled(event),
{
    match event {
        ListenerEvent::Signalled(Signal::Stop) => true,
        ListenerEvent::Signalled(_) => false,
        _ => true,
    }
}

/// One turn of a listener's loop.
pub fn listener_step(event: ListenerEvent) -> (action: ListenerAction)
    requires
        handled(event),
    ensures
        action == action_on(event),
{
    match event {
        ListenerEvent::Signalled(_) => ListenerAction::Exit,
        ListenerEvent::Accepted => ListenerAction::Dispatch,
        ListenerEvent::AcceptFailed => ListenerAction::Skip,
    }
}

/// How a listener task stood when the join on all of them was over.
#[derive(Debug)]
pub enum TaskExit {
    /// The task returned, cleanly or with an error of its own.
    Returned(Result<(), ServerError>),
    /// The task was cancelled.
    Cancelled,
    /// The task panicked.
    Panicked,
    /// The task was still running.
    Pending,
}

/// A broken invariant of the task framework. None of these is an outcome to
/// recover from.
#[derive(Debug, Clone, Copy, PartialEq, Eq, Structural)]
pub enum Fault {
    /// A listener task was cancelled, which nothing ever asks for.
    Cancelled,
    /// A listener task panicked.
    Panicked,
    /// A listener task was still running after all of them had been waited for.
    Pending,
}

/// Why serving ended in failure.
#[derive(Debug)]
pub enum RuntimeError {
    /// The errors that the servers stopped with, in the order of the servers.
    ServerError(Vec<ServerError>),
}

/// The fault that an exit amounts to, if any.
pub open spec fn fault_of(exit: TaskExit) -> Option<Fault> {
    match exit {
        TaskExit::Returned(_) => None,
        TaskExit::Cancelled => Some(Fault::Cancelled),
        TaskExit::Panicked => Some(Fault::Panicked),
        TaskExit::Pending => Some(Fault::Pending),
    }
}

/// The first fault among `exits`, in their order.
pub open spec fn first_fault(exits: Seq<TaskExit>) -> Option<Fault>
    decreases exits.len(),
{
    if exits.len() == 0 {
        None
    } else {
        match first_fault(exits.drop_last()) {
            Some(fault) => Some(fault),
            None => fault_of(exits.last()),
        }
    }
}

/// The errors that the servers of `exits` stopped with, in their order.
pub open spec fn errors_of(exits: Seq<TaskExit>) -> Seq<ServerError>
    decreases exits.len(),
{
    if exits.len() == 0 {
        Seq::empty()
    } else {
        match exits.last() {
            TaskExit::Returned(Err(error)) => errors_of(exits.drop_last()).push(error),
            _ => errors_of(exits.drop_last()),
        }
    }
}

/// A fault found among the first `upto` exits is the fault found among all.
proof fn lemma_fault_stays(exits: Seq<TaskExit>, upto: int)
    requires
        0 <= upto <= exits.len(),
        first_fault(exits.subrange(0, upto)) is Some,
    ensures
        first_fault(exits) == first_fault(exits.subrange(0, upto)),
    decreases exits.len() - upto,
{
    if upto == exits.len() {
        assert(exits.subrange(0, upto) =~= exits);
    } else {
        assert(exits.subrange(0, upto + 1).drop_last() =~= exits.subrange(0, upto));
        lemma_fault_stays(exits, upto + 1);
    }
}

/// What the exits of the listener tasks come to. A fault, the first in the
/// order of the tasks, overrides everything else. Without one, serving has
/// succeeded if no server stopped with an error, and has failed with the
/// errors of those that did.
pub fn serve_result(exits: Vec<TaskExit>) -> (result: Result<Result<(), RuntimeError>, Fault>)
    ensures
        match first_fault(exits@) {
            Some(fault) => result matches Err(found) && found == fault,
            None => result matches Ok(served) && match served {
                Ok(_) => errors_of(exits@).len() == 0,
                Err(RuntimeError::ServerError(errors)) => errors@.len() > 0 && errors@
                    == errors_of(exits@),
            },
        },
{
    let ghost all = exits@;
    let mut errors: Vec<ServerError> = Vec::new();
    for exit in iter: exits
        invariant
            iter.seq() == all,
            first_fault(all.subrange(0, iter.index() as int)) is None,
            errors@ == errors_of(all.subrange(0, iter.index() as int)),
    {
        proof {
            let upto = iter.index() as int;
            assert(all.subrange(0, upto + 1).drop_last() =~= all.subrange(0, upto));
            if fault_of(exit) is Some {
                lemma_fault_stays(all, upto + 1);
            }
        }
        match exit {
            TaskExit::Returned(Ok(_)) => {},
            TaskExit::Returned(Err(error)) => errors.push(error),
            TaskExit::Cancelled => {
                return Err(Fault::Cancelled);
            },
            TaskExit::Panicked => {
                return Err(Fault::Panicked);
            },
            TaskExit::Pending => {
                return Err(Fault::Pending);
            },
        }
    }
    proof {
        assert(all.subrange(0, all.len() as int) =~= all);
    }
    if errors.len() == 0 {
        Ok(Ok(()))
    } else {
        Ok(Err(RuntimeError::ServerError(errors)))
    }
}

} // verus!

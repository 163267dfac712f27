//! The event loop's state machine: what the daemon does when a broker poll,
//! a supervised-output completion or the shutdown signal becomes ready. The
//! loop is the sole mutator of its state: the last connection error seen
//! since the last success, and the number of live output tasks.

use vstd::prelude::*;
use crate::config::strings_view;
use crate::mqtt_client::{Event, Handler, MQTTClient, DispatchOutcome, no_handler_line};

verus! {

/// A failed broker poll, reduced to the message the loop records and logs.
pub struct ConnError {
    pub message: String,
}

/// Whichever of the three event sources became ready first in one iteration.
pub enum ReadyEvent {
    /// The broker poll completed, with the next event or a connection error.
    BrokerPoll(Result<Event, ConnError>),
    /// One supervised-output task yielded its terminal result.
    TaskDone(Result<(), String>),
    /// The operator's interrupt arrived.
    Shutdown,
}

pub enum Phase {
    Running,
    Terminating,
}

/// The log entry for the onset of a connection error.
pub open spec fn error_line(m: Seq<char>) -> Seq<char> {
    "Error = "@ + m
}

/// The log entry for the terminal result of a supervised-output task.
pub open spec fn task_done_line(r: Result<(), Seq<char>>) -> Seq<char> {
    match r {
        Ok(_) => "Future's result arrived... Ok(())"@,
        Err(m) => "Future's result arrived... Err("@ + m + ")"@,
    }
}

/// The error slot after one poll result is handled: a success clears it, and
/// a failure fills an empty slot but leaves a filled one as it was.
pub open spec fn next_error_slot(slot: Option<ConnError>, r: Result<Event, ConnError>) -> Option<
    ConnError,
> {
    match r {
        Ok(_) => None,
        Err(e) => if slot is None {
            Some(e)
        } else {
            slot
        },
    }
}

/// Whether handling one poll result logs: only a failure that arrives with
/// the slot empty does, so an ongoing condition is logged once, at its onset.
pub open spec fn logs_connection_error(slot: Option<ConnError>, r: Result<Event, ConnError>) -> bool {
    r is Err && slot is None
}

/// The log entries that dispatching one successfully polled event emits.
pub open spec fn dispatch_lines<H>(table: Map<Seq<char>, H>, ev: Event) -> Seq<Seq<char>> {
    match ev {
        Event::IncomingPublish(m) => if table.contains_key(m.topic@) {
            Seq::empty()
        } else {
            seq![no_handler_line(m.topic@)]
        },
        Event::Other => Seq::empty(),
    }
}

/// The error slot after a whole sequence of poll results, earliest first.
pub open spec fn slot_after(slot: Option<ConnError>, rs: Seq<Result<Event, ConnError>>) -> Option<
    ConnError,
>
    decreases rs.len(),
{
    if rs.len() == 0 {
        slot
    } else {
        next_error_slot(slot_after(slot, rs.drop_last()), rs.last())
    }
}

/// After any poll results at all, the slot is filled exactly when the latest
/// result was a failure; in particular one success clears it.
pub proof fn lemma_slot_tracks_latest_result(
    slot: Option<ConnError>,
    rs: Seq<Result<Event, ConnError>>,
)
    requires
        rs.len() > 0,
    ensures
        slot_after(slot, rs) is Some <==> rs.last() is Err,
{
}

/// A connection error is logged exactly at its onset: a failing poll logs
/// when it is the first result of all, following a success, and never when
/// it repeats a failure; and only failing polls log.
pub proof fn lemma_error_logged_once_per_onset(
    slot: Option<ConnError>,
    rs: Seq<Result<Event, ConnError>>,
    i: int,
)
    requires
        0 <= i < rs.len(),
    ensures
        logs_connection_error(slot_after(slot, rs.take(i)), rs[i]) <==> rs[i] is Err && (if i == 0 {
            slot is None
        } else {
            rs[i - 1] is Ok
        }),
{
    if i == 0 {
        assert(rs.take(0) =~= Seq::empty());
    } else {
        let prefix = rs.take(i);
        assert(prefix.last() == rs[i - 1]);
        lemma_slot_tracks_latest_result(slot, prefix);
    }
}

/// The mutable state of the event loop.
pub struct EventLoopState {
    pub phase: Phase,
    pub last_error: Option<ConnError>,
    pub live_tasks: usize,
}

impl EventLoopState {
    /// The loop before its first iteration: running, no error recorded, no
    /// supervised-output task live.
    pub fn new() -> (r: EventLoopState)
        ensures
            r.phase is Running,
            r.last_error is None,
            r.live_tasks == 0,
    {
        EventLoopState { phase: Phase::Running, last_error: None, live_tasks: 0 }
    }

    /// Records that one supervised-output task went live.
    pub fn task_started(&mut self)
        requires
            old(self).live_tasks < usize::MAX,
        ensures
            final(self).live_tasks == old(self).live_tasks + 1,
            final(self).phase == old(self).phase,
            final(self).last_error == old(self).last_error,
    {
        self.live_tasks = self.live_tasks + 1;
    }

    /// One iteration of the loop, handling whichever source became ready.
    ///
    /// A successful poll clears the error slot and dispatches the event; a
    /// failing poll logs only at the onset of the condition, and the loop
    /// neither backs off nor terminates on it. A completed output task is
    /// retired from the live count with its result logged, and nothing else
    /// happens to it. The shutdown signal alone leaves `Running`: it makes
    /// the state terminal at once, with nothing dispatched, logged or
    /// changed, and the loop's owner stops before any further handling.
    pub fn step<H: Handler>(&mut self, client: &MQTTClient<H>, ready: ReadyEvent) -> (logs: Vec<
        String,
    >)
        requires
            old(self).phase is Running,
            ready matches ReadyEvent::TaskDone(_) ==> old(self).live_tasks >= 1,
        ensures
            match ready {
                ReadyEvent::BrokerPoll(res) => {
                    &&& final(self).phase is Running
                    &&& final(self).live_tasks == old(self).live_tasks
                    &&& final(self).last_error == next_error_slot(old(self).last_error, res)
                    &&& match res {
                        Ok(ev) => strings_view(logs@) == dispatch_lines(
                            client.table(),
                            ev,
                        ),
                        Err(e) => strings_view(logs@) == (
                        if logs_connection_error(old(self).last_error, res) {
                            seq![error_line(e.message@)]
                        } else {
                            Seq::<Seq<char>>::empty()
                        }),
                    }
                },
                ReadyEvent::TaskDone(res) => {
                    &&& final(self).phase is Running
                    &&& final(self).live_tasks == old(self).live_tasks - 1
                    &&& final(self).last_error == old(self).last_error
                    &&& strings_view(logs@) == seq![
                        task_done_line(
                            match res {
                                Ok(_) => Result::<(), Seq<char>>::Ok(()),
                                Err(m) => Result::<(), Seq<char>>::Err(m@),
                            },
                        ),
                    ]
                },
                ReadyEvent::Shutdown => {
                    &&& final(self).phase is Terminating
                    &&& final(self).live_tasks == old(self).live_tasks
                    &&& final(self).last_error == old(self).last_error
                    &&& logs@.len() == 0
                },
            },
    {
        let mut logs: Vec<String> = Vec::new();
        match ready {
            ReadyEvent::BrokerPoll(res) => {
                match res {
                    Ok(ev) => {
                        self.last_error = None;
                        match client.process_event(ev) {
                            DispatchOutcome::NoHandler(line) => {
                                logs.push(line);
                            },
                            _ => {},
                        }
                    },
                    Err(e) => {
                        if self.last_error.is_none() {
                            logs.push(String::from_str("Error = ").concat(e.message.as_str()));
                            self.last_error = Some(e);
                        }
                    },
                }
            },
            ReadyEvent::TaskDone(res) => {
                let line = match res {
                    Ok(_) => String::from_str("Future's result arrived... Ok(())"),
                    Err(m) => String::from_str("Future's result arrived... Err(").concat(
                        m.as_str(),
                    ).concat(")"),
                };
                logs.push(line);
                self.live_tasks = self.live_tasks - 1;
            },
            ReadyEvent::Shutdown => {
                self.phase = Phase::Terminating;
            },
        }
        logs
    }
}

} // verus!

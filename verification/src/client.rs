//! The write pipeline: replay what waits in the backlog, deliver the new
//! record, and spill it to the backlog where delivery fails.
//!
//! The pipeline decides and remembers; it does not send. Each of its steps
//! names the next thing to do, an [`Action`], and takes the outcome of the
//! last one, an [`Event`]. What goes to the backlog the client carries out
//! itself; the deliveries are for whoever drives it, through a transport of
//! their own.

use vstd::prelude::*;
use vstd::string::StringExecFns;

use crate::auth::Credentials;
use crate::backlogging::Backlog;
use crate::error::InfluxError;
use crate::error::InfluxResult;
use crate::record::Record;

verus! {

/// Where a call of the pipeline stands.
#[derive(Debug, PartialEq, Eq)]
pub enum Phase {
    /// No call is under way.
    Idle,
    /// The backlog was asked for what waits in it.
    Reading,
    /// The record that waited first is out for delivery.
    Replaying(Record),
    /// The record that waited first was delivered, and the backlog was
    /// asked to forget it.
    Truncating(Record),
    /// The new record is out for delivery.
    Sending,
    /// The backlog was asked to take the new record; the error is the one
    /// that the caller gets once it has.
    Spilling(InfluxError),
}

/// Where a call of the pipeline stands, without what it holds.
#[derive(Debug, Clone, Copy, PartialEq, Eq, Structural)]
pub enum Stage {
    Idle,
    Reading,
    Replaying,
    Truncating,
    Sending,
    Spilling,
}

/// The outcome of the action that the pipeline named last.
#[derive(Debug, PartialEq, Eq)]
pub enum Event {
    /// The backlog has answered `read_pending`.
    Pending(InfluxResult<Vec<Record>>),
    /// The transport has answered a delivery.
    Delivered(InfluxResult<()>),
    /// The backlog has answered `truncate_pending`.
    Truncated(InfluxResult<()>),
    /// The backlog has answered `write_pending`.
    Spilled(InfluxResult<()>),
}

/// What has happened, without what it holds.
#[derive(Debug, Clone, Copy, PartialEq, Eq, Structural)]
pub enum Signal {
    /// A call began.
    Begin,
    ReadFailed,
    ReadEmpty,
    ReadSome,
    Delivered,
    Rejected,
    Truncated,
    TruncateFailed,
    Spilled,
    SpillFailed,
}

/// What has to be done next.
#[derive(Debug, PartialEq, Eq)]
pub enum Action {
    /// Ask the backlog for what waits in it.
    ReadPending,
    /// Deliver the record that `replaying` hands out.
    Replay,
    /// Ask the backlog to forget the record that `replaying` hands out.
    Truncate,
    /// Deliver the new record.
    Send,
    /// Ask the backlog to take the new record.
    Spill,
    /// Nothing: the call has ended with this result.
    Finish(InfluxResult<()>),
}

/// How a call ended.
#[derive(Debug, Clone, Copy, PartialEq, Eq, Structural)]
pub enum Verdict {
    /// All that was to be delivered was delivered.
    Committed,
    /// The new record was not delivered and waits in the backlog.
    Queued,
    /// The new record was not delivered and could not be put into the
    /// backlog: its data is at risk.
    AtRisk,
    /// The call failed with nothing queued by it.
    Failed,
    /// An event came that the pipeline had not asked for.
    OutOfTurn,
}

/// What has to be done next, without what it holds.
#[derive(Debug, Clone, Copy, PartialEq, Eq, Structural)]
pub enum Move {
    Read,
    Replay,
    Truncate,
    Send,
    Spill,
    Finish(Verdict),
}

/// The rules of the pipeline: the stage and the move that follow a signal.
///
/// `durable` tells whether a backlog is attached, `flushing` whether the
/// call only replays and has no new record.
///
/// A call with a backlog reads it first. Of what waits, the first record is
/// replayed, and forgotten once it is delivered; only then the new record is
/// sent. A rejection, of the replay or of the new record, or a backlog that
/// cannot be read, makes the new record spill, and the call ends once the
/// backlog has answered. Without a backlog the new record is sent at once,
/// and a rejection ends the call.
pub open spec fn next(stage: Stage, durable: bool, flushing: bool, signal: Signal) -> (
    Stage,
    Move,
) {
    match (stage, signal) {
        (Stage::Idle, Signal::Begin) => if durable {
            (Stage::Reading, Move::Read)
        } else if flushing {
            (Stage::Idle, Move::Finish(Verdict::Committed))
        } else {
            (Stage::Sending, Move::Send)
        },
        (Stage::Reading, Signal::ReadFailed) => if flushing {
            (Stage::Idle, Move::Finish(Verdict::Failed))
        } else {
            (Stage::Spilling, Move::Spill)
        },
        (Stage::Reading, Signal::ReadEmpty) => if flushing {
            (Stage::Idle, Move::Finish(Verdict::Committed))
        } else {
            (Stage::Sending, Move::Send)
        },
        (Stage::Reading, Signal::ReadSome) => (Stage::Replaying, Move::Replay),
        (Stage::Replaying, Signal::Delivered) => (Stage::Truncating, Move::Truncate),
        (Stage::Replaying, Signal::Rejected) => if flushing {
            (Stage::Idle, Move::Finish(Verdict::Failed))
        } else {
            (Stage::Spilling, Move::Spill)
        },
        (Stage::Truncating, Signal::Truncated) => if flushing {
            (Stage::Idle, Move::Finish(Verdict::Committed))
        } else {
            (Stage::Sending, Move::Send)
        },
        (Stage::Truncating, Signal::TruncateFailed) => (
            Stage::Idle,
            Move::Finish(Verdict::Failed),
        ),
        (Stage::Sending, Signal::Delivered) => (Stage::Idle, Move::Finish(Verdict::Committed)),
        (Stage::Sending, Signal::Rejected) => if durable {
            (Stage::Spilling, Move::Spill)
        } else {
            (Stage::Idle, Move::Finish(Verdict::Failed))
        },
        (Stage::Spilling, Signal::Spilled) => (Stage::Idle, Move::Finish(Verdict::Queued)),
        (Stage::Spilling, Signal::SpillFailed) => (Stage::Idle, Move::Finish(Verdict::AtRisk)),
        _ => (Stage::Idle, Move::Finish(Verdict::OutOfTurn)),
    }
}

/// The text of the error for a replay that was rejected with `cause`.
pub open spec fn replay_failure_text(cause: Seq<char>) -> Seq<char> {
    "Unable to commit backlogged record: "@ + cause
}

impl Phase {
    /// The stage of this phase.
    pub open spec fn stage(&self) -> Stage {
        match self {
            Phase::Idle => Stage::Idle,
            Phase::Reading => Stage::Reading,
            Phase::Replaying(_) => Stage::Replaying,
            Phase::Truncating(_) => Stage::Truncating,
            Phase::Sending => Stage::Sending,
            Phase::Spilling(_) => Stage::Spilling,
        }
    }
}

impl Event {
    /// The signal that this event gives.
    pub open spec fn signal(&self) -> Signal {
        match self {
            Event::Pending(Err(_)) => Signal::ReadFailed,
            Event::Pending(Ok(records)) => if records@.len() == 0 {
                Signal::ReadEmpty
            } else {
                Signal::ReadSome
            },
            Event::Delivered(Ok(_)) => Signal::Delivered,
            Event::Delivered(Err(_)) => Signal::Rejected,
            Event::Truncated(Ok(_)) => Signal::Truncated,
            Event::Truncated(Err(_)) => Signal::TruncateFailed,
            Event::Spilled(Ok(_)) => Signal::Spilled,
            Event::Spilled(Err(_)) => Signal::SpillFailed,
        }
    }
}

impl Action {
    /// Tells whether this action makes the move `m`. A call ends well
    /// exactly where it is committed, and a call that leaves data at risk
    /// ends with the error of a double failure.
    pub open spec fn made(&self, m: Move) -> bool {
        match (self, m) {
            (Action::ReadPending, Move::Read) => true,
            (Action::Replay, Move::Replay) => true,
            (Action::Truncate, Move::Truncate) => true,
            (Action::Send, Move::Send) => true,
            (Action::Spill, Move::Spill) => true,
            (Action::Finish(r), Move::Finish(v)) => (v == Verdict::Committed <==> r is Ok) && (v
                == Verdict::AtRisk ==> r matches Err(InfluxError::Unqueued { .. })),
            _ => false,
        }
    }
}

/// A client of the remote API: its address, its credentials, its backlog
/// if it has one, and the state of the call that is under way.
#[derive(Debug)]
pub struct Client<B: Backlog> {
    url: String,
    creds: Credentials,
    backlog: Option<B>,
    phase: Phase,
    flushing: bool,
}

impl<B: Backlog> Client<B> {
    /// The phase of the call that is under way.
    pub closed spec fn phase(&self) -> Phase {
        self.phase
    }

    /// Tells whether the call that is under way only replays.
    pub closed spec fn is_flushing(&self) -> bool {
        self.flushing
    }

    /// The backlog of the client.
    pub closed spec fn attached(&self) -> Option<B> {
        self.backlog
    }

    /// Tells whether the client has a backlog.
    pub open spec fn is_durable(&self) -> bool {
        self.attached() is Some
    }

    /// The address of the remote.
    pub closed spec fn address(&self) -> Seq<char> {
        self.url@
    }

    /// The credentials of the client.
    pub closed spec fn creds(&self) -> Credentials {
        self.creds
    }

    /// Tells whether the settings of two clients are the same: address,
    /// credentials and backlog.
    pub open spec fn same_settings(&self, other: &Self) -> bool {
        &&& self.address() == other.address()
        &&& self.creds() == other.creds()
        &&& self.attached() == other.attached()
    }

    /// A client for the remote at `url`, without a backlog.
    pub fn new(url: String, creds: Credentials) -> (client: Self)
        ensures
            client.address() == url@,
            client.creds() == creds,
            client.attached() is None,
            client.phase() == Phase::Idle,
    {
        Client { url, creds, backlog: None, phase: Phase::Idle, flushing: false }
    }

    /// The same client with `backlog` attached.
    pub fn backlog(self, backlog: B) -> (client: Self)
        ensures
            client.attached() == Some(backlog),
            client.address() == self.address(),
            client.creds() == self.creds(),
            client.phase() == self.phase(),
            client.is_flushing() == self.is_flushing(),
    {
        let mut client = self;
        client.backlog = Some(backlog);
        client
    }

    /// The address of the remote.
    pub fn url(&self) -> (url: &String)
        ensures
            url@ == self.address(),
    {
        &self.url
    }

    /// The credentials of the client.
    pub fn credentials(&self) -> (creds: &Credentials)
        ensures
            *creds == self.creds(),
    {
        &self.creds
    }

    /// The backlog of the client, for the actions that go to it.
    pub fn backlog_mut(&mut self) -> (backlog: Option<&mut B>)
        ensures
            final(self).phase() == old(self).phase(),
            final(self).is_flushing() == old(self).is_flushing(),
            final(self).address() == old(self).address(),
            final(self).creds() == old(self).creds(),
            match old(self).attached() {
                None => backlog is None && final(self).attached() is None,
                Some(attached) => backlog is Some && *backlog->0 == attached
                    && final(self).attached() == Some(*final(backlog->0)),
            },
    {
        self.backlog.as_mut()
    }

    /// The record that is being replayed: the one to deliver after
    /// [`Action::Replay`], and to forget after [`Action::Truncate`].
    pub fn replaying(&self) -> (record: Option<&Record>)
        ensures
            match self.phase() {
                Phase::Replaying(r) => record == Some(&r),
                Phase::Truncating(r) => record == Some(&r),
                _ => record is None,
            },
    {
        match &self.phase {
            Phase::Replaying(r) => Some(r),
            Phase::Truncating(r) => Some(r),
            _ => None,
        }
    }

    /// Begins the writing of `record` and names the first action.
    ///
    /// A record with a measurement that cannot be sent is refused before
    /// anything is done. A call that was under way is given up.
    pub fn write(&mut self, record: &Record) -> (action: Action)
        ensures
            final(self).same_settings(old(self)),
            !final(self).is_flushing(),
            !record.is_valid() ==> final(self).phase() == Phase::Idle && (action matches Action::Finish(
                Err(InfluxError::Encoding(m)),
            ) && m@ == record.measurements@[record.first_defect()].defect()),
            record.is_valid() ==> action.made(
                next(Stage::Idle, old(self).is_durable(), false, Signal::Begin).1,
            ) && final(self).phase().stage() == next(
                Stage::Idle,
                old(self).is_durable(),
                false,
                Signal::Begin,
            ).0,
    {
        self.flushing = false;
        match record.check() {
            Err(e) => {
                self.phase = Phase::Idle;
                Action::Finish(Err(e))
            },
            Ok(()) => {
                if self.backlog.is_some() {
                    self.phase = Phase::Reading;
                    Action::ReadPending
                } else {
                    self.phase = Phase::Sending;
                    Action::Send
                }
            },
        }
    }

    /// Begins a replay of the backlog without a new record, and names the
    /// first action. A call that was under way is given up.
    pub fn flush(&mut self) -> (action: Action)
        ensures
            final(self).same_settings(old(self)),
            final(self).is_flushing(),
            action.made(next(Stage::Idle, old(self).is_durable(), true, Signal::Begin).1),
            final(self).phase().stage() == next(
                Stage::Idle,
                old(self).is_durable(),
                true,
                Signal::Begin,
            ).0,
    {
        self.flushing = true;
        if self.backlog.is_some() {
            self.phase = Phase::Reading;
            Action::ReadPending
        } else {
            self.phase = Phase::Idle;
            Action::Finish(Ok(()))
        }
    }

    /// What `advance` does with `event`, as a relation between the client
    /// before it, the client after it and the action that it names: the
    /// settings stay, the stage and the move follow the rules of [`next`],
    /// and what they hold is said by [`follows`].
    pub open spec fn advanced(&self, event: Event, after: &Self, action: Action) -> bool {
        &&& after.same_settings(self)
        &&& after.is_flushing() == self.is_flushing()
        &&& after.phase().stage() == next(
            self.phase().stage(),
            self.is_durable(),
            self.is_flushing(),
            event.signal(),
        ).0
        &&& action.made(
            next(self.phase().stage(), self.is_durable(), self.is_flushing(), event.signal()).1,
        )
        &&& follows(
            self.phase(),
            self.is_durable(),
            self.is_flushing(),
            event,
            after.phase(),
            action,
        )
    }

    /// Takes the outcome of the action that was named last, and names the
    /// next one. The stage and the move follow the rules of [`next`]; what
    /// they hold is said by [`follows`].
    pub fn advance(&mut self, event: Event) -> (action: Action)
        ensures
            old(self).advanced(event, final(self), action),
    {
        let mut phase = Phase::Idle;
        std::mem::swap(&mut self.phase, &mut phase);
        let durable = self.backlog.is_some();
        match (phase, event) {
            (Phase::Reading, Event::Pending(Err(e))) => {
                if self.flushing {
                    Action::Finish(Err(e))
                } else {
                    self.phase = Phase::Spilling(e);
                    Action::Spill
                }
            },
            (Phase::Reading, Event::Pending(Ok(records))) => {
                let mut records = records;
                if records.len() == 0 {
                    if self.flushing {
                        Action::Finish(Ok(()))
                    } else {
                        self.phase = Phase::Sending;
                        Action::Send
                    }
                } else {
                    self.phase = Phase::Replaying(records.remove(0));
                    Action::Replay
                }
            },
            (Phase::Replaying(record), Event::Delivered(Ok(()))) => {
                self.phase = Phase::Truncating(record);
                Action::Truncate
            },
            (Phase::Replaying(_), Event::Delivered(Err(e))) => {
                let mut msg = String::from_str("Unable to commit backlogged record: ");
                msg.append(e.to_string().as_str());
                let rejection = InfluxError::Annotated(msg, Box::new(e));
                if self.flushing {
                    Action::Finish(Err(rejection))
                } else {
                    self.phase = Phase::Spilling(rejection);
                    Action::Spill
                }
            },
            (Phase::Truncating(_), Event::Truncated(Ok(()))) => {
                if self.flushing {
                    Action::Finish(Ok(()))
                } else {
                    self.phase = Phase::Sending;
                    Action::Send
                }
            },
            (Phase::Truncating(_), Event::Truncated(Err(e))) => Action::Finish(Err(e)),
            (Phase::Sending, Event::Delivered(Ok(()))) => Action::Finish(Ok(())),
            (Phase::Sending, Event::Delivered(Err(e))) => {
                if durable {
                    self.phase = Phase::Spilling(e);
                    Action::Spill
                } else {
                    Action::Finish(Err(e))
                }
            },
            (Phase::Spilling(rejection), Event::Spilled(Ok(()))) => Action::Finish(
                Err(rejection),
            ),
            (Phase::Spilling(rejection), Event::Spilled(Err(e))) => Action::Finish(
                Err(InfluxError::Unqueued { rejection: Box::new(rejection), backlog: Box::new(e) }),
            ),
            _ => Action::Finish(Err(InfluxError::message("event out of turn"))),
        }
    }

    /// The record that is being replayed, if one is.
    pub open spec fn replayed(&self) -> Option<Record> {
        match self.phase() {
            Phase::Replaying(record) => Some(record),
            Phase::Truncating(record) => Some(record),
            _ => None,
        }
    }

    /// Tells whether `perform` has something to ask of the backlog for
    /// `action`: there is a backlog, and for a truncation a record that is
    /// being replayed, and for a spill a new record.
    pub open spec fn asks(&self, action: Action, record: Option<&Record>) -> bool {
        self.attached() is Some && match action {
            Action::ReadPending => true,
            Action::Truncate => self.replayed() is Some,
            Action::Spill => record is Some,
            _ => false,
        }
    }

    /// What `perform` does for `action`, as a relation between the client
    /// before it, the client after it and the event that it gives.
    ///
    /// Nothing changes but the backlog. Where there is something to ask,
    /// the backlog is asked exactly that: to read, to forget the record
    /// that is being replayed, or to take the new record; the event holds
    /// its answer, and the statement of the backlog's own method holds of
    /// the backlog before and after. Where an action goes to the backlog
    /// and there is nothing to ask, the backlog stays as it is and the
    /// event holds the error that says so. Any other action gives no event
    /// and changes nothing.
    pub open spec fn performed(
        &self,
        action: Action,
        record: Option<&Record>,
        after: &Self,
        event: Option<Event>,
    ) -> bool {
        &&& after.phase() == self.phase()
        &&& after.is_flushing() == self.is_flushing()
        &&& after.address() == self.address()
        &&& after.creds() == self.creds()
        &&& after.is_durable() == self.is_durable()
        &&& match action {
            Action::ReadPending => if self.asks(action, record) {
                event matches Some(Event::Pending(answer)) && self.attached()->0.reads(
                    &after.attached()->0,
                    answer,
                )
            } else {
                unanswered(event) && (event matches Some(Event::Pending(_))) && *after == *self
            },
            Action::Truncate => if self.asks(action, record) {
                event matches Some(Event::Truncated(answer)) && self.attached()->0.forgets(
                    &self.replayed()->0,
                    &after.attached()->0,
                    answer,
                )
            } else {
                unanswered(event) && (event matches Some(Event::Truncated(_))) && *after == *self
            },
            Action::Spill => if self.asks(action, record) {
                event matches Some(Event::Spilled(answer)) && self.attached()->0.takes(
                    record->0,
                    &after.attached()->0,
                    answer,
                )
            } else {
                unanswered(event) && (event matches Some(Event::Spilled(_))) && *after == *self
            },
            _ => event is None && *after == *self,
        }
    }

    /// Carries out an action that goes to the backlog, and gives its
    /// outcome as the event to hand to `advance`. `record` is the new
    /// record of the call, if it has one.
    ///
    /// Reading, truncating and spilling go to the backlog: the backlog is
    /// asked to forget the record that is being replayed, and to take the
    /// new record. What the backlog answers is the event, whatever it is.
    /// Where there is nothing to ask or nobody to ask it of, the event holds
    /// an error that says so. Deliveries and the end of a call are for the
    /// caller, and give no event.
    pub fn perform(&mut self, action: &Action, record: Option<&Record>) -> (event: Option<Event>)
        ensures
            old(self).performed(*action, record, final(self), event),
    {
        match action {
            Action::ReadPending => match &mut self.backlog {
                Some(backlog) => Some(Event::Pending(backlog.read_pending())),
                None => Some(Event::Pending(Err(InfluxError::message("no backlog to ask")))),
            },
            Action::Truncate => match &mut self.backlog {
                Some(backlog) => match &self.phase {
                    Phase::Replaying(replayed) => Some(
                        Event::Truncated(backlog.truncate_pending(replayed)),
                    ),
                    Phase::Truncating(replayed) => Some(
                        Event::Truncated(backlog.truncate_pending(replayed)),
                    ),
                    _ => Some(Event::Truncated(Err(InfluxError::message("no backlog to ask")))),
                },
                None => Some(Event::Truncated(Err(InfluxError::message("no backlog to ask")))),
            },
            Action::Spill => match &mut self.backlog {
                Some(backlog) => match record {
                    Some(record) => Some(Event::Spilled(backlog.write_pending(record))),
                    None => Some(Event::Spilled(Err(InfluxError::message("no backlog to ask")))),
                },
                None => Some(Event::Spilled(Err(InfluxError::message("no backlog to ask")))),
            },
            _ => None,
        }
    }

    /// What `drive` does from `action` on, as a relation between the client
    /// before it, the client after it and the action at which it stops.
    ///
    /// A delivery or the end of a call stops it at once, with nothing
    /// changed. Any other action is carried out as `perform` does, its
    /// event is taken as `advance` does, and the same holds again from the
    /// action that `advance` has named.
    pub open spec fn driven(
        &self,
        record: Option<&Record>,
        action: Action,
        after: &Self,
        stop: Action,
    ) -> bool
        decreases rank(self.phase().stage()), if action is Finish { 0int } else { 1int },
    {
        if action is Replay || action is Send || action is Finish {
            *after == *self && stop == action
        } else {
            exists|asked: Self, event: Event, then: Self, named: Action|
                #![trigger asked.advanced(event, &then, named)]
                self.performed(action, record, &asked, Some(event)) && asked.advanced(
                    event,
                    &then,
                    named,
                ) && nearer(self.phase().stage(), action, then.phase().stage(), named)
                    && then.driven(record, named, after, stop)
        }
    }

    /// Carries out `action` and every action after it that goes to the
    /// backlog, and names the first that does not: a delivery, or the end
    /// of the call. `record` is the new record of the call, if it has one.
    pub fn drive(&mut self, record: Option<&Record>, action: Action) -> (stop: Action)
        ensures
            old(self).driven(record, action, final(self), stop),
            final(self).address() == old(self).address(),
            final(self).creds() == old(self).creds(),
            final(self).is_durable() == old(self).is_durable(),
            final(self).is_flushing() == old(self).is_flushing(),
            stop is Replay || stop is Send || stop is Finish,
            !(action is Replay || action is Send || action is Finish) ==> awaits(
                final(self).phase().stage(),
                stop,
            ),
    {
        match action {
            Action::Replay | Action::Send | Action::Finish(_) => {
                return action;
            },
            _ => {},
        }
        let ghost first = action;
        let ghost moved = false;
        let mut current = action;
        loop
            invariant
                first == action,
                !(first is Replay || first is Send || first is Finish),
                !moved ==> current == first,
                moved ==> awaits(self.phase().stage(), current),
                self.address() == old(self).address(),
                self.creds() == old(self).creds(),
                self.is_durable() == old(self).is_durable(),
                self.is_flushing() == old(self).is_flushing(),
                forall|after: Self, stop: Action| #[trigger]
                    self.driven(record, current, &after, stop) ==> old(self).driven(
                        record,
                        action,
                        &after,
                        stop,
                    ),
            decreases rank(self.phase().stage()), if current is Finish { 0int } else { 1int },
        {
            let ghost before = *self;
            let ghost asked_for = current;
            match self.perform(&current, record) {
                Some(event) => {
                    let ghost asked = *self;
                    proof {
                        law_calls_end(
                            self.phase().stage(),
                            self.is_durable(),
                            self.is_flushing(),
                            event.signal(),
                        );
                        moved = true;
                    }
                    current = self.advance(event);
                    proof {
                        let then = *self;
                        assert(nearer(
                            before.phase().stage(),
                            asked_for,
                            then.phase().stage(),
                            current,
                        ));
                        assert forall|after: Self, stop: Action| #[trigger]
                            then.driven(record, current, &after, stop) implies before.driven(
                            record,
                            asked_for,
                            &after,
                            stop,
                        ) by {
                            assert(before.performed(asked_for, record, &asked, Some(event)));
                            assert(asked.advanced(event, &then, current));
                        }
                    }
                },
                None => {
                    proof {
                        let here = *self;
                        assert(here == before);
                        assert(here.driven(record, current, &here, current));
                    }
                    return current;
                },
            }
        }
    }
}

/// Tells whether a call that stood at `stage` with `action` to carry out is
/// nearer to its end at `then` with `named` to carry out: the stage is
/// nearer to the end, or the call has ended.
pub open spec fn nearer(stage: Stage, action: Action, then: Stage, named: Action) -> bool {
    rank(then) < rank(stage) || (rank(then) == rank(stage) && named is Finish && !(action
        is Finish))
}

/// Tells whether an event holds the error of a question that could not be
/// put to the backlog.
pub open spec fn unanswered(event: Option<Event>) -> bool {
    match event {
        Some(Event::Pending(Err(InfluxError::Error(m)))) => m@ == "no backlog to ask"@,
        Some(Event::Truncated(Err(InfluxError::Error(m)))) => m@ == "no backlog to ask"@,
        Some(Event::Spilled(Err(InfluxError::Error(m)))) => m@ == "no backlog to ask"@,
        _ => false,
    }
}

/// Tells whether `stage` is the stage at which the pipeline waits for the
/// outcome of `action`: for that of a replay while replaying, for that of
/// the new record while sending, and for nothing once the call has ended.
pub open spec fn awaits(stage: Stage, action: Action) -> bool {
    match action {
        Action::Replay => stage == Stage::Replaying,
        Action::Send => stage == Stage::Sending,
        Action::Finish(_) => stage == Stage::Idle,
        _ => true,
    }
}

/// How far a stage is from the end of a call, at most, in answers of the
/// backlog and the transport.
pub open spec fn rank(stage: Stage) -> int {
    match stage {
        Stage::Idle => 0,
        Stage::Spilling => 1,
        Stage::Sending => 2,
        Stage::Truncating => 3,
        Stage::Replaying => 4,
        Stage::Reading => 5,
    }
}

/// Every signal brings a call nearer to its end, and a call has ended
/// exactly where the pipeline is idle again. A replay is asked for only on
/// the way to replaying, and the new record is sent only on the way to
/// sending.
pub proof fn law_calls_end(stage: Stage, durable: bool, flushing: bool, signal: Signal)
    ensures
        stage != Stage::Idle ==> rank(next(stage, durable, flushing, signal).0) < rank(stage),
        next(stage, durable, flushing, signal).1 == Move::Replay ==> next(
            stage,
            durable,
            flushing,
            signal,
        ).0 == Stage::Replaying,
        next(stage, durable, flushing, signal).1 == Move::Send ==> next(
            stage,
            durable,
            flushing,
            signal,
        ).0 == Stage::Sending,
        next(stage, durable, flushing, signal).0 == Stage::Idle ==> next(
            stage,
            durable,
            flushing,
            signal,
        ).1 is Finish,
        next(stage, durable, flushing, signal).1 is Finish ==> next(
            stage,
            durable,
            flushing,
            signal,
        ).0 == Stage::Idle,
{
}

/// What the phase and the action hold after an event, beyond their stage
/// and their move.
///
/// Of the records that wait, the first is replayed, and the record that
/// was replayed is the one to forget. A call ends with the error that made
/// it end: that of the backlog where it could not be read or truncated,
/// that of the transport where there is no backlog. A replay that is
/// rejected gives an error that holds the rejection as it came, kind and
/// delay included, behind a message that quotes it. The error that led to
/// a spill is kept, and comes back alone where the spill succeeds, and
/// together with the error of the backlog where it fails.
pub open spec fn follows(
    before: Phase,
    durable: bool,
    flushing: bool,
    event: Event,
    after: Phase,
    action: Action,
) -> bool {
    match (before, event) {
        (Phase::Reading, Event::Pending(Err(e))) => if flushing {
            action == Action::Finish(Err(e))
        } else {
            after == Phase::Spilling(e)
        },
        (Phase::Reading, Event::Pending(Ok(records))) => records@.len() > 0 ==> after
            == Phase::Replaying(records@[0]),
        (Phase::Replaying(record), Event::Delivered(Ok(_))) => after == Phase::Truncating(record),
        (Phase::Replaying(_), Event::Delivered(Err(e))) => if flushing {
            action matches Action::Finish(Err(InfluxError::Annotated(m, inner))) && m@
                == replay_failure_text(e.text()) && *inner == e
        } else {
            after matches Phase::Spilling(InfluxError::Annotated(m, inner)) && m@
                == replay_failure_text(e.text()) && *inner == e
        },
        (Phase::Truncating(_), Event::Truncated(Err(e))) => action == Action::Finish(Err(e)),
        (Phase::Sending, Event::Delivered(Err(e))) => if durable {
            after == Phase::Spilling(e)
        } else {
            action == Action::Finish(Err(e))
        },
        (Phase::Spilling(rejection), Event::Spilled(Ok(_))) => action == Action::Finish(
            Err(rejection),
        ),
        (Phase::Spilling(rejection), Event::Spilled(Err(e))) => action == Action::Finish(
            Err(InfluxError::Unqueued { rejection: Box::new(rejection), backlog: Box::new(e) }),
        ),
        (Phase::Truncating(_), Event::Truncated(Ok(_))) => true,
        (Phase::Sending, Event::Delivered(Ok(_))) => true,
        _ => action matches Action::Finish(Err(InfluxError::Error(m))) && m@
            == "event out of turn"@,
    }
}

} // verus!

//! The client against the model: what a call of the pipeline does to a
//! backlog that keeps what it is given.
//!
//! The statements here are about the contracts of the client, `driven` and
//! `advanced`, and about the statements that a backlog makes of its own
//! methods. They hold for every backlog that keeps its records as the
//! model of the world says: one destination, nothing lost, nothing
//! refused.

use vstd::prelude::*;

use crate::backlogging::Backlog;
use crate::client::Action;
use crate::client::Client;
use crate::client::Event;
use crate::client::Phase;
use crate::error::InfluxError;
use crate::error::InfluxResult;
use crate::measurement::Measurement;
use crate::model::concat;
use crate::model::deliver;
use crate::model::law_at_least_once;
use crate::model::law_write_while_down;
use crate::model::writes;
use crate::model::run;
use crate::model::write_in;
use crate::model::World;
use crate::record::Record;
use crate::client::Signal;
use crate::client::Verdict;

verus! {

/// Tells whether every backlog of the type `B` keeps its records, where
/// `waiting` gives the measurements that wait in a backlog: reading changes
/// nothing and hands out all that waits as one record, or no record where
/// nothing waits; a record that is taken goes behind what waits; and
/// forgetting leaves nothing. None of the three fails.
pub open spec fn keeps<B: Backlog>(waiting: spec_fn(B) -> Seq<Measurement>) -> bool {
    &&& forall|b: B, after: B, answer: InfluxResult<Vec<Record>>| #[trigger]
        b.reads(&after, answer) ==> {
            &&& waiting(after) == waiting(b)
            &&& answer matches Ok(records) && if waiting(b).len() == 0 {
                records@.len() == 0
            } else {
                records@.len() == 1 && records@[0].measurements@ == waiting(b)
            }
        }
    &&& forall|b: B, record: Record, after: B, answer: InfluxResult<()>| #[trigger]
        b.takes(&record, &after, answer) ==> answer is Ok && waiting(after) == waiting(b)
            + record.measurements@
    &&& forall|b: B, record: Record, after: B, answer: InfluxResult<()>| #[trigger]
        b.forgets(&record, &after, answer) ==> answer is Ok && waiting(after).len() == 0
}

/// A call with a backlog begins by reading it. Where something waits, the
/// client stops at a replay of all that waits; where nothing waits, it
/// stops at the delivery of the new record. The backlog is as it was.
pub proof fn law_drive_reads_first<B: Backlog>(
    waiting: spec_fn(B) -> Seq<Measurement>,
    client: Client<B>,
    record: &Record,
    after: Client<B>,
    stop: Action,
)
    requires
        keeps(waiting),
        client.attached() is Some,
        client.phase() == Phase::Reading,
        !client.is_flushing(),
        client.driven(Some(record), Action::ReadPending, &after, stop),
    ensures
        after.attached() is Some,
        !after.is_flushing(),
        waiting(after.attached()->0) == waiting(client.attached()->0),
        waiting(client.attached()->0).len() > 0 ==> stop == Action::Replay && (after.phase()
            matches Phase::Replaying(replayed) && replayed.measurements@ == waiting(
            client.attached()->0,
        )),
        waiting(client.attached()->0).len() == 0 ==> stop == Action::Send && after.phase()
            == Phase::Sending,
{
    reveal_with_fuel(Client::driven, 3);
    let (asked, event, then, named) = choose|
        asked: Client<B>,
        event: Event,
        then: Client<B>,
        named: Action,
    |
        #![trigger asked.advanced(event, &then, named)]
        client.performed(Action::ReadPending, Some(record), &asked, Some(event))
            && asked.advanced(event, &then, named) && crate::client::nearer(
            client.phase().stage(),
            Action::ReadPending,
            then.phase().stage(),
            named,
        ) && then.driven(Some(record), named, &after, stop);
    assert(client.asks(Action::ReadPending, Some(record)));
    assert(named == Action::Replay || named == Action::Send);
}

/// A spill puts the new record behind what waits, and the call ends with
/// the error that led to the spill.
pub proof fn law_drive_spills<B: Backlog>(
    waiting: spec_fn(B) -> Seq<Measurement>,
    client: Client<B>,
    record: &Record,
    after: Client<B>,
    stop: Action,
)
    requires
        keeps(waiting),
        client.attached() is Some,
        client.phase() is Spilling,
        client.driven(Some(record), Action::Spill, &after, stop),
    ensures
        after.attached() is Some,
        waiting(after.attached()->0) == waiting(client.attached()->0) + record.measurements@,
        stop == Action::Finish(Err(client.phase()->Spilling_0)),
        after.phase() == Phase::Idle,
{
    reveal_with_fuel(Client::driven, 3);
    let (asked, event, then, named) = choose|
        asked: Client<B>,
        event: Event,
        then: Client<B>,
        named: Action,
    |
        #![trigger asked.advanced(event, &then, named)]
        client.performed(Action::Spill, Some(record), &asked, Some(event)) && asked.advanced(
            event,
            &then,
            named,
        ) && crate::client::nearer(
            client.phase().stage(),
            Action::Spill,
            then.phase().stage(),
            named,
        ) && then.driven(Some(record), named, &after, stop);
    assert(client.asks(Action::Spill, Some(record)));
    assert(named is Finish);
}

/// After a replay that was delivered, the backlog forgets what was
/// replayed, and the client stops at the delivery of the new record.
pub proof fn law_drive_truncates<B: Backlog>(
    waiting: spec_fn(B) -> Seq<Measurement>,
    client: Client<B>,
    record: &Record,
    after: Client<B>,
    stop: Action,
)
    requires
        keeps(waiting),
        client.attached() is Some,
        client.phase() is Truncating,
        !client.is_flushing(),
        client.driven(Some(record), Action::Truncate, &after, stop),
    ensures
        after.attached() is Some,
        waiting(after.attached()->0).len() == 0,
        stop == Action::Send,
        after.phase() == Phase::Sending,
{
    reveal_with_fuel(Client::driven, 3);
    let (asked, event, then, named) = choose|
        asked: Client<B>,
        event: Event,
        then: Client<B>,
        named: Action,
    |
        #![trigger asked.advanced(event, &then, named)]
        client.performed(Action::Truncate, Some(record), &asked, Some(event))
            && asked.advanced(event, &then, named) && crate::client::nearer(
            client.phase().stage(),
            Action::Truncate,
            then.phase().stage(),
            named,
        ) && then.driven(Some(record), named, &after, stop);
    assert(client.asks(Action::Truncate, Some(record)));
    assert(named == Action::Send);
}

/// The measurements that are handed to the transport at a stop of the
/// client: those of the record that is being replayed at a replay, those of
/// the new record otherwise.
pub open spec fn payload<B: Backlog>(client: Client<B>, stop: Action, record: &Record) -> Seq<
    Measurement,
> {
    if stop is Replay {
        client.replayed()->0.measurements@
    } else {
        record.measurements@
    }
}

/// Tells whether the transport of `world`, handed what the client stops
/// at, answers with `outcome` and is `then` afterwards: it refuses while it
/// has failures left, and accepts otherwise.
pub open spec fn answered<B: Backlog>(
    client: Client<B>,
    stop: Action,
    record: &Record,
    world: World<Measurement>,
    outcome: InfluxResult<()>,
    then: World<Measurement>,
) -> bool {
    &&& then == deliver(world, payload(client, stop, record)).0
    &&& outcome is Ok <==> deliver(world, payload(client, stop, record)).1 == Signal::Delivered
}

/// Tells whether a call that has stopped for the second time ends as said:
/// at once where the stop is the end, and after the delivery of the new
/// record otherwise.
pub open spec fn ended<B: Backlog>(
    client: Client<B>,
    stop: Action,
    record: &Record,
    world: World<Measurement>,
    last: Client<B>,
    end: World<Measurement>,
    result: InfluxResult<()>,
) -> bool {
    match stop {
        Action::Finish(r) => last == client && end == world && result == r,
        Action::Send => exists|
            outcome: InfluxResult<()>,
            taken: Client<B>,
            named: Action,
            stop2: Action,
        |
            #![trigger client.advanced(Event::Delivered(outcome), &taken, named), taken.driven(Some(record), named, &last, stop2)]
            answered(client, stop, record, world, outcome, end) && client.advanced(
                Event::Delivered(outcome),
                &taken,
                named,
            ) && taken.driven(Some(record), named, &last, stop2) && stop2 == Action::Finish(
                result,
            ),
        _ => false,
    }
}

/// Tells whether a call that has stopped at its first delivery goes on as
/// said: the transport answers, the client takes the answer as `advance`
/// does and is driven on as `drive` does, and the call ends from there.
pub open spec fn delivered<B: Backlog>(
    first: Client<B>,
    stop: Action,
    record: &Record,
    world: World<Measurement>,
    last: Client<B>,
    end: World<Measurement>,
    result: InfluxResult<()>,
) -> bool {
    exists|
        outcome: InfluxResult<()>,
        then: World<Measurement>,
        taken: Client<B>,
        named: Action,
        second: Client<B>,
        stop2: Action,
    |
        #![trigger first.advanced(Event::Delivered(outcome), &taken, named), ended(second, stop2, record, then, last, end, result)]
        answered(first, stop, record, world, outcome, then) && first.advanced(
            Event::Delivered(outcome),
            &taken,
            named,
        ) && taken.driven(Some(record), named, &second, stop2) && ended(
            second,
            stop2,
            record,
            then,
            last,
            end,
            result,
        )
}

/// Tells whether a call that has stopped for the first time ends as said:
/// at once where the stop is the end, and as `delivered` says where it is
/// a delivery.
pub open spec fn stopped<B: Backlog>(
    first: Client<B>,
    stop: Action,
    record: &Record,
    world: World<Measurement>,
    last: Client<B>,
    end: World<Measurement>,
    result: InfluxResult<()>,
) -> bool {
    match stop {
        Action::Finish(r) => last == first && end == world && result == r,
        Action::Replay | Action::Send => delivered(first, stop, record, world, last, end, result),
        _ => false,
    }
}

/// Tells whether `begun` is the client `before` after `write` has begun a
/// call for `record` on it: the record can be sent, the settings are the
/// same, and the backlog is about to be read.
pub open spec fn began<B: Backlog>(before: Client<B>, begun: Client<B>, record: &Record) -> bool {
    &&& record.is_valid()
    &&& begun.same_settings(&before)
    &&& !begun.is_flushing()
    &&& begun.phase() == Phase::Reading
}

/// Tells whether one call of `write` with `record`, driven to its end
/// against the transport of `world`, leads from the client `before` to the
/// client `last`, to the world `end` and to `result`.
///
/// The call begins as `write` does for a record that can be sent, on a
/// client with a backlog. Then the client is driven as `drive` does; at
/// each stop that is a delivery the transport answers, and the client
/// takes the answer as `advance` does. In `world` and `end` only what the
/// transport holds counts; what waits is in the backlog of the client.
pub open spec fn called<B: Backlog>(
    before: Client<B>,
    record: &Record,
    world: World<Measurement>,
    last: Client<B>,
    end: World<Measurement>,
    result: InfluxResult<()>,
) -> bool {
    exists|begun: Client<B>, first: Client<B>, stop: Action|
        #![trigger begun.driven(Some(record), Action::ReadPending, &first, stop)]
        began(before, begun, record) && begun.driven(
            Some(record),
            Action::ReadPending,
            &first,
            stop,
        ) && stopped(first, stop, record, world, last, end, result)
}

/// The world of the model that stands for a client and the world of its
/// transport: what waits is what waits in the backlog of the client.
pub open spec fn seen<B: Backlog>(
    waiting: spec_fn(B) -> Seq<Measurement>,
    client: Client<B>,
    world: World<Measurement>,
) -> World<Measurement> {
    World { waiting: waiting(client.attached()->0), ..world }
}

/// The client does what the model says. One call of `write`, on a client
/// whose backlog keeps its records, leaves the backlog and the transport
/// as `write_in` leaves the world of the model, ends well exactly where
/// the model is committed, and leaves the client idle with its backlog
/// attached.
pub proof fn law_call_is_write_in<B: Backlog>(
    waiting: spec_fn(B) -> Seq<Measurement>,
    before: Client<B>,
    record: &Record,
    world: World<Measurement>,
    last: Client<B>,
    end: World<Measurement>,
    result: InfluxResult<()>,
)
    requires
        keeps(waiting),
        before.attached() is Some,
        called(before, record, world, last, end, result),
    ensures
        last.attached() is Some,
        last.phase() == Phase::Idle,
        seen(waiting, last, end) == write_in(seen(waiting, before, world), record.measurements@).0,
        result is Ok <==> write_in(seen(waiting, before, world), record.measurements@).1
            == Verdict::Committed,
{
    reveal_with_fuel(run, 6);
    let (begun, first, stop) = choose|begun: Client<B>, first: Client<B>, stop: Action|
        #![trigger begun.driven(Some(record), Action::ReadPending, &first, stop)]
        began(before, begun, record) && begun.driven(
            Some(record),
            Action::ReadPending,
            &first,
            stop,
        ) && stopped(first, stop, record, world, last, end, result);
    law_drive_reads_first(waiting, begun, record, first, stop);
    let (outcome, then, taken, named, second, stop2) = choose|
        outcome: InfluxResult<()>,
        then: World<Measurement>,
        taken: Client<B>,
        named: Action,
        second: Client<B>,
        stop2: Action,
    |
        #![trigger first.advanced(Event::Delivered(outcome), &taken, named), ended(second, stop2, record, then, last, end, result)]
        answered(first, stop, record, world, outcome, then) && first.advanced(
            Event::Delivered(outcome),
            &taken,
            named,
        ) && taken.driven(Some(record), named, &second, stop2) && ended(
            second,
            stop2,
            record,
            then,
            last,
            end,
            result,
        );
    if outcome is Err {
        // The transport refused: the new record spills, and the call ends.
        assert(named == Action::Spill);
        law_drive_spills(waiting, taken, record, second, stop2);
    } else if stop is Replay {
        // The replay was delivered: the backlog forgets it, and the new
        // record is sent.
        assert(named == Action::Truncate);
        law_drive_truncates(waiting, taken, record, second, stop2);
        let (outcome2, taken2, named2, stop3) = choose|
            outcome2: InfluxResult<()>,
            taken2: Client<B>,
            named2: Action,
            stop3: Action,
        |
            #![trigger second.advanced(Event::Delivered(outcome2), &taken2, named2), taken2.driven(Some(record), named2, &last, stop3)]
            answered(second, stop2, record, then, outcome2, end) && second.advanced(
                Event::Delivered(outcome2),
                &taken2,
                named2,
            ) && taken2.driven(Some(record), named2, &last, stop3) && stop3 == Action::Finish(
                result,
            );
        assert(outcome2 is Ok);
        assert(named2 is Finish);
        reveal_with_fuel(Client::driven, 2);
    } else {
        // The new record was delivered, and nothing waited.
        assert(named is Finish);
        reveal_with_fuel(Client::driven, 2);
    }
    assert(seen(waiting, last, end).waiting =~= write_in(
        seen(waiting, before, world),
        record.measurements@,
    ).0.waiting);
}

/// The measurements of each of the records.
pub open spec fn measured(records: Seq<Record>) -> Seq<Seq<Measurement>> {
    Seq::new(records.len(), |i: int| records[i].measurements@)
}

/// Tells whether one call of `write` for each of the records, in order,
/// each driven to its end against the transport, leads from the client
/// `before` and the world `world` to the client `last` and the world
/// `end`.
pub open spec fn calls<B: Backlog>(
    before: Client<B>,
    records: Seq<Record>,
    world: World<Measurement>,
    last: Client<B>,
    end: World<Measurement>,
) -> bool
    decreases records.len(),
{
    if records.len() == 0 {
        last == before && end == world
    } else {
        exists|mid: Client<B>, between: World<Measurement>, result: InfluxResult<()>|
            #![trigger called(mid, &records.last(), between, last, end, result)]
            calls(before, records.drop_last(), world, mid, between) && called(
                mid,
                &records.last(),
                between,
                last,
                end,
                result,
            )
    }
}

/// Call after call the client does what the model says.
pub proof fn law_calls_are_writes<B: Backlog>(
    waiting: spec_fn(B) -> Seq<Measurement>,
    before: Client<B>,
    records: Seq<Record>,
    world: World<Measurement>,
    last: Client<B>,
    end: World<Measurement>,
)
    requires
        keeps(waiting),
        before.attached() is Some,
        calls(before, records, world, last, end),
    ensures
        last.attached() is Some,
        seen(waiting, last, end) == writes(seen(waiting, before, world), measured(records)),
    decreases records.len(),
{
    if records.len() > 0 {
        let (mid, between, result) = choose|
            mid: Client<B>,
            between: World<Measurement>,
            result: InfluxResult<()>,
        |
            #![trigger called(mid, &records.last(), between, last, end, result)]
            calls(before, records.drop_last(), world, mid, between) && called(
                mid,
                &records.last(),
                between,
                last,
                end,
                result,
            );
        law_calls_are_writes(waiting, before, records.drop_last(), world, mid, between);
        law_call_is_write_in(waiting, mid, &records.last(), between, last, end, result);
        assert(measured(records).drop_last() =~= measured(records.drop_last()));
        assert(measured(records).last() == records.last().measurements@);
    }
}

/// At-least-once delivery, on the client. A client whose backlog keeps its
/// records and holds none writes one record after another, all for the
/// one destination of the backlog, while the transport refuses as many
/// deliveries as there are records but one. Then nothing waits in the
/// backlog, and what the transport has accepted is every measurement of
/// every record, once, in order.
pub proof fn law_client_delivers_at_least_once<B: Backlog>(
    waiting: spec_fn(B) -> Seq<Measurement>,
    before: Client<B>,
    records: Seq<Record>,
    world: World<Measurement>,
    last: Client<B>,
    end: World<Measurement>,
)
    requires
        keeps(waiting),
        before.attached() is Some,
        waiting(before.attached()->0).len() == 0,
        records.len() > 0,
        world.failures == records.len() - 1,
        world.delivered.len() == 0,
        world.attempts.len() == 0,
        calls(before, records, world, last, end),
    ensures
        last.attached() is Some,
        waiting(last.attached()->0).len() == 0,
        end.failures == 0,
        concat(end.delivered) == concat(measured(records)),
{
    law_calls_are_writes(waiting, before, records, world, last, end);
    law_at_least_once(measured(records));
    let start = World::<Measurement> {
        waiting: Seq::empty(),
        failures: (records.len() - 1) as nat,
        delivered: Seq::empty(),
        attempts: Seq::empty(),
    };
    assert(seen(waiting, before, world).waiting =~= start.waiting);
    assert(seen(waiting, before, world).delivered =~= start.delivered);
    assert(seen(waiting, before, world).attempts =~= start.attempts);
    assert(seen(waiting, before, world) == start);
}

/// Drain priority, on the client. Where something waits in a backlog that
/// keeps its records and the transport refuses, a call of `write` hands
/// what waits to the transport and nothing else, the new measurements end
/// up behind what waited, and the call fails.
pub proof fn law_client_drains_first<B: Backlog>(
    waiting: spec_fn(B) -> Seq<Measurement>,
    before: Client<B>,
    record: &Record,
    world: World<Measurement>,
    last: Client<B>,
    end: World<Measurement>,
    result: InfluxResult<()>,
)
    requires
        keeps(waiting),
        before.attached() is Some,
        waiting(before.attached()->0).len() > 0,
        world.failures > 0,
        called(before, record, world, last, end, result),
    ensures
        last.attached() is Some,
        end.attempts == world.attempts.push(waiting(before.attached()->0)),
        end.delivered == world.delivered,
        waiting(last.attached()->0) == waiting(before.attached()->0) + record.measurements@,
        result is Err,
{
    law_call_is_write_in(waiting, before, record, world, last, end, result);
    law_write_while_down(seen(waiting, before, world), record.measurements@);
}

} // verus!

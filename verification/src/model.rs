//! What the rules of the pipeline achieve, shown on a model of the world
//! around it: one destination with the measurements that wait for it, and a
//! transport that refuses a given number of deliveries before it accepts.
//! That the client does to such a world what the model says is shown in
//! the module `refinement`.

use vstd::prelude::*;

use crate::client::next;
use crate::client::Move;
use crate::client::Signal;
use crate::client::Stage;
use crate::client::Verdict;

verus! {

/// The world around the pipeline, for one destination.
pub struct World<M> {
    /// The measurements that wait in the archive of the destination, in the
    /// order of its lines. An empty archive is no archive: its file is
    /// removed.
    pub waiting: Seq<M>,
    /// The number of deliveries that the transport will still refuse.
    pub failures: nat,
    /// What the transport has accepted, delivery by delivery.
    pub delivered: Seq<Seq<M>>,
    /// What was handed to the transport, accepted or not, delivery by
    /// delivery.
    pub attempts: Seq<Seq<M>>,
}

/// All parts one after another.
pub open spec fn concat<M>(parts: Seq<Seq<M>>) -> Seq<M>
    decreases parts.len(),
{
    if parts.len() == 0 {
        Seq::empty()
    } else {
        concat(parts.drop_last()) + parts.last()
    }
}

/// The world after the transport was handed `payload`, and its answer.
pub open spec fn deliver<M>(world: World<M>, payload: Seq<M>) -> (World<M>, Signal) {
    if world.failures > 0 {
        (
            World {
                failures: (world.failures - 1) as nat,
                attempts: world.attempts.push(payload),
                ..world
            },
            Signal::Rejected,
        )
    } else {
        (
            World {
                delivered: world.delivered.push(payload),
                attempts: world.attempts.push(payload),
                ..world
            },
            Signal::Delivered,
        )
    }
}

/// The world after a move of the pipeline was carried out for a call with
/// the new measurements `record`, and the signal that it gives back. The
/// backlog does what is asked of it: reading tells whether anything waits,
/// a replay hands all that waits to the transport, truncating removes it,
/// and a spill puts the new measurements behind it.
pub open spec fn respond<M>(world: World<M>, m: Move, record: Seq<M>) -> (World<M>, Signal) {
    match m {
        Move::Read => (
            world,
            if world.waiting.len() > 0 {
                Signal::ReadSome
            } else {
                Signal::ReadEmpty
            },
        ),
        Move::Replay => deliver(world, world.waiting),
        Move::Truncate => (World { waiting: Seq::empty(), ..world }, Signal::Truncated),
        Move::Send => deliver(world, record),
        Move::Spill => (World { waiting: world.waiting + record, ..world }, Signal::Spilled),
        Move::Finish(_) => (world, Signal::Begin),
    }
}

/// The world and the verdict at the end of a call that stands at `stage`
/// and gets `signal`, where every move is carried out as `respond` says.
/// The call is with a backlog and with new measurements.
pub open spec fn run<M>(stage: Stage, signal: Signal, world: World<M>, record: Seq<M>, fuel: nat)
    -> (World<M>, Verdict)
    decreases fuel,
{
    let (after, m) = next(stage, true, false, signal);
    match m {
        Move::Finish(verdict) => (world, verdict),
        _ => if fuel == 0 {
            (world, Verdict::OutOfTurn)
        } else {
            let (changed, answer) = respond(world, m, record);
            run(after, answer, changed, record, (fuel - 1) as nat)
        },
    }
}

/// The world and the verdict after one call of `write` with the new
/// measurements `record`. No call takes more than five moves.
pub open spec fn write_in<M>(world: World<M>, record: Seq<M>) -> (World<M>, Verdict) {
    run(Stage::Idle, Signal::Begin, world, record, 5)
}

/// The world after one call of `write` for each of the records, in order.
pub open spec fn writes<M>(world: World<M>, records: Seq<Seq<M>>) -> World<M>
    decreases records.len(),
{
    if records.len() == 0 {
        world
    } else {
        write_in(writes(world, records.drop_last()), records.last()).0
    }
}

/// While the transport refuses, a call makes one delivery and queues the
/// new measurements behind what waits: the delivery is that of what waits,
/// if anything does, and of the new measurements otherwise.
pub proof fn law_write_while_down<M>(world: World<M>, record: Seq<M>)
    requires
        world.failures > 0,
    ensures
        write_in(world, record) == (
            World {
                waiting: world.waiting + record,
                failures: (world.failures - 1) as nat,
                delivered: world.delivered,
                attempts: world.attempts.push(
                    if world.waiting.len() > 0 {
                        world.waiting
                    } else {
                        record
                    },
                ),
            },
            Verdict::Queued,
        ),
{
    reveal_with_fuel(run, 6);
}

/// Once the transport accepts, a call delivers what waits, removes it from
/// the backlog, and then delivers the new measurements.
pub proof fn law_write_while_up<M>(world: World<M>, record: Seq<M>)
    requires
        world.failures == 0,
    ensures
        write_in(world, record) == (
            World {
                waiting: Seq::empty(),
                failures: 0,
                delivered: if world.waiting.len() > 0 {
                    world.delivered.push(world.waiting).push(record)
                } else {
                    world.delivered.push(record)
                },
                attempts: if world.waiting.len() > 0 {
                    world.attempts.push(world.waiting).push(record)
                } else {
                    world.attempts.push(record)
                },
            },
            Verdict::Committed,
        ),
{
    reveal_with_fuel(run, 6);
    if world.waiting.len() == 0 {
        assert(world.waiting =~= Seq::<M>::empty());
    }
}

/// Drain priority: where something waits, the first delivery of a call is
/// that of what waits, not that of the new measurements. Where the
/// transport refuses it, the new measurements are never handed to the
/// transport and end up behind what waited, in the same archive.
pub proof fn law_drain_priority<M>(world: World<M>, record: Seq<M>)
    requires
        world.waiting.len() > 0,
    ensures
        write_in(world, record).0.attempts.len() > world.attempts.len(),
        write_in(world, record).0.attempts[world.attempts.len() as int] == world.waiting,
        world.failures > 0 ==> {
            &&& write_in(world, record).0.attempts == world.attempts.push(world.waiting)
            &&& write_in(world, record).0.waiting == world.waiting + record
            &&& write_in(world, record).1 == Verdict::Queued
        },
{
    if world.failures > 0 {
        law_write_while_down(world, record);
    } else {
        law_write_while_up(world, record);
    }
}

/// One more part behind the others is one more part at the end.
proof fn lemma_concat_push<M>(parts: Seq<Seq<M>>, last: Seq<M>)
    ensures
        concat(parts.push(last)) == concat(parts) + last,
{
    assert(parts.push(last).drop_last() == parts);
}

/// While the transport refuses every call, all that was written waits in
/// order, and nothing was delivered.
proof fn lemma_writes_while_down<M>(start: World<M>, records: Seq<Seq<M>>)
    requires
        start.failures >= records.len(),
    ensures
        writes(start, records).waiting == start.waiting + concat(records),
        writes(start, records).failures == start.failures - records.len(),
        writes(start, records).delivered == start.delivered,
    decreases records.len(),
{
    if records.len() == 0 {
        assert(start.waiting + concat(records) =~= start.waiting);
    } else {
        let front = records.drop_last();
        lemma_writes_while_down(start, front);
        law_write_while_down(writes(start, front), records.last());
        assert(start.waiting + concat(front) + records.last() =~= start.waiting + concat(
            records,
        ));
    }
}

/// At-least-once delivery: where the transport refuses as many deliveries
/// as there are records but one, a call of `write` for each record, in
/// order, leaves nothing in the backlog, and what the transport has
/// accepted is every measurement of every record, once, in order.
pub proof fn law_at_least_once<M>(records: Seq<Seq<M>>)
    requires
        records.len() > 0,
    ensures
        ({
            let start = World::<M> {
                waiting: Seq::empty(),
                failures: (records.len() - 1) as nat,
                delivered: Seq::empty(),
                attempts: Seq::empty(),
            };
            &&& writes(start, records).waiting.len() == 0
            &&& writes(start, records).failures == 0
            &&& concat(writes(start, records).delivered) == concat(records)
        }),
{
    let start = World::<M> {
        waiting: Seq::empty(),
        failures: (records.len() - 1) as nat,
        delivered: Seq::empty(),
        attempts: Seq::empty(),
    };
    let front = records.drop_last();
    lemma_writes_while_down(start, front);
    let middle = writes(start, front);
    assert(middle.waiting =~= concat(front));
    law_write_while_up(middle, records.last());
    let end = writes(start, records);
    if middle.waiting.len() > 0 {
        lemma_concat_push(Seq::<Seq<M>>::empty().push(middle.waiting), records.last());
        lemma_concat_push(Seq::<Seq<M>>::empty(), middle.waiting);
        assert(concat(Seq::<Seq<M>>::empty()) =~= Seq::<M>::empty());
        assert(concat(end.delivered) =~= concat(front) + records.last());
    } else {
        lemma_concat_push(Seq::<Seq<M>>::empty(), records.last());
        assert(concat(Seq::<Seq<M>>::empty()) =~= Seq::<M>::empty());
        assert(concat(front) =~= Seq::<M>::empty());
        assert(concat(end.delivered) =~= concat(front) + records.last());
    }
}

} // verus!

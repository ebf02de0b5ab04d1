//! Whole poll cycles: what a run of the monitor over every tracked path
//! comes to, and what holds of it.

use crate::monitor::{state_ok, step, Event, MonitorState, Phase, Request};
use crate::registry::Entry;
use vstd::prelude::*;

verus! {

/// What happened to one tracked path in a cycle: how it was observed, and,
/// as far as the cycle got to ask for it, how packing and writing ended.
pub struct Round {
    pub observed: Event,
    pub packed: Event,
    pub written: Event,
}

/// Whether the three events of a round are of the kinds that their places
/// call for.
pub open spec fn round_ok(r: Round) -> bool {
    &&& r.observed is Observed
    &&& r.packed is Packed
    &&& r.written is Written
}

/// The fingerprint observed in a round.
pub open spec fn seen(r: Round) -> Seq<u8> {
    match r.observed {
        Event::Observed { hash, is_file, clock } => hash@,
        _ => Seq::empty(),
    }
}

/// Whether a round ends with an archive written for a path that held `held`:
/// the fingerprint observed differs, the source was packed, and the archive
/// was written.
pub open spec fn archives(held: Seq<u8>, r: Round) -> bool {
    &&& seen(r) != held
    &&& r.packed matches Event::Packed(Some(_))
    &&& r.written matches Event::Written(true)
}

/// How many of the rounds end with an archive written, for paths that held
/// `entries` before the cycle, place by place.
pub open spec fn archived(entries: Seq<Entry>, rounds: Seq<Round>) -> nat
    decreases rounds.len(),
{
    if rounds.len() == 0 || rounds.len() > entries.len() {
        0
    } else {
        archived(entries, rounds.drop_last()) + if archives(
            entries[rounds.len() - 1].1,
            rounds.last(),
        ) {
            1nat
        } else {
            0nat
        }
    }
}

/// The monitor after the events of one round, fed as far as it asks for
/// them, and the request that it ends on.
pub open spec fn round(s: MonitorState, r: Round) -> (MonitorState, Request) {
    let first = step(s, r.observed);
    if first.0.phase != Phase::Collecting {
        first
    } else {
        let second = step(first.0, r.packed);
        if second.0.phase != Phase::Writing {
            second
        } else {
            step(second.0, r.written)
        }
    }
}

/// The monitor after one round after another, from `start`.
pub open spec fn run(start: (MonitorState, Request), rounds: Seq<Round>) -> (
    MonitorState,
    Request,
)
    decreases rounds.len(),
{
    if rounds.len() == 0 {
        start
    } else {
        round(run(start, rounds.drop_last()).0, rounds.last())
    }
}

/// One whole cycle: a tick, then one round for each tracked path.
pub open spec fn cycle(s: MonitorState, rounds: Seq<Round>) -> (MonitorState, Request) {
    run(step(s, Event::Tick), rounds)
}

/// Where a cycle stands after its first `k` rounds.
proof fn lemma_run(s: MonitorState, rounds: Seq<Round>, k: int)
    requires
        state_ok(s),
        s.phase == Phase::Idle,
        rounds.len() == s.entries.len(),
        forall|i: int| 0 <= i < rounds.len() ==> round_ok(#[trigger] rounds[i]),
        0 <= k <= rounds.len(),
        rounds.len() > 0,
    ensures
        ({
            let t = run(step(s, Event::Tick), rounds.take(k));
            &&& state_ok(t.0)
            &&& t.0.destination == s.destination
            &&& t.0.entries.len() == s.entries.len()
            &&& t.0.cursor == k
            &&& t.0.phase == if k < rounds.len() {
                Phase::Observing
            } else {
                Phase::Idle
            }
            &&& t.0.count == archived(s.entries, rounds.take(k))
            &&& forall|i: int|
                0 <= i < k ==> #[trigger] t.0.entries[i] == (s.entries[i].0, seen(rounds[i]))
            &&& forall|i: int| k <= i < s.entries.len() ==> #[trigger] t.0.entries[i] == s.entries[i]
            &&& k == rounds.len() ==> t.1 == Request::Done { changed: t.0.count }
        }),
    decreases k,
{
    if k == 0 {
        assert(rounds.take(0).len() == 0);
    } else {
        lemma_run(s, rounds, k - 1);
        let before = rounds.take(k - 1);
        let upto = rounds.take(k);
        assert(upto.drop_last() =~= before);
        assert(upto.last() == rounds[k - 1]);
        let r = rounds[k - 1];
        assert(round_ok(r));
        let t = run(step(s, Event::Tick), before).0;
        let held = t.entries[k - 1];
        assert(held == s.entries[k - 1]);
        let after = round(t, r).0;
        assert(after.entries[k - 1] == (held.0, seen(r)));
        assert forall|i: int| 0 <= i < k implies #[trigger] after.entries[i] == (
            s.entries[i].0,
            seen(rounds[i]),
        ) by {
            if i < k - 1 {
                assert(after.entries[i] == t.entries[i]);
            }
        }
        assert forall|i: int| k <= i < s.entries.len() implies #[trigger] after.entries[i]
            == s.entries[i] by {
            assert(after.entries[i] == t.entries[i]);
        }
        assert forall|i: int| 0 <= i < after.entries.len() implies (#[trigger] after.entries[i]).0
            == t.entries[i].0 by {}
    }
}

/// What a cycle comes to. It ends idle on the request that reports the
/// count. Afterwards every tracked path holds the fingerprint observed for
/// it in this cycle, whether or not its archive succeeded, and the count is
/// the number of paths whose archive was written.
pub proof fn lemma_cycle(s: MonitorState, rounds: Seq<Round>)
    requires
        state_ok(s),
        s.phase == Phase::Idle,
        rounds.len() == s.entries.len(),
        forall|i: int| 0 <= i < rounds.len() ==> round_ok(#[trigger] rounds[i]),
    ensures
        ({
            let t = cycle(s, rounds);
            &&& state_ok(t.0)
            &&& t.0.phase == Phase::Idle
            &&& t.0.destination == s.destination
            &&& t.0.entries.len() == s.entries.len()
            &&& forall|i: int|
                0 <= i < s.entries.len() ==> #[trigger] t.0.entries[i] == (
                    s.entries[i].0,
                    seen(rounds[i]),
                )
            &&& t.0.count == archived(s.entries, rounds)
            &&& t.1 == Request::Done { changed: archived(s.entries, rounds) }
        }),
{
    if rounds.len() > 0 {
        lemma_run(s, rounds, rounds.len() as int);
        assert(rounds.take(rounds.len() as int) =~= rounds);
    }
}

/// Nothing is archived where no round observes a fingerprint other than the
/// one held.
proof fn lemma_nothing_archived(entries: Seq<Entry>, rounds: Seq<Round>)
    requires
        rounds.len() <= entries.len(),
        forall|i: int| 0 <= i < rounds.len() ==> seen(#[trigger] rounds[i]) == entries[i].1,
    ensures
        archived(entries, rounds) == 0,
    decreases rounds.len(),
{
    if rounds.len() > 0 {
        assert(seen(rounds[rounds.len() - 1]) == entries[rounds.len() - 1].1);
        assert forall|i: int| 0 <= i < rounds.drop_last().len() implies seen(
            #[trigger] rounds.drop_last()[i],
        ) == entries[i].1 by {
            assert(rounds.drop_last()[i] == rounds[i]);
        }
        lemma_nothing_archived(entries, rounds.drop_last());
    }
}

/// A round that ends with an archive written is counted.
proof fn lemma_archived_counts(entries: Seq<Entry>, rounds: Seq<Round>, p: int)
    requires
        rounds.len() <= entries.len(),
        0 <= p < rounds.len(),
        archives(entries[p].1, rounds[p]),
    ensures
        archived(entries, rounds) >= 1,
    decreases rounds.len(),
{
    if p < rounds.len() - 1 {
        assert(rounds.drop_last()[p] == rounds[p]);
        lemma_archived_counts(entries, rounds.drop_last(), p);
    }
}

/// Two cycles in a row: where the second observes for every tracked path
/// the fingerprint that the first observed, the second archives nothing and
/// reports a count of zero.
pub proof fn lemma_second_cycle_finds_nothing(
    s: MonitorState,
    first: Seq<Round>,
    second: Seq<Round>,
)
    requires
        state_ok(s),
        s.phase == Phase::Idle,
        first.len() == s.entries.len(),
        second.len() == s.entries.len(),
        forall|i: int| 0 <= i < first.len() ==> round_ok(#[trigger] first[i]),
        forall|i: int| 0 <= i < second.len() ==> round_ok(#[trigger] second[i]),
        forall|i: int| 0 <= i < first.len() ==> seen(#[trigger] second[i]) == seen(first[i]),
    ensures
        cycle(cycle(s, first).0, second).1 == (Request::Done { changed: 0 }),
        cycle(cycle(s, first).0, second).0.count == 0,
        cycle(cycle(s, first).0, second).0.entries == cycle(s, first).0.entries,
{
    lemma_cycle(s, first);
    let t = cycle(s, first).0;
    lemma_cycle(t, second);
    assert forall|i: int| 0 <= i < second.len() implies seen(#[trigger] second[i])
        == t.entries[i].1 by {
        assert(seen(second[i]) == seen(first[i]));
        assert(t.entries[i] == (s.entries[i].0, seen(first[i])));
    }
    lemma_nothing_archived(t.entries, second);
    let u = cycle(t, second).0;
    assert forall|i: int| 0 <= i < t.entries.len() implies u.entries[i] == t.entries[i] by {
        assert(u.entries[i] == (t.entries[i].0, seen(second[i])));
        assert(t.entries[i] == (s.entries[i].0, seen(first[i])));
    }
    assert(u.entries =~= t.entries);
}

/// A change is picked up: where the fingerprint observed for the path at
/// place `p` differs from the one held, the registry holds the observed one
/// after the cycle; and where the archive of that path was also packed and
/// written, the cycle reports a count of at least one.
pub proof fn lemma_change_is_picked_up(s: MonitorState, rounds: Seq<Round>, p: int)
    requires
        state_ok(s),
        s.phase == Phase::Idle,
        rounds.len() == s.entries.len(),
        forall|i: int| 0 <= i < rounds.len() ==> round_ok(#[trigger] rounds[i]),
        0 <= p < rounds.len(),
        seen(rounds[p]) != s.entries[p].1,
    ensures
        cycle(s, rounds).0.entries[p] == (s.entries[p].0, seen(rounds[p])),
        archives(s.entries[p].1, rounds[p]) ==> cycle(s, rounds).0.count >= 1 && cycle(
            s,
            rounds,
        ).1 == (Request::Done { changed: cycle(s, rounds).0.count }),
{
    lemma_cycle(s, rounds);
    if archives(s.entries[p].1, rounds[p]) {
        lemma_archived_counts(s.entries, rounds, p);
    }
}

} // verus!

//! The end of a round: the winner is credited, everything goes back to where
//! it was spawned, and play pauses.

use crate::entity::{Entities, PaddleSide, RoundEnd, Score, ScoreView};
use crate::state::PlayingState;
use vstd::prelude::*;

verus! {

/// How many of `events` name `side` as the winner.
pub open spec fn wins(events: Seq<RoundEnd>, side: PaddleSide) -> nat
    decreases events.len(),
{
    if events.len() == 0 {
        0
    } else {
        wins(events.drop_last(), side) + if events.last().winner == side {
            1nat
        } else {
            0nat
        }
    }
}

/// The score after every one of `events` has been counted.
pub open spec fn settle(score: ScoreView, events: Seq<RoundEnd>) -> ScoreView {
    ScoreView {
        player: score.player + wins(events, PaddleSide::Left),
        computer: score.computer + wins(events, PaddleSide::Right),
    }
}

/// Counting one signal is crediting its winner.
pub proof fn lemma_settle_one(score: ScoreView, event: RoundEnd)
    ensures
        settle(score, seq![event]) == score.credit(event.winner),
{
    let events: Seq<RoundEnd> = seq![event];
    assert(events.drop_last().len() == 0);
    assert(events.last() == event);
    assert(wins(events.drop_last(), PaddleSide::Left) == 0);
    assert(wins(events.drop_last(), PaddleSide::Right) == 0);
}

/// Counting no signal leaves the score as it is.
pub proof fn lemma_settle_none(score: ScoreView)
    ensures
        settle(score, Seq::<RoundEnd>::empty()) == score,
{
}

/// The first signals of a queue hold no more wins than the whole queue, and
/// one signal more adds one win for its winner.
proof fn lemma_wins_prefix(events: Seq<RoundEnd>, side: PaddleSide, n: int)
    requires
        0 <= n <= events.len(),
    ensures
        wins(events.take(n), side) <= wins(events, side),
        n < events.len() ==> wins(events.take(n + 1), side) == wins(events.take(n), side)
            + if events[n].winner == side {
            1nat
        } else {
            0nat
        },
    decreases events.len() - n,
{
    if n < events.len() {
        assert(events.take(n + 1).drop_last() == events.take(n));
        assert(events.take(n + 1).last() == events[n]);
        lemma_wins_prefix(events, side, n + 1);
    } else {
        assert(events.take(n) == events);
    }
}

/// Handles every signal in the queue: credits the winner, puts everything back
/// where it was spawned, serves the ball again and pauses play. The queue is
/// empty afterwards. With no signal in the queue nothing changes.
pub fn handle_round_end(
    events: &mut Vec<RoundEnd>,
    entities: &mut Entities,
    score: &mut Score,
    playing: &mut PlayingState,
)
    requires
        old(score).player + wins(old(events)@, PaddleSide::Left) <= u32::MAX,
        old(score).computer + wins(old(events)@, PaddleSide::Right) <= u32::MAX,
    ensures
        final(events)@.len() == 0,
        final(score)@ == settle(old(score)@, old(events)@),
        old(events)@.len() == 0 ==> *final(entities) == *old(entities) && *final(playing) == *old(
            playing,
        ),
        old(events)@.len() > 0 ==> final(entities)@ == old(entities)@.reset() && *final(playing)
            == PlayingState::Paused,
{
    let mut i: usize = 0;
    while i < events.len()
        invariant
            i <= events.len(),
            events@ == old(events)@,
            old(score).player + wins(old(events)@, PaddleSide::Left) <= u32::MAX,
            old(score).computer + wins(old(events)@, PaddleSide::Right) <= u32::MAX,
            score.player == old(score).player + wins(events@.take(i as int), PaddleSide::Left),
            score.computer == old(score).computer + wins(
                events@.take(i as int),
                PaddleSide::Right,
            ),
            i == 0 ==> *entities == *old(entities) && *playing == *old(playing),
            i > 0 ==> entities@ == old(entities)@.reset() && *playing == PlayingState::Paused,
        decreases events.len() - i,
    {
        proof {
            lemma_wins_prefix(events@, PaddleSide::Left, i as int);
            lemma_wins_prefix(events@, PaddleSide::Right, i as int);
            lemma_wins_prefix(events@, PaddleSide::Left, i as int + 1);
            lemma_wins_prefix(events@, PaddleSide::Right, i as int + 1);
        }
        let event = events[i];
        match event.winner {
            PaddleSide::Left => {
                score.player = score.player + 1;
            },
            PaddleSide::Right => {
                score.computer = score.computer + 1;
            },
        }
        entities.reset();
        *playing = PlayingState::Paused;
        i = i + 1;
    }
    proof {
        assert(events@.take(events@.len() as int) == events@);
    }
    events.clear();
}

} // verus!

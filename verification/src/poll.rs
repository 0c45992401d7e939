//! Change-counter polling.
//!
//! A polling backend cannot be told about changes; it reads a
//! monotonically-advancing change counter and compares each reading with the
//! last recorded one. This module gives that comparison its meaning: a
//! sequence of counter readings is translated into the observations of
//! [`crate::engine`]. The first reading is the baseline — it records a value
//! and never counts as a change.

use vstd::prelude::*;

use crate::engine::WatchEvent;

verus! {

/// The observations a polling backend derives from the counter readings
/// `counts` made after a baseline reading of `prev`: a reading equal to the
/// last recorded value is an idle wait, any other reading is a detected
/// change and becomes the new recorded value.
pub open spec fn counter_observations(prev: i64, counts: Seq<i64>) -> Seq<WatchEvent>
    decreases counts.len(),
{
    if counts.len() == 0 {
        Seq::empty()
    } else if counts[0] == prev {
        seq![WatchEvent::Idle] + counter_observations(prev, counts.skip(1))
    } else {
        seq![WatchEvent::Changed] + counter_observations(counts[0], counts.skip(1))
    }
}

/// Law: every counter reading after the baseline yields exactly one
/// observation — so no reading is dropped and none is reported twice.
pub proof fn lemma_one_observation_per_reading(prev: i64, counts: Seq<i64>)
    ensures
        counter_observations(prev, counts).len() == counts.len(),
    decreases counts.len(),
{
    if counts.len() > 0 {
        if counts[0] == prev {
            lemma_one_observation_per_reading(prev, counts.skip(1));
        } else {
            lemma_one_observation_per_reading(counts[0], counts.skip(1));
        }
    }
}

/// Turns a sequence of counter readings into watch-loop observations.
///
/// `counts[0]` is the baseline read: it only establishes the starting value
/// and never produces an observation of its own.
pub fn counter_events(counts: &Vec<i64>) -> (evs: Vec<WatchEvent>)
    requires
        counts@.len() >= 1,
    ensures
        evs@ == counter_observations(counts@[0], counts@.skip(1)),
{
    let mut evs: Vec<WatchEvent> = Vec::new();
    let mut prev: i64 = counts[0];
    let mut i: usize = 1;
    proof {
        assert(evs@ + counter_observations(prev, counts@.skip(1)) =~= counter_observations(
            counts@[0],
            counts@.skip(1),
        ));
    }
    while i < counts.len()
        invariant
            1 <= i <= counts@.len(),
            evs@ + counter_observations(prev, counts@.skip(i as int)) == counter_observations(
                counts@[0],
                counts@.skip(1),
            ),
        decreases counts@.len() - i,
    {
        let ghost rest = counts@.skip(i as int);
        proof {
            assert(rest[0] == counts@[i as int]);
            assert(rest.skip(1) =~= counts@.skip(i as int + 1));
        }
        let cur = counts[i];
        if cur == prev {
            evs.push(WatchEvent::Idle);
            proof {
                assert(evs@ + counter_observations(prev, counts@.skip(i as int + 1))
                    =~= (evs@.drop_last() + (seq![WatchEvent::Idle] + counter_observations(
                    prev,
                    counts@.skip(i as int + 1),
                ))));
            }
        } else {
            evs.push(WatchEvent::Changed);
            proof {
                assert(evs@ + counter_observations(cur, counts@.skip(i as int + 1))
                    =~= (evs@.drop_last() + (seq![WatchEvent::Changed] + counter_observations(
                    cur,
                    counts@.skip(i as int + 1),
                ))));
            }
            prev = cur;
        }
        i = i + 1;
    }
    proof {
        assert(counts@.skip(i as int) =~= Seq::<i64>::empty());
        assert(evs@ + Seq::<WatchEvent>::empty() =~= evs@);
    }
    evs
}

} // verus!

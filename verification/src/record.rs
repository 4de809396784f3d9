//! The steps of a run, one record each, in the order in which they were
//! played.

use crate::agent::Reward;
use vstd::prelude::*;

verus! {

/// What happened at one step: on which bandit, at which step, what the arm
/// paid and whether it was the best arm.
#[derive(Clone, Copy, Debug)]
pub struct StepRecord {
    pub trial: usize,
    pub step: usize,
    pub reward: Reward,
    pub optimal: bool,
}

/// The lesser of two lengths.
pub open spec fn shorter(a: nat, b: nat) -> nat {
    if a <= b {
        a
    } else {
        b
    }
}

/// The records of one bandit: one for each step that both rows hold.
pub open spec fn row_records(trial: int, rewards: Seq<Reward>, optimality: Seq<bool>) -> Seq<
    StepRecord,
> {
    Seq::new(
        shorter(rewards.len(), optimality.len()),
        |j: int|
            StepRecord {
                trial: trial as usize,
                step: j as usize,
                reward: rewards[j],
                optimal: optimality[j],
            },
    )
}

/// The records of the first `trials` bandits, bandit by bandit.
pub open spec fn table_records(
    rewards: Seq<Vec<Reward>>,
    optimality: Seq<Vec<bool>>,
    trials: nat,
) -> Seq<StepRecord>
    decreases trials,
{
    if trials == 0 {
        Seq::empty()
    } else {
        table_records(rewards, optimality, (trials - 1) as nat) + row_records(
            trials - 1,
            rewards[trials - 1]@,
            optimality[trials - 1]@,
        )
    }
}

/// The two tables of a run as one list of records, bandit by bandit and
/// step by step. Where one table is shorter than the other, or one row
/// shorter than its partner, what has no partner is left out.
pub fn records(rewards: &Vec<Vec<Reward>>, optimality: &Vec<Vec<bool>>) -> (out: Vec<StepRecord>)
    ensures
        out@ == table_records(
            rewards@,
            optimality@,
            shorter(rewards.len() as nat, optimality.len() as nat),
        ),
{
    let trials: usize = if rewards.len() <= optimality.len() {
        rewards.len()
    } else {
        optimality.len()
    };
    let mut out: Vec<StepRecord> = Vec::new();
    let mut i: usize = 0;
    while i < trials
        invariant
            i <= trials,
            trials == shorter(rewards.len() as nat, optimality.len() as nat),
            out@ == table_records(rewards@, optimality@, i as nat),
        decreases trials - i,
    {
        let row_r: &Vec<Reward> = &rewards[i];
        let row_o: &Vec<bool> = &optimality[i];
        let steps: usize = if row_r.len() <= row_o.len() {
            row_r.len()
        } else {
            row_o.len()
        };
        let ghost done = out@;
        let mut j: usize = 0;
        while j < steps
            invariant
                j <= steps,
                steps == shorter(row_r.len() as nat, row_o.len() as nat),
                out@ == done + row_records(i as int, row_r@, row_o@).take(j as int),
            decreases steps - j,
        {
            out.push(StepRecord { trial: i, step: j, reward: row_r[j], optimal: row_o[j] });
            j += 1;
            assert(out@ =~= done + row_records(i as int, row_r@, row_o@).take(j as int));
        }
        assert(row_records(i as int, row_r@, row_o@).take(steps as int) =~= row_records(
            i as int,
            row_r@,
            row_o@,
        ));
        i += 1;
    }
    out
}

/// Full tables give one record for each bandit and step: with `trials` rows
/// of `steps` entries in both tables there are `trials * steps` records, and
/// the record of bandit `i` and step `j` stands at `i * steps + j`.
pub proof fn records_of_full_tables(
    rewards: Seq<Vec<Reward>>,
    optimality: Seq<Vec<bool>>,
    trials: nat,
    steps: nat,
)
    requires
        trials <= rewards.len(),
        trials <= optimality.len(),
        trials <= usize::MAX,
        forall|i: int| 0 <= i < trials ==> (#[trigger] rewards[i]).len() == steps,
        forall|i: int| 0 <= i < trials ==> (#[trigger] optimality[i]).len() == steps,
    ensures
        table_records(rewards, optimality, trials).len() == trials * steps,
        forall|i: int, j: int|
            0 <= i < trials && 0 <= j < steps ==> table_records(rewards, optimality, trials)[i
                * steps + j] == (StepRecord {
                trial: i as usize,
                step: j as usize,
                reward: (#[trigger] rewards[i][j]),
                optimal: optimality[i][j],
            }),
    decreases trials,
{
    if trials > 0 {
        let before = (trials - 1) as nat;
        records_of_full_tables(rewards, optimality, before, steps);
        let all = table_records(rewards, optimality, trials);
        let head = table_records(rewards, optimality, before);
        let tail = row_records(before as int, rewards[before as int]@, optimality[before as int]@);
        assert(all == head + tail);
        assert(tail.len() == steps);
        assert(all.len() == before * steps + steps);
        assert(trials * steps == before * steps + steps) by (nonlinear_arith)
            requires
                trials == before + 1,
        ;
        assert forall|i: int, j: int| 0 <= i < trials && 0 <= j < steps implies all[i * steps + j]
            == (StepRecord {
            trial: i as usize,
            step: j as usize,
            reward: (#[trigger] rewards[i][j]),
            optimal: optimality[i][j],
        }) by {
            if i < before {
                assert((i + 1) * steps <= before * steps) by (nonlinear_arith)
                    requires
                        0 <= i + 1 <= before,
                ;
                assert((i + 1) * steps == i * steps + steps) by (nonlinear_arith);
                assert(0 <= i * steps) by (nonlinear_arith)
                    requires
                        0 <= i,
                ;
                assert(all[i * steps + j] == head[i * steps + j]);
            } else {
                assert(i * steps + j == head.len() + j);
                assert(all[i * steps + j] == tail[j]);
            }
        }
    } else {
        assert(trials * steps == 0) by (nonlinear_arith)
            requires
                trials == 0,
        ;
    }
}

} // verus!

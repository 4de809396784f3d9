//! Bandits, and the testbed that plays an agent against many of them.

use crate::agent::{Action, Agent, Reward};
use crate::argmax::{argmax, is_argmax};
use vstd::prelude::*;

verus! {

/// How many bandits a testbed holds when nothing else is asked for.
pub const TRIALS: usize = 2000;

/// How many arms each of them has.
pub const ARMS: usize = 10;

/// How many steps are played on each.
pub const STEPS: usize = 1000;

/// One arm: a source of rewards that scatter about a fixed mean. What it
/// pays is up to chance: of a sample only this is known, that it is one of
/// the rewards that the arm pays. The mean it reports is the one it has.
/// Whoever implements the arm owes both.
pub trait Bandit {
    /// Whether `r` is a reward that the arm may pay: for an arm without
    /// noise its mean alone, for one with unbounded noise any number.
    spec fn pays(&self, r: Reward) -> bool;

    /// The mean of the rewards that the arm pays. It is fixed when the arm
    /// is made.
    spec fn mean_value(&self) -> Reward;

    /// The mean of the rewards that the arm pays.
    fn mean(&self) -> (m: Reward)
        ensures
            m == self.mean_value(),
    ;

    /// One reward, drawn independently of all others.
    fn sample(&self) -> (r: Reward)
        ensures
            self.pays(r),
    ;
}

/// A bandit with several arms. It does not change while it is played.
pub struct KArmedBandit<T: Bandit> {
    bandits: Vec<Box<T>>,
}

impl<T: Bandit> KArmedBandit<T> {
    /// The arms, by index.
    pub closed spec fn arms(&self) -> Seq<Box<T>> {
        self.bandits@
    }

    /// The bandit whose arms are `bandits`, in that order.
    pub fn new(bandits: Vec<Box<T>>) -> (mab: Self)
        ensures
            mab.arms() == bandits@,
    {
        KArmedBandit { bandits }
    }

    /// The number of arms.
    pub fn n_arms(&self) -> (n: usize)
        ensures
            n == self.arms().len(),
    {
        self.bandits.len()
    }

    /// Plays arm `a` once and returns what it paid: one sample of that arm.
    pub fn step(&self, a: Action) -> (r: Reward)
        requires
            a < self.arms().len(),
        ensures
            self.arms()[a as int].pays(r),
    {
        let n: usize = self.bandits.len();
        assert(a < n);
        self.bandits[a as usize].sample()
    }

    /// The mean of each arm, by index.
    pub fn means(&self) -> (means: Vec<Reward>)
        ensures
            means.len() == self.arms().len(),
            forall|a: int|
                0 <= a < means.len() ==> (#[trigger] means@[a]) == self.arms()[a].mean_value(),
    {
        let mut means: Vec<Reward> = Vec::new();
        let mut a: usize = 0;
        while a < self.bandits.len()
            invariant
                a <= self.bandits.len(),
                means.len() == a,
                forall|b: int|
                    0 <= b < a ==> (#[trigger] means@[b]) == self.bandits@[b].mean_value(),
            decreases self.bandits.len() - a,
        {
            means.push(self.bandits[a].mean());
            a += 1;
        }
        means
    }
}

/// Whether `longer` is `shorter` with `n` more entries behind it.
pub open spec fn grown_by<X>(longer: Seq<X>, shorter: Seq<X>, n: int) -> bool {
    &&& longer.len() == shorter.len() + n
    &&& forall|k: int| 0 <= k < shorter.len() ==> longer[k] == shorter[k]
}

/// A population of bandits, each with the arm that pays best on average,
/// and the number of steps to play on each.
pub struct TenArmedTestbed<T: Bandit> {
    mabs: Vec<KArmedBandit<T>>,
    means: Vec<Vec<Reward>>,
    optimal: Vec<Action>,
    steps: usize,
}

impl<T: Bandit> TenArmedTestbed<T> {
    #[verifier::type_invariant]
    spec fn well_formed(&self) -> bool {
        &&& self.means.len() == self.mabs.len()
        &&& self.optimal.len() == self.mabs.len()
        &&& forall|i: int|
            0 <= i < self.mabs.len() ==> (#[trigger] self.means@[i]).len()
                == self.mabs@[i].arms().len()
        &&& forall|i: int|
            0 <= i < self.mabs.len() ==> is_argmax(
                (#[trigger] self.means@[i])@,
                self.optimal@[i] as int,
            )
        &&& forall|i: int, a: int|
            0 <= i < self.mabs.len() && 0 <= a < self.mabs@[i].arms().len() ==> (
            #[trigger] self.means@[i]@[a]) == self.mabs@[i].arms()[a].mean_value()
    }

    /// Bandit `i`.
    pub closed spec fn bandit(&self, i: int) -> KArmedBandit<T> {
        self.mabs@[i]
    }

    /// The number of bandits.
    pub closed spec fn trial_count(&self) -> nat {
        self.mabs.len() as nat
    }

    /// The number of steps played on each bandit.
    pub closed spec fn horizon(&self) -> nat {
        self.steps as nat
    }

    /// The number of arms of bandit `i`.
    pub open spec fn arm_count(&self, i: int) -> nat {
        self.bandit(i).arms().len()
    }

    /// The means of the arms of bandit `i`.
    pub closed spec fn arm_means(&self, i: int) -> Seq<Reward> {
        self.means@[i]@
    }

    /// The arm of bandit `i` that pays best on average.
    pub closed spec fn optimal(&self, i: int) -> Action {
        self.optimal@[i]
    }

    /// Whether one step on bandit `i` went as it should. The action is the
    /// one at `c` in the agent's choices, and it is an arm of the bandit. It
    /// was asked for, as the call of `act` at `q`, when the agent had taken
    /// `o` observations. `reward` is one that this arm of the bandit pays.
    /// The agent's observation at `o` is that action with `reward`, and
    /// `flag` tells whether the action is the bandit's best arm.
    pub open spec fn played(
        &self,
        i: int,
        chosen: Seq<Action>,
        asked: Seq<nat>,
        observed: Seq<(Action, Reward)>,
        c: int,
        q: int,
        o: int,
        reward: Reward,
        flag: bool,
    ) -> bool {
        &&& chosen[c] < self.arm_count(i)
        &&& asked[q] == o
        &&& self.bandit(i).arms()[chosen[c] as int].pays(reward)
        &&& observed[o] == (chosen[c], reward)
        &&& flag == (chosen[c] == self.optimal(i))
    }

    /// Whether an agent over `arms` arms can be played on this testbed: where
    /// any step is played at all, the agent has an arm to choose, and each
    /// arm it may choose is an arm of every bandit.
    pub open spec fn admits(&self, arms: nat) -> bool {
        self.horizon() > 0 ==> forall|i: int|
            0 <= i < self.trial_count() ==> #[trigger] self.fits(arms, i)
    }

    /// Whether an agent over `arms` arms has an arm to choose and each arm
    /// it may choose is an arm of bandit `i`.
    pub open spec fn fits(&self, arms: nat, i: int) -> bool {
        0 < arms <= self.arm_count(i)
    }

    /// A testbed of the bandits `mabs`, on each of which `steps` steps are
    /// played. The best arm of each is found once, here: it is the arm of the
    /// greatest mean, the lowest of them where several share it.
    pub fn new(mabs: Vec<KArmedBandit<T>>, steps: usize) -> (testbed: Self)
        ensures
            testbed.trial_count() == mabs.len(),
            testbed.horizon() == steps,
            forall|i: int| 0 <= i < mabs.len() ==> #[trigger] testbed.bandit(i) == mabs@[i],
            forall|i: int|
                0 <= i < mabs.len() ==> (#[trigger] testbed.arm_means(i)).len()
                    == mabs@[i].arms().len(),
            forall|i: int, a: int|
                0 <= i < mabs.len() && 0 <= a < mabs@[i].arms().len() ==> (
                #[trigger] testbed.arm_means(i)[a]) == mabs@[i].arms()[a].mean_value(),
            forall|i: int|
                0 <= i < mabs.len() ==> is_argmax(
                    testbed.arm_means(i),
                    (#[trigger] testbed.optimal(i)) as int,
                ),
    {
        let mut means: Vec<Vec<Reward>> = Vec::new();
        let mut optimal: Vec<Action> = Vec::new();
        let mut i: usize = 0;
        while i < mabs.len()
            invariant
                i <= mabs.len(),
                means.len() == i,
                optimal.len() == i,
                forall|l: int|
                    0 <= l < i ==> (#[trigger] means@[l]).len() == mabs@[l].arms().len(),
                forall|l: int|
                    0 <= l < i ==> is_argmax((#[trigger] means@[l])@, optimal@[l] as int),
                forall|l: int, a: int|
                    0 <= l < i && 0 <= a < mabs@[l].arms().len() ==> (#[trigger] means@[l]@[a])
                        == mabs@[l].arms()[a].mean_value(),
            decreases mabs.len() - i,
        {
            let arm_means: Vec<Reward> = mabs[i].means();
            let best: usize = argmax(&arm_means);
            means.push(arm_means);
            optimal.push(best as u64);
            i += 1;
        }
        TenArmedTestbed { mabs, means, optimal, steps }
    }

    /// The number of bandits.
    pub fn trials(&self) -> (n: usize)
        ensures
            n == self.trial_count(),
    {
        self.mabs.len()
    }

    /// The number of steps played on each bandit.
    pub fn steps(&self) -> (n: usize)
        ensures
            n == self.horizon(),
    {
        self.steps
    }

    /// Whether an agent over `arms` arms can be played on this testbed.
    pub fn accepts(&self, arms: u64) -> (ok: bool)
        ensures
            ok == self.admits(arms as nat),
    {
        if self.steps == 0 {
            return true;
        }
        let mut i: usize = 0;
        while i < self.mabs.len()
            invariant
                i <= self.mabs.len(),
                self.horizon() > 0,
                self.trial_count() == self.mabs.len(),
                forall|l: int| 0 <= l < i ==> #[trigger] self.fits(arms as nat, l),
            decreases self.mabs.len() - i,
        {
            let n: usize = self.mabs[i].n_arms();
            if arms == 0 || arms > n as u64 {
                assert(!self.fits(arms as nat, i as int));
                return false;
            }
            i += 1;
        }
        true
    }

    /// The arm of bandit `i` that pays best on average: the argmax of the
    /// means of its arms.
    pub fn optimal_action(&self, i: usize) -> (a: Action)
        requires
            i < self.trial_count(),
        ensures
            a == self.optimal(i as int),
            is_argmax(self.arm_means(i as int), a as int),
            self.arm_count(i as int) > 0 ==> a < self.arm_count(i as int),
            self.arm_means(i as int).len() == self.arm_count(i as int),
            forall|b: int|
                0 <= b < self.arm_count(i as int) ==> (#[trigger] self.arm_means(i as int)[b])
                    == self.bandit(i as int).arms()[b].mean_value(),
    {
        proof {
            use_type_invariant(self);
        }
        self.optimal[i]
    }

    /// Plays `agent` on bandit `i` for the testbed's number of steps and
    /// returns, by step, the rewards and whether the best arm was played.
    fn run_trial<A: Agent>(&self, i: usize, agent: &mut A) -> (rows: (Vec<Reward>, Vec<bool>))
        requires
            i < self.trial_count(),
            old(agent).inv(),
            self.horizon() > 0 ==> 0 < old(agent).arms() <= self.arm_count(i as int),
            old(agent).observed().len() + self.horizon() <= u64::MAX,
        ensures
            final(agent).inv(),
            final(agent).arms() == old(agent).arms(),
            rows.0.len() == self.horizon(),
            rows.1.len() == self.horizon(),
            grown_by(final(agent).chosen(), old(agent).chosen(), self.horizon() as int),
            grown_by(final(agent).asked_after(), old(agent).asked_after(), self.horizon() as int),
            grown_by(final(agent).observed(), old(agent).observed(), self.horizon() as int),
            forall|j: int|
                0 <= j < self.horizon() ==> self.played(
                    i as int,
                    final(agent).chosen(),
                    final(agent).asked_after(),
                    final(agent).observed(),
                    old(agent).chosen().len() + j,
                    old(agent).asked_after().len() + j,
                    old(agent).observed().len() + j,
                    rows.0[j],
                    #[trigger] rows.1[j],
                ),
    {
        proof {
            use_type_invariant(self);
        }
        let mut rewards: Vec<Reward> = Vec::with_capacity(self.steps);
        let mut optimality: Vec<bool> = Vec::with_capacity(self.steps);
        let ghost chosen0 = agent.chosen();
        let ghost asked0 = agent.asked_after();
        let ghost observed0 = agent.observed();
        let mut j: usize = 0;
        while j < self.steps
            invariant
                i < self.mabs.len(),
                self.optimal.len() == self.mabs.len(),
                self.horizon() == self.steps,
                j <= self.steps,
                agent.inv(),
                agent.arms() == old(agent).arms(),
                self.steps > 0 ==> 0 < agent.arms() <= self.mabs@[i as int].arms().len(),
                observed0.len() + self.steps <= u64::MAX,
                rewards.len() == j,
                optimality.len() == j,
                grown_by(agent.chosen(), chosen0, j as int),
                grown_by(agent.asked_after(), asked0, j as int),
                grown_by(agent.observed(), observed0, j as int),
                forall|l: int|
                    0 <= l < j ==> self.played(
                        i as int,
                        agent.chosen(),
                        agent.asked_after(),
                        agent.observed(),
                        chosen0.len() + l,
                        asked0.len() + l,
                        observed0.len() + l,
                        rewards@[l],
                        #[trigger] optimality@[l],
                    ),
            decreases self.steps - j,
        {
            let ghost chosen1 = agent.chosen();
            let ghost asked1 = agent.asked_after();
            let ghost observed1 = agent.observed();
            let ghost optimality1 = optimality@;
            let action: Action = agent.act();
            let reward: Reward = self.mabs[i].step(action);
            proof {
                agent.takes_its_arms(action);
            }
            agent.observe(action, reward);
            rewards.push(reward);
            optimality.push(action == self.optimal[i]);
            proof {
                assert forall|l: int| 0 <= l < j + 1 implies self.played(
                    i as int,
                    agent.chosen(),
                    agent.asked_after(),
                    agent.observed(),
                    chosen0.len() + l,
                    asked0.len() + l,
                    observed0.len() + l,
                    rewards@[l],
                    #[trigger] optimality@[l],
                ) by {
                    if l < j {
                        assert(optimality@[l] == optimality1[l]);
                        assert(agent.chosen()[chosen0.len() + l] == chosen1[chosen0.len() + l]);
                        assert(agent.asked_after()[asked0.len() + l] == asked1[asked0.len() + l]);
                        assert(agent.observed()[observed0.len() + l] == observed1[observed0.len()
                            + l]);
                    }
                }
            }
            j += 1;
        }
        (rewards, optimality)
    }

    /// Plays `agent` on every bandit in turn, the testbed's number of steps
    /// on each, and returns the rewards and whether the best arm was played,
    /// both by bandit and step. The agent is the same throughout: what it
    /// has learnt on one bandit it takes to the next.
    ///
    /// At each step the agent is asked for an action, the bandit is played
    /// with it, and the agent is told the action and the reward before it is
    /// asked again: the agent's own record grows by one choice and one
    /// observation per step.
    pub fn run<A: Agent>(&self, agent: &mut A) -> (tables: (Vec<Vec<Reward>>, Vec<Vec<bool>>))
        requires
            old(agent).inv(),
            self.admits(old(agent).arms()),
            old(agent).observed().len() + self.trial_count() * self.horizon() <= u64::MAX,
        ensures
            final(agent).inv(),
            final(agent).arms() == old(agent).arms(),
            tables.0.len() == self.trial_count(),
            tables.1.len() == self.trial_count(),
            forall|i: int|
                0 <= i < self.trial_count() ==> (#[trigger] tables.0[i]).len() == self.horizon(),
            forall|i: int|
                0 <= i < self.trial_count() ==> (#[trigger] tables.1[i]).len() == self.horizon(),
            grown_by(
                final(agent).chosen(),
                old(agent).chosen(),
                (self.trial_count() * self.horizon()) as int,
            ),
            grown_by(
                final(agent).asked_after(),
                old(agent).asked_after(),
                (self.trial_count() * self.horizon()) as int,
            ),
            grown_by(
                final(agent).observed(),
                old(agent).observed(),
                (self.trial_count() * self.horizon()) as int,
            ),
            forall|i: int, j: int|
                0 <= i < self.trial_count() && 0 <= j < self.horizon() ==> self.played(
                    i,
                    final(agent).chosen(),
                    final(agent).asked_after(),
                    final(agent).observed(),
                    old(agent).chosen().len() + i * self.horizon() + j,
                    old(agent).asked_after().len() + i * self.horizon() + j,
                    old(agent).observed().len() + i * self.horizon() + j,
                    tables.0[i][j],
                    #[trigger] tables.1[i][j],
                ),
    {
        let mut rewards: Vec<Vec<Reward>> = Vec::with_capacity(self.mabs.len());
        let mut optimality: Vec<Vec<bool>> = Vec::with_capacity(self.mabs.len());
        let ghost chosen0 = agent.chosen();
        let ghost asked0 = agent.asked_after();
        let ghost observed0 = agent.observed();
        let ghost steps = self.horizon();
        let mut i: usize = 0;
        while i < self.mabs.len()
            invariant
                i <= self.mabs.len(),
                steps == self.horizon(),
                self.trial_count() == self.mabs.len(),
                agent.inv(),
                agent.arms() == old(agent).arms(),
                self.admits(agent.arms()),
                observed0.len() + self.trial_count() * steps <= u64::MAX,
                rewards.len() == i,
                optimality.len() == i,
                forall|l: int| 0 <= l < i ==> (#[trigger] rewards@[l]).len() == steps,
                forall|l: int| 0 <= l < i ==> (#[trigger] optimality@[l]).len() == steps,
                grown_by(agent.chosen(), chosen0, i * steps),
                grown_by(agent.asked_after(), asked0, i * steps),
                grown_by(agent.observed(), observed0, i * steps),
                forall|l: int, j: int|
                    0 <= l < i && 0 <= j < steps ==> self.played(
                        l,
                        agent.chosen(),
                        agent.asked_after(),
                        agent.observed(),
                        chosen0.len() + l * steps + j,
                        asked0.len() + l * steps + j,
                        observed0.len() + l * steps + j,
                        rewards@[l]@[j],
                        #[trigger] optimality@[l]@[j],
                    ),
            decreases self.mabs.len() - i,
        {
            let ghost chosen1 = agent.chosen();
            let ghost asked1 = agent.asked_after();
            let ghost observed1 = agent.observed();
            let ghost rewards1 = rewards@;
            let ghost optimality1 = optimality@;
            proof {
                rows_fit(i as int, self.trial_count() as int, steps as int);
                assert(steps > 0 ==> self.fits(agent.arms(), i as int));
            }
            let rows: (Vec<Reward>, Vec<bool>) = self.run_trial(i, agent);
            rewards.push(rows.0);
            optimality.push(rows.1);
            proof {
                assert forall|l: int, j: int| 0 <= l < i + 1 && 0 <= j < steps implies self.played(
                    l,
                    agent.chosen(),
                    agent.asked_after(),
                    agent.observed(),
                    chosen0.len() + l * steps + j,
                    asked0.len() + l * steps + j,
                    observed0.len() + l * steps + j,
                    rewards@[l]@[j],
                    #[trigger] optimality@[l]@[j],
                ) by {
                    let k = l * steps + j;
                    if l < i {
                        rows_fit(l, i as int, steps as int);
                        assert(optimality@[l] == optimality1[l]);
                        assert(rewards@[l] == rewards1[l]);
                        assert(agent.chosen()[chosen0.len() + k] == chosen1[chosen0.len() + k]);
                        assert(agent.asked_after()[asked0.len() + k] == asked1[asked0.len() + k]);
                        assert(agent.observed()[observed0.len() + k] == observed1[observed0.len()
                            + k]);
                    } else {
                        assert(rows.1[j] == optimality@[l]@[j]);
                    }
                }
            }
            i += 1;
        }
        (rewards, optimality)
    }
}

/// Row `i` of a table of `rows` rows of `width` entries ends where row
/// `i + 1` begins, and within the table.
proof fn rows_fit(i: int, rows: int, width: int)
    requires
        0 <= i < rows,
        0 <= width,
    ensures
        (i + 1) * width == i * width + width,
        (i + 1) * width <= rows * width,
        0 <= i * width,
{
    assert((i + 1) * width == i * width + width) by (nonlinear_arith);
    assert((i + 1) * width <= rows * width) by (nonlinear_arith)
        requires
            0 <= i + 1 <= rows,
            0 <= width,
    ;
    assert(0 <= i * width) by (nonlinear_arith)
        requires
            0 <= i,
            0 <= width,
    ;
}

} // verus!

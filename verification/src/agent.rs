//! Agents: what chooses an arm at each step and learns from the reward.

use crate::argmax::{argmax, is_argmax};
use crate::number::{Binary64, ZERO_BITS};
use crate::random::uniform_below;
use rand::rngs::StdRng;
use vstd::prelude::*;

verus! {

/// What an arm pays at one step.
pub type Reward = Binary64;

/// The index of an arm.
pub type Action = u64;

/// A policy for choosing arms. The testbed asks it for an action, plays the
/// action, and hands back the action with its reward.
///
/// An agent keeps, in ghost state, the record of what it was asked and told;
/// the testbed's contract speaks of that record.
pub trait Agent {
    /// What the agent's own state must satisfy: constructors establish it
    /// and every method keeps it.
    spec fn inv(&self) -> bool;

    /// How many arms the agent chooses among.
    spec fn arms(&self) -> nat;

    /// Every action that `act` has returned so far, oldest first.
    spec fn chosen(&self) -> Seq<Action>;

    /// Every action and reward that `observe` has taken so far, oldest first.
    spec fn observed(&self) -> Seq<(Action, Reward)>;

    /// For every call of `act` so far, oldest first, how many observations
    /// the agent had taken when it was asked.
    spec fn asked_after(&self) -> Seq<nat>;

    /// Whether the agent can take note of a play of arm `a`. An agent that
    /// keeps nothing takes them all.
    spec fn takes(&self, a: Action) -> bool;

    /// Every agent takes note of a play of one of its arms, as long as the
    /// number of its observations fits in 64 bits.
    proof fn takes_its_arms(&self, a: Action)
        requires
            self.inv(),
            a < self.arms(),
            self.observed().len() < u64::MAX,
        ensures
            self.takes(a),
    ;

    /// Chooses the arm to play next.
    fn act(&mut self) -> (a: Action)
        requires
            old(self).inv(),
            old(self).arms() > 0,
        ensures
            final(self).inv(),
            a < old(self).arms(),
            final(self).arms() == old(self).arms(),
            final(self).chosen() == old(self).chosen().push(a),
            final(self).asked_after() == old(self).asked_after().push(old(self).observed().len()),
            final(self).observed() == old(self).observed(),
    ;

    /// Takes note that playing `a` paid `r`.
    fn observe(&mut self, a: Action, r: Reward)
        requires
            old(self).inv(),
            old(self).takes(a),
        ensures
            final(self).inv(),
            final(self).arms() == old(self).arms(),
            final(self).chosen() == old(self).chosen(),
            final(self).asked_after() == old(self).asked_after(),
            final(self).observed() == old(self).observed().push((a, r)),
    ;
}

/// How many of the observations name the arm `a`.
pub open spec fn visits(observed: Seq<(Action, Reward)>, a: Action) -> nat
    decreases observed.len(),
{
    if observed.len() == 0 {
        0
    } else if observed.last().0 == a {
        visits(observed.drop_last(), a) + 1
    } else {
        visits(observed.drop_last(), a)
    }
}

/// An arm is named by no more observations than there are.
pub proof fn visits_are_bounded(observed: Seq<(Action, Reward)>, a: Action)
    ensures
        visits(observed, a) <= observed.len(),
    decreases observed.len(),
{
    if observed.len() > 0 {
        visits_are_bounded(observed.drop_last(), a);
    }
}

/// One more observation is one more visit of the arm it names, and of no
/// other.
pub proof fn visits_grow_by_one(observed: Seq<(Action, Reward)>, b: Action, r: Reward, a: Action)
    ensures
        visits(observed.push((b, r)), a) == visits(observed, a) + if a == b {
            1nat
        } else {
            0nat
        },
{
    assert(observed.push((b, r)).drop_last() =~= observed);
}

/// An agent that picks every arm with the same probability and learns
/// nothing.
pub struct RandomAgent {
    n_arms: u64,
    rng: StdRng,
    chosen: Ghost<Seq<Action>>,
    asked: Ghost<Seq<nat>>,
    observed: Ghost<Seq<(Action, Reward)>>,
}

impl RandomAgent {
    /// The generator that the agent draws from.
    pub closed spec fn source(&self) -> StdRng {
        self.rng
    }

    /// An agent over `n_arms` arms that draws from `rng`.
    pub fn new(n_arms: u64, rng: StdRng) -> (agent: RandomAgent)
        ensures
            agent.inv(),
            agent.arms() == n_arms,
            agent.source() == rng,
            agent.chosen() == Seq::<Action>::empty(),
            agent.asked_after() == Seq::<nat>::empty(),
            agent.observed() == Seq::<(Action, Reward)>::empty(),
    {
        RandomAgent {
            n_arms,
            rng,
            chosen: Ghost(Seq::empty()),
            asked: Ghost(Seq::empty()),
            observed: Ghost(Seq::empty()),
        }
    }
}

impl Agent for RandomAgent {
    closed spec fn inv(&self) -> bool {
        true
    }

    closed spec fn arms(&self) -> nat {
        self.n_arms as nat
    }

    closed spec fn chosen(&self) -> Seq<Action> {
        self.chosen@
    }

    closed spec fn observed(&self) -> Seq<(Action, Reward)> {
        self.observed@
    }

    closed spec fn asked_after(&self) -> Seq<nat> {
        self.asked@
    }

    /// Any play of any arm, of the agent's or not.
    open spec fn takes(&self, a: Action) -> bool {
        true
    }

    proof fn takes_its_arms(&self, a: Action) {
    }

    /// Any arm, each as likely as the others.
    fn act(&mut self) -> (a: Action) {
        let a: u64 = uniform_below(&mut self.rng, self.n_arms);
        self.chosen = Ghost(self.chosen@.push(a));
        self.asked = Ghost(self.asked@.push(self.observed@.len()));
        a
    }

    /// Nothing is learnt and nothing is drawn: but for the record of what was
    /// observed, the agent stays as it was.
    fn observe(&mut self, a: Action, r: Reward)
        ensures
            final(self).source() == old(self).source(),
    {
        self.observed = Ghost(self.observed@.push((a, r)));
    }
}

/// The arithmetic on numbers that an agent leaves to its user: it is done in
/// floating point, which is not proved here. What the agent relies on is
/// stated on the two methods, and whoever implements them owes it.
pub trait Arithmetic {
    /// What `running_mean` computes: the mean of `visits` rewards, from the
    /// mean of all but the last, which is `estimate`, and the last, which is
    /// `reward`. In floating point that is
    /// `estimate + (reward - estimate) / visits`.
    spec fn mean_of(&self, estimate: Reward, reward: Reward, visits: u64) -> Reward;

    /// A number drawn with `rng`, uniformly from the half-open range from 0
    /// to 1.
    fn unit(&self, rng: &mut StdRng) -> (u: Reward)
        ensures
            u.in_unit_range(),
    ;

    /// The mean of `visits` rewards: see `mean_of`.
    fn running_mean(&self, estimate: Reward, reward: Reward, visits: u64) -> (q: Reward)
        ensures
            q.same(self.mean_of(estimate, reward, visits)),
    ;
}

/// An agent that estimates the value of each arm by the mean of the rewards
/// it paid. With probability epsilon it explores, playing any arm; otherwise
/// it exploits, playing the arm of the greatest estimate.
pub struct EpsilonGreedyAgent<F: Arithmetic> {
    n_arms: u64,
    epsilon: Reward,
    counts: Vec<u64>,
    values: Vec<Reward>,
    rng: StdRng,
    arithmetic: F,
    chosen: Ghost<Seq<Action>>,
    asked: Ghost<Seq<nat>>,
    observed: Ghost<Seq<(Action, Reward)>>,
}

impl<F: Arithmetic> EpsilonGreedyAgent<F> {
    /// The probability of exploring.
    pub closed spec fn epsilon(&self) -> Reward {
        self.epsilon
    }

    /// How often each arm was observed.
    pub closed spec fn counts(&self) -> Seq<u64> {
        self.counts@
    }

    /// The estimate of each arm's value.
    pub closed spec fn values(&self) -> Seq<Reward> {
        self.values@
    }

    /// The arithmetic that the agent was given.
    pub closed spec fn arithmetic(&self) -> F {
        self.arithmetic
    }

    /// The generator that the agent draws from.
    pub closed spec fn source(&self) -> StdRng {
        self.rng
    }

    /// An agent holds one count and one estimate for each arm.
    pub proof fn one_entry_for_each_arm(&self)
        requires
            self.inv(),
        ensures
            self.counts().len() == self.arms(),
            self.values().len() == self.arms(),
    {
    }

    /// An agent over `n_arms` arms that has seen nothing yet: every count
    /// and every estimate is zero.
    pub fn new(n_arms: u64, epsilon: Reward, rng: StdRng, arithmetic: F) -> (agent: Self)
        requires
            n_arms <= usize::MAX,
        ensures
            agent.inv(),
            agent.arms() == n_arms,
            agent.epsilon() == epsilon,
            agent.arithmetic() == arithmetic,
            agent.source() == rng,
            agent.counts() == Seq::new(n_arms as nat, |a: int| 0u64),
            agent.values() == Seq::new(n_arms as nat, |a: int| Binary64 { bits: ZERO_BITS }),
            agent.chosen() == Seq::<Action>::empty(),
            agent.asked_after() == Seq::<nat>::empty(),
            agent.observed() == Seq::<(Action, Reward)>::empty(),
    {
        let mut counts: Vec<u64> = Vec::new();
        let mut values: Vec<Reward> = Vec::new();
        let mut a: u64 = 0;
        while a < n_arms
            invariant
                a <= n_arms,
                counts@ == Seq::new(a as nat, |a: int| 0u64),
                values@ == Seq::new(a as nat, |a: int| Binary64 { bits: ZERO_BITS }),
            decreases n_arms - a,
        {
            counts.push(0);
            values.push(Binary64::zero());
            a += 1;
            assert(counts@ =~= Seq::new(a as nat, |a: int| 0u64));
            assert(values@ =~= Seq::new(a as nat, |a: int| Binary64 { bits: ZERO_BITS }));
        }
        EpsilonGreedyAgent {
            n_arms,
            epsilon,
            counts,
            values,
            rng,
            arithmetic,
            chosen: Ghost(Seq::empty()),
            asked: Ghost(Seq::empty()),
            observed: Ghost(Seq::empty()),
        }
    }

    /// How often arm `a` was observed.
    pub fn count(&self, a: Action) -> (n: u64)
        requires
            self.inv(),
            a < self.arms(),
        ensures
            n == self.counts()[a as int],
    {
        self.counts[a as usize]
    }

    /// The estimate of the value of arm `a`.
    pub fn estimate(&self, a: Action) -> (q: Reward)
        requires
            self.inv(),
            a < self.arms(),
        ensures
            q == self.values()[a as int],
    {
        self.values[a as usize]
    }

    /// The arm of the greatest estimate, the lowest of them where several
    /// share it.
    pub fn greedy(&self) -> (a: Action)
        requires
            self.inv(),
            self.arms() > 0,
        ensures
            is_argmax(self.values(), a as int),
            a < self.arms(),
    {
        argmax(&self.values) as u64
    }

    /// The arm to play when the draw that decides between exploring and
    /// exploiting came out as `u`: any arm if `u` is below epsilon, drawn
    /// from the agent's generator; the greedy one if not, and then nothing is
    /// drawn. With epsilon zero no draw from the unit range is below it, and
    /// the greedy arm is played.
    pub fn decide(&mut self, u: Reward) -> (a: Action)
        requires
            old(self).inv(),
            old(self).arms() > 0,
        ensures
            final(self).inv(),
            a < old(self).arms(),
            !u.below(old(self).epsilon()) ==> is_argmax(old(self).values(), a as int),
            !u.below(old(self).epsilon()) ==> final(self).source() == old(self).source(),
            old(self).epsilon().is_zero() && u.in_unit_range() ==> is_argmax(
                old(self).values(),
                a as int,
            ),
            final(self).arms() == old(self).arms(),
            final(self).epsilon() == old(self).epsilon(),
            final(self).arithmetic() == old(self).arithmetic(),
            final(self).asked_after() == old(self).asked_after(),
            final(self).counts() == old(self).counts(),
            final(self).values() == old(self).values(),
            final(self).chosen() == old(self).chosen(),
            final(self).observed() == old(self).observed(),
    {
        if u.lt(self.epsilon) {
            uniform_below(&mut self.rng, self.n_arms)
        } else {
            self.greedy()
        }
    }

    /// Each count is the number of observations that name its arm.
    pub proof fn counts_are_visits(&self, a: Action)
        requires
            self.inv(),
            a < self.arms(),
        ensures
            self.counts()[a as int] == visits(self.observed(), a),
    {
    }

    /// Counts one more observation of arm `a`, which paid `r`, and takes
    /// `estimate` as the new estimate of its value. Nothing else changes.
    pub fn record(&mut self, a: Action, r: Reward, estimate: Reward)
        requires
            old(self).inv(),
            a < old(self).arms(),
            old(self).observed().len() < u64::MAX,
        ensures
            final(self).inv(),
            final(self).arms() == old(self).arms(),
            final(self).epsilon() == old(self).epsilon(),
            final(self).arithmetic() == old(self).arithmetic(),
            final(self).source() == old(self).source(),
            final(self).asked_after() == old(self).asked_after(),
            old(self).counts()[a as int] < u64::MAX,
            final(self).counts() == old(self).counts().update(
                a as int,
                (old(self).counts()[a as int] + 1) as u64,
            ),
            final(self).values() == old(self).values().update(a as int, estimate),
            final(self).chosen() == old(self).chosen(),
            final(self).observed() == old(self).observed().push((a, r)),
    {
        proof {
            visits_are_bounded(self.observed@, a);
            assert forall|b: int| 0 <= b < self.counts.len() implies visits(
                self.observed@.push((a, r)),
                b as Action,
            ) == self.counts@[b] + if b == a {
                1nat
            } else {
                0nat
            } by {
                visits_grow_by_one(self.observed@, a, r, b as Action);
            }
        }
        let n: u64 = self.counts[a as usize] + 1;
        self.counts[a as usize] = n;
        self.values[a as usize] = estimate;
        self.observed = Ghost(self.observed@.push((a, r)));
    }
}

impl<F: Arithmetic> Agent for EpsilonGreedyAgent<F> {
    closed spec fn inv(&self) -> bool {
        &&& self.counts.len() == self.n_arms
        &&& self.values.len() == self.n_arms
        &&& forall|a: int|
            0 <= a < self.counts.len() ==> (#[trigger] self.counts@[a]) == visits(
                self.observed@,
                a as Action,
            )
    }

    closed spec fn arms(&self) -> nat {
        self.n_arms as nat
    }

    closed spec fn chosen(&self) -> Seq<Action> {
        self.chosen@
    }

    closed spec fn observed(&self) -> Seq<(Action, Reward)> {
        self.observed@
    }

    closed spec fn asked_after(&self) -> Seq<nat> {
        self.asked@
    }

    /// A play of one of the agent's arms, while the number of observations
    /// fits in 64 bits.
    closed spec fn takes(&self, a: Action) -> bool {
        a < self.n_arms && self.observed@.len() < u64::MAX
    }

    proof fn takes_its_arms(&self, a: Action) {
    }

    /// Draws a number from the unit range and chooses by it: see `decide`.
    /// With epsilon zero the arm is the greedy one, whatever is drawn; so it
    /// is with a negative epsilon and with one that is no number, which no
    /// draw from the unit range is below.
    fn act(&mut self) -> (a: Action)
        ensures
            old(self).epsilon().is_zero() ==> is_argmax(old(self).values(), a as int),
            old(self).epsilon().nan() || old(self).epsilon().rank() <= 0 ==> is_argmax(
                old(self).values(),
                a as int,
            ),
            final(self).epsilon() == old(self).epsilon(),
            final(self).arithmetic() == old(self).arithmetic(),
            final(self).counts() == old(self).counts(),
            final(self).values() == old(self).values(),
    {
        let u: Reward = self.arithmetic.unit(&mut self.rng);
        let a: Action = self.decide(u);
        self.chosen = Ghost(self.chosen@.push(a));
        self.asked = Ghost(self.asked@.push(self.observed@.len()));
        a
    }

    /// Counts the observation and moves the estimate of arm `a` to the mean
    /// of the rewards that the arm has paid: the running mean of the old
    /// estimate and `r`, over the count after this observation.
    fn observe(&mut self, a: Action, r: Reward)
        ensures
            final(self).epsilon() == old(self).epsilon(),
            final(self).arithmetic() == old(self).arithmetic(),
            final(self).source() == old(self).source(),
            a < old(self).arms(),
            old(self).counts()[a as int] < u64::MAX,
            final(self).counts() == old(self).counts().update(
                a as int,
                (old(self).counts()[a as int] + 1) as u64,
            ),
            final(self).values().len() == old(self).values().len(),
            final(self).values()[a as int].same(
                old(self).arithmetic().mean_of(
                    old(self).values()[a as int],
                    r,
                    (old(self).counts()[a as int] + 1) as u64,
                ),
            ),
            forall|b: int|
                0 <= b < old(self).values().len() && b != a ==> final(self).values()[b] == old(
                    self,
                ).values()[b],
    {
        proof {
            visits_are_bounded(self.observed@, a);
        }
        let n: u64 = self.counts[a as usize] + 1;
        let estimate: Reward = self.arithmetic.running_mean(self.values[a as usize], r, n);
        self.record(a, r, estimate);
    }
}

} // verus!

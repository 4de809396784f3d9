use bandits::agent::{Agent, RandomAgent, Reward};
use bandits::bandit::{Bandit, KArmedBandit, TenArmedTestbed};
use bandits::number::Binary64;
use bandits::record::{records, StepRecord};
use rand::rngs::StdRng;
use rand::SeedableRng;

fn num(x: f64) -> Binary64 {
    Binary64::from_bits(x.to_bits())
}

fn val(x: Binary64) -> f64 {
    f64::from_bits(x.to_bits())
}

fn row(xs: &[f64]) -> Vec<Reward> {
    xs.iter().map(|x| num(*x)).collect()
}

fn plain(list: &Vec<StepRecord>) -> Vec<(usize, usize, f64, bool)> {
    list.iter().map(|r| (r.trial, r.step, val(r.reward), r.optimal)).collect()
}

struct Fixed {
    mean: f64,
}

impl Bandit for Fixed {
    fn pays(&self, r: Reward) -> bool {
        r.to_bits() == self.mean.to_bits()
    }

    fn mean_value(&self) -> Reward {
        num(self.mean)
    }

    fn mean(&self) -> Reward {
        num(self.mean)
    }

    fn sample(&self) -> Reward {
        num(self.mean)
    }
}

#[test]
fn records_go_bandit_by_bandit_and_step_by_step() {
    let rewards = vec![row(&[1.0, 2.0, 3.0]), row(&[4.0, 5.0, 6.0])];
    let optimality = vec![vec![true, false, false], vec![false, true, true]];
    assert_eq!(
        plain(&records(&rewards, &optimality)),
        vec![
            (0, 0, 1.0, true),
            (0, 1, 2.0, false),
            (0, 2, 3.0, false),
            (1, 0, 4.0, false),
            (1, 1, 5.0, true),
            (1, 2, 6.0, true),
        ]
    );
}

#[test]
fn records_of_empty_tables_are_none() {
    assert!(records(&Vec::new(), &Vec::new()).is_empty());
    assert!(records(&vec![Vec::new(), Vec::new()], &vec![Vec::new(), Vec::new()]).is_empty());
}

#[test]
fn records_leave_out_what_has_no_partner() {
    let rewards = vec![row(&[1.0, 2.0, 3.0]), row(&[4.0]), row(&[7.0, 8.0])];
    let optimality = vec![vec![true, false], vec![false, true, true]];
    assert_eq!(
        plain(&records(&rewards, &optimality)),
        vec![(0, 0, 1.0, true), (0, 1, 2.0, false), (1, 0, 4.0, false)]
    );
}

#[test]
fn a_run_gives_one_record_for_each_bandit_and_step() {
    let mabs: Vec<KArmedBandit<Fixed>> = (0..6)
        .map(|_| KArmedBandit::new((0..3).map(|a| Box::new(Fixed { mean: a as f64 })).collect()))
        .collect();
    let tb = TenArmedTestbed::new(mabs, 11);
    let mut agent = RandomAgent::new(3, StdRng::seed_from_u64(3));
    let mut alone = RandomAgent::new(3, StdRng::seed_from_u64(3));
    let (rewards, optimality) = tb.run(&mut agent);
    let list = records(&rewards, &optimality);
    assert_eq!(list.len(), 6 * 11);
    for i in 0..6 {
        for j in 0..11 {
            let record = &list[i * 11 + j];
            let played = alone.act();
            assert_eq!(record.trial, i);
            assert_eq!(record.step, j);
            assert_eq!(val(record.reward), played as f64);
            assert_eq!(record.optimal, played == 2);
            assert_eq!(record.reward.to_bits(), rewards[i][j].to_bits());
            assert_eq!(record.optimal, optimality[i][j]);
        }
    }
}

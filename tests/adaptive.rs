use rmcmc::{AdaptState, Adaptive, Group, MockBuilder, Runner, SteppingAlg, SteppingKernel};

/// A kernel that adds one to the model, scores it by its value, and
/// counts the steps it was told to adapt on.
struct Counter {
    adapted: u32,
    resets: u32,
}

impl SteppingKernel<i64, ()> for Counter {
    type Score = i64;

    fn step_with_log_likelihood(
        &mut self,
        _rng: &mut (),
        model: i64,
        _log_likelihood: Option<i64>,
        adapting: bool,
    ) -> (i64, Option<i64>) {
        if adapting {
            self.adapted += 1;
        }
        (model + 1, Some(model + 1))
    }

    fn draw_prior(&self, _rng: &mut (), _m: i64) -> i64 {
        100
    }

    fn reset(&mut self) {
        self.resets += 1;
    }
}

#[test]
fn adaptive_passes_the_switch_and_keeps_the_score() {
    let mut s = Adaptive::new(Counter { adapted: 0, resets: 0 });
    let mut rng = ();
    assert!(s.adapt_state() == AdaptState::Off);
    assert_eq!(s.step(&mut rng, 1), 2);
    assert_eq!(s.kernel().adapted, 0);
    s.adapt_enable();
    assert!(s.adapt_state() == AdaptState::On);
    assert_eq!(s.step_with_log_likelihood(&mut rng, 5, None), (6, Some(6)));
    assert_eq!(s.kernel().adapted, 1);
    assert_eq!(s.draw_prior(&mut rng, 0), 100);
    s.reset();
    assert!(s.adapt_state() == AdaptState::Off);
    assert_eq!(s.kernel().resets, 1);
}

#[test]
fn group_of_adaptive_kernels_reports_merged_state() {
    let mut group = Group::new(vec![
        Adaptive::new(Counter { adapted: 0, resets: 0 }),
        Adaptive::new(Counter { adapted: 0, resets: 0 }),
    ]);
    let mut rng = ();
    assert!(group.adapt_state() == AdaptState::Off);
    group.adapt_enable();
    assert!(group.adapt_state() == AdaptState::On);
    assert_eq!(group.step_with_log_likelihood(&mut rng, 0, None), (2, Some(2)));
    group.reset();
    assert!(group.adapt_state() == AdaptState::Off);
}

#[test]
fn runner_validity() {
    let builder = MockBuilder::new();
    let runner: Runner<i32, MockBuilder> = Runner::new(&builder);
    assert!(runner.is_valid());
    assert!(runner.thinning(3).chains(2).is_valid());
}

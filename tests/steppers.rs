use rand::SeedableRng;
use rmcmc::group::{Group, GroupBuilder};
use rmcmc::{draw_from_stepper, AdaptState, AdaptationMode, AdaptationStatus, Mock, MockBuilder, MockStepper, StepperBuilder, SteppingAlg};

const SEED: [u8; 32] = [0; 32];

#[test]
fn update_can_do_simple_updates() {
    let update = |x: i32| x + 1;
    let init: i32 = 1;
    let mut mock = Mock::new(init, update);
    let mut rng = rand::rngs::StdRng::from_seed(SEED);
    let a = mock.step(&mut rng, init);
    assert_eq!(a, 2);
    let b = mock.step(&mut rng, a);
    assert_eq!(b, 3);
}

#[test]
fn builder_constructs_sub_steppers() {
    let builder = GroupBuilder::new(vec![MockBuilder::new(), MockBuilder::new()]);
    let group: Group<MockStepper, u64> = StepperBuilder::<i32, ()>::build(&builder);
    assert!(AdaptState::Off == SteppingAlg::<i32, ()>::adapt_state(&group));
}

#[test]
fn mock_multiple_steps_and_sample() {
    let mut mock = Mock::new(0i64, |x: i64| x + 2);
    let mut rng = ();
    assert_eq!(mock.multiple_steps(&mut rng, 1, 3), 7);
    assert_eq!(mock.sample(&mut rng, 0, 4, 2), vec![4, 8, 12, 16]);
    assert_eq!(mock.multiple_steps(&mut rng, 5, 0), 5);
    assert!(SteppingAlg::<i64, ()>::adapt_state(&mock) == AdaptState::NotApplicable);
}

#[test]
fn group_steps_members_in_order() {
    let add_one = |x: i64| x + 1;
    let mut group = Group::new(vec![Mock::new(0i64, add_one), Mock::new(0i64, add_one)]);
    let mut rng = ();
    assert_eq!(group.step(&mut rng, 10), 12);
    assert_eq!(group.sample(&mut rng, 0, 3, 2), vec![4, 8, 12]);
    assert!(SteppingAlg::<i64, ()>::adapt_state(&group) == AdaptState::NotApplicable);
}

#[test]
fn group_broadcasts_adaptation() {
    let mut group = Group::new(vec![MockStepper::new(), MockStepper::new()]);
    assert!(SteppingAlg::<i32, ()>::adapt_state(&group) == AdaptState::Off);
    SteppingAlg::<i32, ()>::adapt_enable(&mut group);
    assert!(SteppingAlg::<i32, ()>::adapt_state(&group) == AdaptState::On);
    SteppingAlg::<i32, ()>::adapt_disable(&mut group);
    assert!(SteppingAlg::<i32, ()>::adapt_state(&group) == AdaptState::Off);

    let empty: Group<MockStepper, u64> = Group::new(vec![]);
    assert!(SteppingAlg::<i32, ()>::adapt_state(&empty) == AdaptState::NotApplicable);
}

#[test]
fn mixed_group_state() {
    let mut on = MockStepper::new();
    SteppingAlg::<i32, ()>::adapt_enable(&mut on);
    let group = Group::new(vec![on, MockStepper::new()]);
    assert!(SteppingAlg::<i32, ()>::adapt_state(&group) == AdaptState::Mixed);
}

#[test]
fn chain_lengths_and_thinning() {
    let mut rng = ();
    let mut mock = Mock::new(0i64, |x: i64| x + 1);
    // 3 warm-up steps, then 4 draws with thinning 5
    let kept = draw_from_stepper(&mut mock, &mut rng, 0, 4, 3, 5, false);
    assert_eq!(kept, vec![8, 13, 18, 23]);
    let with_warmup = draw_from_stepper(&mut mock, &mut rng, 0, 4, 3, 5, true);
    assert_eq!(with_warmup, vec![1, 2, 3, 8, 13, 18, 23]);
    let no_warmup = draw_from_stepper(&mut mock, &mut rng, 100, 2, 0, 1, true);
    assert_eq!(no_warmup, vec![101, 102]);
    let nothing = draw_from_stepper(&mut mock, &mut rng, 0, 0, 0, 1, false);
    assert!(nothing.is_empty());
}

#[test]
fn chain_adapts_only_during_warm_up() {
    let mut rng = ();
    let mut stepper = MockStepper::new();
    let out = draw_from_stepper(&mut stepper, &mut rng, 7i32, 10, 20, 3, false);
    assert_eq!(out, vec![7; 10]);
    assert_eq!(stepper.steps_taken(), 20 + 10 * 3);
    assert!(SteppingAlg::<i32, ()>::adapt_state(&stepper) == AdaptState::Off);
}

#[test]
fn set_and_get_adapt() {
    let mut s = MockStepper::new();
    assert!(SteppingAlg::<i32, ()>::get_adapt(&s) == AdaptationStatus::Disabled);
    SteppingAlg::<i32, ()>::set_adapt(&mut s, AdaptationMode::Enabled);
    assert!(SteppingAlg::<i32, ()>::get_adapt(&s) == AdaptationStatus::Enabled);
    SteppingAlg::<i32, ()>::set_adapt(&mut s, AdaptationMode::Disabled);
    assert!(SteppingAlg::<i32, ()>::get_adapt(&s) == AdaptationStatus::Disabled);

    let mut on = MockStepper::new();
    SteppingAlg::<i32, ()>::adapt_enable(&mut on);
    let group = Group::new(vec![on, MockStepper::new()]);
    assert!(SteppingAlg::<i32, ()>::get_adapt(&group) == AdaptationStatus::Mixed);

    let mock = Mock::new(0i32, |x: i32| x);
    assert!(SteppingAlg::<i32, ()>::get_adapt(&mock) == AdaptationStatus::Mixed);
}

#[test]
fn group_draw_prior_folds_members() {
    let group = Group::new(vec![Mock::new(0i64, |x: i64| x + 1)]);
    let mut rng = ();
    assert_eq!(group.draw_prior(&mut rng, 4), 4);
}

#[test]
fn group_hands_score_along() {
    let add_one = |x: i64| x + 1;
    let mut group = Group::new(vec![Mock::new(0i64, add_one), Mock::new(0i64, add_one)]);
    let mut rng = ();
    assert_eq!(group.step_with_log_likelihood(&mut rng, 1, Some(5)), (3, Some(5)));
    assert_eq!(group.step_with_log_likelihood(&mut rng, 1, None), (3, None));
    let mut empty: Group<Mock<i64, fn(i64) -> i64>, u64> = Group::new(vec![]);
    assert_eq!(empty.step_with_log_likelihood(&mut rng, 8, Some(2)), (8, Some(2)));
}

#[test]
fn group_reset_switches_adaptation_off() {
    let mut on = MockStepper::new();
    SteppingAlg::<i32, ()>::adapt_enable(&mut on);
    let mut rng = ();
    SteppingAlg::<i32, ()>::step(&mut on, &mut rng, 1);
    let mut group = Group::new(vec![on, MockStepper::new()]);
    SteppingAlg::<i32, ()>::adapt_enable(&mut group);
    SteppingAlg::<i32, ()>::reset(&mut group);
    assert!(SteppingAlg::<i32, ()>::adapt_state(&group) == AdaptState::Off);
}

#[test]
fn mock_stepper_reset_clears_counts() {
    let mut s = MockStepper::new();
    let mut rng = ();
    SteppingAlg::<i32, ()>::adapt_enable(&mut s);
    SteppingAlg::<i32, ()>::step(&mut s, &mut rng, 3);
    assert_eq!(s.steps_taken(), 1);
    SteppingAlg::<i32, ()>::reset(&mut s);
    assert_eq!(s.steps_taken(), 0);
    assert!(SteppingAlg::<i32, ()>::adapt_state(&s) == AdaptState::Off);
}

#[test]
fn group_builder_builds_one_member_per_builder() {
    let builder = GroupBuilder::new(vec![MockBuilder::new(), MockBuilder::new(), MockBuilder::new()]);
    let mut group: Group<MockStepper, u64> = StepperBuilder::<i32, ()>::build(&builder);
    let mut rng = ();
    // each of the three members takes one step per group step
    SteppingAlg::<i32, ()>::step(&mut group, &mut rng, 0);
    assert!(SteppingAlg::<i32, ()>::adapt_state(&group) == AdaptState::Off);
}

#[test]
fn mock_prior_draw_returns_its_input() {
    let mock = Mock::new(0i64, |x: i64| x + 1);
    let mut rng = ();
    assert_eq!(mock.draw_prior(&mut rng, 41), 41);
}

use rmcmc::AdaptState::{Mixed, NotApplicable, Off, On, Unknown};
use rmcmc::{ InitializationMode, MockBuilder, Runner, RunnerError};

#[test]
fn runner_defaults_and_settings() {
    let builder = MockBuilder::new();
    let runner: Runner<i32, MockBuilder> = Runner::new(&builder);
    let mut rng = ();
    // defaults: 2000 draws, 1000 warm-up steps, warm-up discarded
    assert_eq!(runner.run_chain(&mut rng).len(), 2000);

    let r = runner.draws(7).warmup(3).thinning(2).chains(4);
    let out = r.run_chain(&mut rng);
    assert_eq!(out, vec![0; 7]);

    let kept = r.keep_warm_up().initial_model(5);
    assert_eq!(kept.run_chain(&mut rng), vec![5; 10]);
    assert_eq!(kept.discard_warm_up().run_chain(&mut rng), vec![5; 7]);
}

#[test]
fn initialization_modes() {
    let a: InitializationMode<i32> = InitializationMode::Provided(3);
    match a.clone() {
        InitializationMode::Provided(x) => assert_eq!(x, 3),
        InitializationMode::DrawFromPrior => panic!("wrong mode"),
    }
}

#[test]
fn runner_error_description() {
    assert_eq!(RunnerError::LockFail.description(), "Panic caused RWLock Failure");
    assert_eq!(RunnerError::LockFail, RunnerError::LockFail);
}

#[test]
fn merge_table() {
    let all = [On, Off, Mixed, NotApplicable, Unknown];
    assert!(On.merge(On) == On);
    assert!(Off.merge(Off) == Off);
    assert!(On.merge(Off) == Mixed);
    assert!(NotApplicable.merge(Off) == Off);
    assert!(On.merge(NotApplicable) == On);
    assert!(NotApplicable.merge(NotApplicable) == NotApplicable);
    assert!(Mixed.merge(On) == Mixed);
    for a in all {
        assert!(a.merge(Unknown) == Unknown);
        assert!(Unknown.merge(a) == Unknown);
        for b in all {
            assert!(a.merge(b) == b.merge(a));
            for c in all {
                assert!(a.merge(b).merge(c) == a.merge(b.merge(c)));
            }
        }
    }
}

#[test]
fn adaptation_defaults() {
    assert!(rmcmc::AdaptState::default() == Unknown);
    assert!(rmcmc::AdaptationStatus::default() == rmcmc::AdaptationStatus::Mixed);
}

#[test]
fn common_length_of_chains() {
    let equal: Vec<Vec<i32>> = vec![vec![1, 2, 3], vec![4, 5, 6]];
    assert_eq!(rmcmc::diagnostics::common_length(&equal), Some(3));
    let unequal: Vec<Vec<i32>> = vec![vec![1, 2, 3], vec![4, 5]];
    assert_eq!(rmcmc::diagnostics::common_length(&unequal), None);
    let none: Vec<Vec<i32>> = vec![];
    assert_eq!(rmcmc::diagnostics::common_length(&none), None);
    let empty_chains: Vec<Vec<i32>> = vec![vec![], vec![]];
    assert_eq!(rmcmc::diagnostics::common_length(&empty_chains), Some(0));
}

#[test]
fn runner_chain_count() {
    let builder = MockBuilder::new();
    let runner: Runner<i32, MockBuilder> = Runner::new(&builder);
    assert_eq!(runner.chain_count(), 1);
    assert_eq!(runner.chains(4).chain_count(), 4);
}

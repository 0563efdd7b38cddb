use channel_cycle::scenario::{
    confirmation_blocks, FloodPlan, FloodStep, Payer, BOUGHT_CHANNEL_PUSH, CONFIRMATION_BLOCKS,
};

#[test]
fn confirms_only_after_an_open() {
    assert_eq!(confirmation_blocks(false, false), None);
    assert_eq!(confirmation_blocks(true, false), Some(6));
    assert_eq!(confirmation_blocks(false, true), Some(6));
    assert_eq!(confirmation_blocks(true, true), Some(CONFIRMATION_BLOCKS));
    assert_eq!(BOUGHT_CHANNEL_PUSH, 16000000);
}

#[test]
fn flood_seeds_then_alternates() {
    let plan = FloodPlan { rounds: 2, amt: 5, pause_secs: 10 };
    let first = FloodStep::Pay { from: Payer::First, amt: 5 };
    let second = FloodStep::Pay { from: Payer::Second, amt: 5 };
    let pause = FloodStep::Pause { secs: 10 };
    let steps: Vec<FloodStep> = (0..10).map_while(|i| plan.step(i)).collect();
    assert_eq!(steps, vec![first, pause, first, second, pause, first, second, pause]);
    assert_eq!(plan.step(u64::MAX), None);
}

#[test]
fn standard_flood_has_hundred_rounds() {
    let plan = FloodPlan::standard();
    assert_eq!((plan.rounds, plan.amt, plan.pause_secs), (100, 1000000, 10));
    assert_eq!(plan.step(301), Some(FloodStep::Pause { secs: 10 }));
    assert_eq!(plan.step(302), None);
    let empty = FloodPlan { rounds: 0, amt: 1, pause_secs: 3 };
    assert_eq!(empty.step(1), Some(FloodStep::Pause { secs: 3 }));
    assert_eq!(empty.step(2), None);
}

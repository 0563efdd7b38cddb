//! Decisions of the end-to-end scenario that sit between its node calls:
//! when to confirm newly opened channels and how to pace the optional
//! liquidity flood.

use vstd::prelude::*;

verus! {

/// Blocks to mine so that newly opened channels confirm.
pub const CONFIRMATION_BLOCKS: u32 = 6;

/// Part of its channel's capacity the second node pushes to the target on
/// opening, as when buying a just-in-time channel.
pub const BOUGHT_CHANNEL_PUSH: i64 = 16000000;

/// Amount of each payment of the liquidity flood.
pub const FLOOD_AMOUNT: i64 = 1000000;

/// Round trips of the liquidity flood.
pub const FLOOD_ROUNDS: u64 = 100;

/// Seconds of pause after the seeding payment and after each round trip.
pub const FLOOD_PAUSE_SECS: u64 = 10;

/// Blocks to mine after provisioning both nodes: only when one of them
/// newly opened a channel.
pub fn confirmation_blocks(opened_first: bool, opened_second: bool) -> (r: Option<u32>)
    ensures
        r == (if opened_first || opened_second {
            Some(CONFIRMATION_BLOCKS)
        } else {
            None
        }),
{
    if opened_first || opened_second {
        Some(CONFIRMATION_BLOCKS)
    } else {
        None
    }
}

/// Which of the two scenario nodes pays; the other one receives.
#[derive(Clone, Copy, Debug, PartialEq, Eq, Structural)]
pub enum Payer {
    First,
    Second,
}

/// One step of the liquidity flood.
#[derive(Clone, Copy, Debug, PartialEq, Eq, Structural)]
pub enum FloodStep {
    Pay { from: Payer, amt: i64 },
    Pause { secs: u64 },
}

/// The liquidity flood: a seeding payment from the first node to the
/// second and a pause, then `rounds` round trips of `amt`, each followed by
/// a pause.
#[derive(Clone, Copy, Debug, PartialEq, Eq, Structural)]
pub struct FloodPlan {
    pub rounds: u64,
    pub amt: i64,
    pub pause_secs: u64,
}

/// Step `i` of the flood, `None` past its end.
pub open spec fn flood_step_spec(plan: FloodPlan, i: int) -> Option<FloodStep> {
    if i == 0 {
        Some(FloodStep::Pay { from: Payer::First, amt: plan.amt })
    } else if i == 1 {
        Some(FloodStep::Pause { secs: plan.pause_secs })
    } else if i < 2 + 3 * plan.rounds {
        let k = (i - 2) % 3;
        if k == 0 {
            Some(FloodStep::Pay { from: Payer::First, amt: plan.amt })
        } else if k == 1 {
            Some(FloodStep::Pay { from: Payer::Second, amt: plan.amt })
        } else {
            Some(FloodStep::Pause { secs: plan.pause_secs })
        }
    } else {
        None
    }
}

impl FloodPlan {
    /// The flood this scenario runs when it is switched on.
    pub fn standard() -> (r: FloodPlan)
        ensures
            r == (FloodPlan { rounds: FLOOD_ROUNDS, amt: FLOOD_AMOUNT, pause_secs: FLOOD_PAUSE_SECS }),
    {
        FloodPlan { rounds: FLOOD_ROUNDS, amt: FLOOD_AMOUNT, pause_secs: FLOOD_PAUSE_SECS }
    }

    /// Step `i` of the flood, `None` once it is over.
    pub fn step(&self, i: u64) -> (r: Option<FloodStep>)
        ensures
            r == flood_step_spec(*self, i as int),
    {
        if i == 0 {
            Some(FloodStep::Pay { from: Payer::First, amt: self.amt })
        } else if i == 1 {
            Some(FloodStep::Pause { secs: self.pause_secs })
        } else {
            let j: u64 = i - 2;
            if j / 3 >= self.rounds {
                None
            } else {
                let k: u64 = j % 3;
                if k == 0 {
                    Some(FloodStep::Pay { from: Payer::First, amt: self.amt })
                } else if k == 1 {
                    Some(FloodStep::Pay { from: Payer::Second, amt: self.amt })
                } else {
                    Some(FloodStep::Pause { secs: self.pause_secs })
                }
            }
        }
    }
}

} // verus!

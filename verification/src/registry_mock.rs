use vstd::prelude::*;

verus! {

/// What to do while waiting for a registry to come up.
#[derive(Debug, Clone, Copy, PartialEq, Eq, Structural)]
pub enum WaitStep {
    /// The registry answers: go on.
    Ready,
    /// Sleep, then ask again, with this many further tries left.
    Retry { retries: usize },
    /// The tries are used up.
    GiveUp,
}

/// Decides how to go on after the registry was asked whether it is up, with
/// `retries` further tries left.
pub fn wait_step(ready: bool, retries: usize) -> (step: WaitStep)
    ensures
        step == if ready {
            WaitStep::Ready
        } else if retries > 0 {
            WaitStep::Retry { retries: (retries - 1) as usize }
        } else {
            WaitStep::GiveUp
        },
{
    if ready {
        WaitStep::Ready
    } else {
        match retries.checked_sub(1) {
            Some(retries) => WaitStep::Retry { retries },
            None => WaitStep::GiveUp,
        }
    }
}

} // verus!

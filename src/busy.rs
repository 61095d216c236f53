//! Decisions of the busy-line poll: the panel drives the line low (0) while
//! it is refreshing and high (1) once it is ready for new commands.

use vstd::prelude::*;
use crate::protocol::{PanelError, WAIT_MS};
use crate::driver::EPaper42Driver;

verus! {

/// What to do after one sample of the busy line.
#[derive(Debug, Clone, Copy, PartialEq, Eq, Structural)]
pub enum BusyStep {
    /// The panel is ready: the wait is over.
    Ready,
    /// The panel is busy: sleep this many milliseconds, then sample again.
    PollAgain(u64),
}

/// Whether a sample of the busy line means busy; other values than 0 and 1
/// are an unexpected signal.
pub open spec fn busy_of(sample: u8) -> Result<bool, PanelError> {
    if sample == 0 {
        Ok(true)
    } else if sample == 1 {
        Ok(false)
    } else {
        Err(PanelError::UnexpectedSignal)
    }
}

/// The decision taken on one sample of the busy line.
pub open spec fn busy_step(sample: u8) -> Result<BusyStep, PanelError> {
    match busy_of(sample) {
        Ok(true) => Ok(BusyStep::PollAgain(WAIT_MS)),
        Ok(false) => Ok(BusyStep::Ready),
        Err(e) => Err(e),
    }
}

/// How many samples a wait reads from `samples` before it ends (ready or an
/// unexpected signal), or `None` when it is still waiting after all of them.
pub open spec fn samples_read(samples: Seq<u8>) -> Option<nat>
    decreases samples.len(),
{
    if samples.len() == 0 {
        None
    } else {
        match busy_step(samples[0]) {
            Ok(BusyStep::PollAgain(_)) => match samples_read(samples.drop_first()) {
                Some(n) => Some(n + 1),
                None => None,
            },
            _ => Some(1),
        }
    }
}

/// Decides, from one sample of the busy line, whether the wait is over.
pub fn wait_busy_step(sample: u8) -> (r: Result<BusyStep, PanelError>)
    ensures
        r == busy_step(sample),
{
    match EPaper42Driver::is_busy(sample) {
        Ok(true) => Ok(BusyStep::PollAgain(WAIT_MS)),
        Ok(false) => Ok(BusyStep::Ready),
        Err(e) => Err(e),
    }
}

/// A wait on the busy line ends at the first "not busy" sample and no sooner:
/// when the first `k` samples read busy and the next reads ready, exactly
/// `k + 1` samples are read, one further poll for every busy sample.
pub proof fn lemma_wait_ends_at_first_ready(samples: Seq<u8>, k: nat)
    requires
        k < samples.len(),
        forall|i: int| 0 <= i < k ==> samples[i] == 0,
        samples[k as int] == 1,
    ensures
        samples_read(samples) == Some(k + 1),
        busy_step(samples[k as int]) == Ok::<BusyStep, PanelError>(BusyStep::Ready),
        forall|i: int| 0 <= i < k ==> busy_step(#[trigger] samples[i]) == Ok::<BusyStep, PanelError>(BusyStep::PollAgain(WAIT_MS)),
    decreases k,
{
    if k > 0 {
        let rest = samples.drop_first();
        assert forall|i: int| 0 <= i < (k - 1) as nat implies rest[i] == 0 by {
            assert(rest[i] == samples[i + 1]);
        }
        assert(rest[(k - 1) as int] == samples[k as int]);
        lemma_wait_ends_at_first_ready(rest, (k - 1) as nat);
        assert(samples[0] == 0);
    }
}

} // verus!

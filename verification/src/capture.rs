use vstd::prelude::*;

verus! {

/// How many times the capture asks the desktop duplication for a frame.
pub const ACQUIRE_ATTEMPTS: u32 = 10;

/// How long, in milliseconds, one request for a frame may wait.
pub const ACQUIRE_TIMEOUT_MS: u32 = 500;

/// How long, in milliseconds, the capture waits after a failed request.
pub const RETRY_DELAY_MS: u64 = 100;

/// The first attempt whose frame is taken even if it reports no presentation.
pub const ACCEPT_ANY_FRAME_FROM: u32 = 2;

/// The DXGI surface format code of 16-bit float RGBA (`R16G16B16A16_FLOAT`).
pub const FORMAT_RGBA16_FLOAT: i32 = 10;

/// What one request for a desktop frame brought back.
#[derive(Clone, Copy, Debug, PartialEq, Eq)]
pub enum AcquireOutcome {
    /// A frame, with the time at which the desktop was last presented (0 if never).
    Frame { last_present_time: i64 },
    /// The request failed.
    Failed,
}

/// What the capture does after a request for a frame.
#[derive(Clone, Copy, Debug, PartialEq, Eq)]
pub enum AcquireDecision {
    /// Copy the acquired frame.
    UseFrame,
    /// Release the frame (it shows no presented desktop yet) and ask again.
    ReleaseAndRetry,
    /// Wait `RETRY_DELAY_MS` and ask again.
    WaitAndRetry,
    /// Report the failure of this last request.
    GiveUp,
}

pub open spec fn spec_acquire_decision(attempt: u32, outcome: AcquireOutcome) -> AcquireDecision {
    match outcome {
        AcquireOutcome::Frame { last_present_time } => {
            if last_present_time != 0 || attempt >= ACCEPT_ANY_FRAME_FROM {
                AcquireDecision::UseFrame
            } else {
                AcquireDecision::ReleaseAndRetry
            }
        },
        AcquireOutcome::Failed => {
            if attempt + 1 < ACQUIRE_ATTEMPTS {
                AcquireDecision::WaitAndRetry
            } else {
                AcquireDecision::GiveUp
            }
        },
    }
}

/// Decides what follows request number `attempt` (counted from 0) for a
/// desktop frame. A frame that shows a presented desktop is taken at once;
/// an early frame without one is released and asked for again; from
/// attempt `ACCEPT_ANY_FRAME_FROM` on any frame is taken. A failed request
/// is retried after a pause, except the last, whose failure is reported.
pub fn acquire_decision(attempt: u32, outcome: AcquireOutcome) -> (d: AcquireDecision)
    requires
        attempt < ACQUIRE_ATTEMPTS,
    ensures
        d == spec_acquire_decision(attempt, outcome),
        attempt + 1 == ACQUIRE_ATTEMPTS ==> (d == AcquireDecision::UseFrame || d
            == AcquireDecision::GiveUp),
        (outcome matches AcquireOutcome::Frame { .. } && attempt >= ACCEPT_ANY_FRAME_FROM) ==> d
            == AcquireDecision::UseFrame,
        d == AcquireDecision::GiveUp ==> outcome == AcquireOutcome::Failed,
        (outcome matches AcquireOutcome::Frame { last_present_time } && last_present_time != 0)
            ==> d == AcquireDecision::UseFrame,
{
    match outcome {
        AcquireOutcome::Frame { last_present_time } => {
            if last_present_time != 0 || attempt >= ACCEPT_ANY_FRAME_FROM {
                AcquireDecision::UseFrame
            } else {
                AcquireDecision::ReleaseAndRetry
            }
        },
        AcquireOutcome::Failed => {
            if attempt + 1 < ACQUIRE_ATTEMPTS {
                AcquireDecision::WaitAndRetry
            } else {
                AcquireDecision::GiveUp
            }
        },
    }
}

/// Law: the capture asks for a frame at most `ACQUIRE_ATTEMPTS` times: a
/// retry is only ever decided before the last attempt, so the last one
/// either uses its frame or reports its failure; and a frame is used by
/// attempt `ACCEPT_ANY_FRAME_FROM` at the latest once a request succeeds.
pub proof fn lemma_retries_stay_within_budget(attempt: u32, outcome: AcquireOutcome)
    ensures
        (spec_acquire_decision(attempt, outcome) == AcquireDecision::ReleaseAndRetry
            || spec_acquire_decision(attempt, outcome) == AcquireDecision::WaitAndRetry) ==> attempt
            + 1 < ACQUIRE_ATTEMPTS,
        (outcome matches AcquireOutcome::Frame { .. }) ==> (spec_acquire_decision(attempt, outcome)
            == AcquireDecision::UseFrame || attempt < ACCEPT_ANY_FRAME_FROM),
{
}

/// Law: a frame that shows a presented desktop is used on every attempt; a
/// frame without one is released and asked for again on the attempts before
/// `ACCEPT_ANY_FRAME_FROM` and used from then on; a failure is waited out on
/// every attempt but the last.
pub proof fn lemma_frame_acceptance(attempt: u32, t: i64)
    requires
        attempt < ACQUIRE_ATTEMPTS,
    ensures
        t != 0 ==> spec_acquire_decision(attempt, AcquireOutcome::Frame { last_present_time: t })
            == AcquireDecision::UseFrame,
        t == 0 && attempt < ACCEPT_ANY_FRAME_FROM ==> spec_acquire_decision(
            attempt,
            AcquireOutcome::Frame { last_present_time: t },
        ) == AcquireDecision::ReleaseAndRetry,
        t == 0 && attempt >= ACCEPT_ANY_FRAME_FROM ==> spec_acquire_decision(
            attempt,
            AcquireOutcome::Frame { last_present_time: t },
        ) == AcquireDecision::UseFrame,
        attempt + 1 < ACQUIRE_ATTEMPTS ==> spec_acquire_decision(attempt, AcquireOutcome::Failed)
            == AcquireDecision::WaitAndRetry,
{
}

/// Whether the duplicated desktop surface carries HDR data: only a
/// duplication that was asked for 16-bit float RGBA and delivers that format.
pub fn surface_is_hdr(requested_float: bool, format: i32) -> (hdr: bool)
    ensures
        hdr == (requested_float && format == FORMAT_RGBA16_FLOAT),
{
    requested_float && format == FORMAT_RGBA16_FLOAT
}

} // verus!

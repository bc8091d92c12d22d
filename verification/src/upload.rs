//! The arithmetic of an upload: how messages are split into requests, how the progress counter
//! runs while a request is under way, and what the dashboard's status shows meanwhile. The HTTP
//! requests happen outside.
use vstd::prelude::*;
use crate::tui::UploadStatus;

verus! {

/// Messages per upload request.
pub const CHUNK_SIZE: usize = 4500;

/// The `k`-th request of an upload of `total` messages covers messages `start(k)` up to, not
/// including, `end(k)`.
pub open spec fn chunk_start(k: int) -> int {
    k * CHUNK_SIZE
}

pub open spec fn chunk_end(total: int, k: int) -> int {
    if (k + 1) * CHUNK_SIZE < total { (k + 1) * CHUNK_SIZE } else { total }
}

/// The ranges of messages each request carries, in order: consecutive runs of `CHUNK_SIZE`
/// messages, the last one shorter when `total` is not a multiple of it; none when there is
/// nothing to upload.
pub fn chunk_bounds(total: usize) -> (r: Vec<(usize, usize)>)
    ensures
        r@.len() == (total + CHUNK_SIZE - 1) / (CHUNK_SIZE as int),
        forall|k: int| 0 <= k < r@.len() ==> #[trigger] r@[k] == (chunk_start(k) as usize, chunk_end(total as int, k) as usize),
{
    let mut out: Vec<(usize, usize)> = Vec::new();
    let mut start: usize = 0;
    while start < total
        invariant
            start <= total,
            start <= out@.len() * CHUNK_SIZE,
            out@.len() > 0 ==> (out@.len() - 1) * CHUNK_SIZE < start,
            start < total ==> start == out@.len() * CHUNK_SIZE,
            forall|k: int| 0 <= k < out@.len() ==> #[trigger] out@[k] == (chunk_start(k) as usize, chunk_end(total as int, k) as usize),
        decreases total - start,
    {
        let end = if total - start > CHUNK_SIZE { start + CHUNK_SIZE } else { total };
        proof {
            let k = out@.len() as int;
            assert((k + 1) * CHUNK_SIZE == start + CHUNK_SIZE) by (nonlinear_arith)
                requires start == k * CHUNK_SIZE;
        }
        out.push((start, end));
        start = end;
    }
    proof {
        let n = out@.len() as int;
        assert((total + CHUNK_SIZE - 1) / (CHUNK_SIZE as int) == n) by (nonlinear_arith)
            requires
                total <= n * CHUNK_SIZE,
                n > 0 ==> total > (n - 1) * CHUNK_SIZE,
                n == 0 ==> total == 0,
                n >= 0;
    }
    out
}

/// Where the progress counter goes on one tick while a request is under way: toward `target`
/// by a fiftieth of the distance left, at least one and at most a hundred messages at a time,
/// never past `target`; it stays put once there.
pub open spec fn counter_tick(current: int, target: int) -> int {
    if current < target {
        let jump = if (target - current) / 50 < 1 {
            1
        } else if (target - current) / 50 > 100 {
            100
        } else {
            (target - current) / 50
        };
        if current + jump < target { current + jump } else { target }
    } else {
        current
    }
}

/// One tick of the progress counter (see [`counter_tick`]).
pub fn next_progress_count(current: usize, target: usize) -> (r: usize)
    ensures
        r == counter_tick(current as int, target as int),
{
    if current < target {
        let mut jump = (target - current) / 50;
        if jump < 1 {
            jump = 1;
        }
        if jump > 100 {
            jump = 100;
        }
        if jump < target - current { current + jump } else { target }
    } else {
        current
    }
}

/// The status shown once `current` of `total` messages are sent: uploading, keeping the
/// animation's dots of a status that was already uploading.
pub fn progress_status(status: &UploadStatus, current: usize, total: usize) -> (r: UploadStatus)
    ensures
        r == (UploadStatus::Uploading {
            current,
            total,
            dots: match *status {
                UploadStatus::Uploading { dots, .. } => dots,
                _ => 0,
            },
        }),
{
    match status {
        UploadStatus::Uploading { dots, .. } => UploadStatus::Uploading { current, total, dots: *dots },
        _ => UploadStatus::Uploading { current, total, dots: 0 },
    }
}

/// The progress counter never passes its target and never moves back.
pub proof fn law_counter_moves_forward_to_target(current: int, target: int)
    ensures
        current <= counter_tick(current, target),
        current <= target ==> counter_tick(current, target) <= target,
        current < target ==> current < counter_tick(current, target),
{
}

/// The error of an upload the server answered as refused: its own error text, else "Unknown
/// error", after "Server returned error: ".
pub open spec fn refusal_text(error: Option<Seq<char>>) -> Seq<char> {
    "Server returned error: "@ + match error {
        Some(e) => e,
        None => "Unknown error"@,
    }
}

/// What an upload request came to when the server answered with a success status and a body
/// saying `success` (and perhaps `error`): done, or the error to report.
pub fn accepted_answer(success: bool, error: Option<String>) -> (r: Result<(), String>)
    ensures
        success ==> r is Ok,
        !success ==> (r matches Err(e) && e@ == refusal_text(crate::types::opt_view(error))),
{
    if success {
        return Ok(());
    }
    proof {
        reveal_strlit("Server returned error: ");
        reveal_strlit("Unknown error");
    }
    let head = String::from_str("Server returned error: ");
    match error {
        Some(e) => Err(head.concat(e.as_str())),
        None => Err(head.concat("Unknown error")),
    }
}

/// The error of an upload request the server answered with a failure status: the `error` of
/// its body when the body has one, else the body's text.
pub fn failed_answer(error: Option<String>, body: String) -> (r: String)
    ensures
        r@ == match error {
            Some(e) => e@,
            None => body@,
        },
{
    match error {
        Some(e) => e,
        None => body,
    }
}

} // verus!

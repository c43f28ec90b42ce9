//! The error taxonomy. Resource-creation and render errors abort the current
//! frame and leave retrying to the host; a background refresh failure is
//! recoverable and never aborts (see `refresh`); scheduling-configuration
//! errors are construction-time wiring bugs (see `update_rate`).

use vstd::prelude::*;
use vstd::string::StringExecFns;

verus! {

/// A drawable resource could not be (re)created.
#[derive(Clone, Debug)]
pub enum TextureCreationError {
    /// The host backend failed to load, fetch, decode or rasterize, for the
    /// given reason.
    Backend(String),
    /// Every representable handle is already in use.
    PoolFull,
    /// Text was truncated by the character-count estimate, yet still measured
    /// wider than the pool's maximum texture width.
    CutTextStillTooWide { cut_width: u32, max_width: u32 },
    /// A text description carried a scroll behavior with a zero period.
    DegenerateScrollPeriod,
}

/// A frame could not be rendered; the whole frame is aborted.
#[derive(Clone, Debug)]
pub enum RenderError {
    /// A node's updater failed, for the given reason.
    UpdaterFailed(String),
    /// A node's updater asked for new texture contents and both the desired
    /// and the fallback description failed.
    ContentsCreationFailed(TextureCreationError),
    /// A scrolling text texture is narrower than the rectangle it must fill.
    TextureNarrowerThanDest { texture_width: u32, dest_width: u32 },
    /// A scrolling text texture has no width at all.
    DegenerateTextTexture,
}

/// The human-readable summary of which of the first `n` named update
/// outcomes failed: nothing when all succeeded, else one message naming every
/// failed source, in order.
pub open spec fn spec_failure_summary(outcomes: Seq<(bool, String)>, n: int) -> Option<Seq<char>>
    decreases n,
{
    if n <= 0 {
        None
    } else {
        let prev = spec_failure_summary(outcomes, n - 1);
        if outcomes[n - 1].0 {
            prev
        } else {
            match prev {
                None => Some("Internal dashboard error from "@ + outcomes[n - 1].1@),
                Some(msg) => Some(msg + ", and "@ + outcomes[n - 1].1@),
            }
        }
    }
}

/// Aggregate several independent update outcomes — each a success flag and
/// the source's name — into one transient human-readable message: `None` when
/// every source succeeded, else one message naming each failed source, ending
/// with an exclamation. No outcome aborts anything here; the message is for
/// display.
pub fn aggregate_update_failures(outcomes: &Vec<(bool, String)>) -> (r: Option<String>)
    ensures
        r is None <==> spec_failure_summary(outcomes@, outcomes@.len() as int) is None,
        r matches Some(msg) ==> (spec_failure_summary(outcomes@, outcomes@.len() as int)
            matches Some(base) && msg@ == base + "! "@),
{
    let mut error: Option<String> = None;
    let mut i: usize = 0;
    while i < outcomes.len()
        invariant
            i <= outcomes.len(),
            error is None <==> spec_failure_summary(outcomes@, i as int) is None,
            error matches Some(msg) ==> (spec_failure_summary(outcomes@, i as int)
                matches Some(base) && msg@ == base),
        decreases outcomes.len() - i,
    {
        if !outcomes[i].0 {
            match error {
                None => {
                    let mut msg = String::from_str("Internal dashboard error from ");
                    msg.append(outcomes[i].1.as_str());
                    error = Some(msg);
                },
                Some(mut msg) => {
                    msg.append(", and ");
                    msg.append(outcomes[i].1.as_str());
                    error = Some(msg);
                },
            }
        }
        i = i + 1;
    }
    match error {
        None => None,
        Some(mut msg) => {
            msg.append("! ");
            Some(msg)
        },
    }
}

} // verus!

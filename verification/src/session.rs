//! Conversion session control: single-flight admission, the cooperative
//! cancellation flag, and the classification of a finished run.
//!
//! At most one conversion may be in flight at a time.  Cancellation is
//! polled, not preemptive: setting the flag only makes the progress
//! reader stop early and the completion check discard the output and
//! report a cancellation, whatever the process itself exited with.

use vstd::prelude::*;

verus! {

/// Why a conversion attempt failed.
#[derive(Clone, Copy, Debug, PartialEq, Eq)]
pub enum ConversionError {
    /// A conversion is already in progress.
    Busy,
    /// The user asked for the run to be abandoned; the output is
    /// discarded.
    Cancelled,
    /// The transcoder exited non-zero (or without a code at all).
    CommandFailed { exit_code: Option<i32> },
    /// The transcoder reported success but wrote no output file.
    OutputMissing,
    /// The transcoder reported success but the output file is empty.
    OutputEmpty,
}

/// The session state a single orchestrator instance owns: whether a
/// conversion is in flight, and whether its cancellation was requested.
pub struct SessionGuard {
    pub in_progress: bool,
    pub cancel_requested: bool,
}

impl SessionGuard {
    /// A fresh guard: nothing in flight, nothing cancelled.
    pub fn new() -> (g: SessionGuard)
        ensures
            !g.in_progress,
            !g.cancel_requested,
    {
        SessionGuard { in_progress: false, cancel_requested: false }
    }

    /// Admit a conversion.  While one is in flight every further
    /// request is refused with the busy error and the state is left
    /// untouched; otherwise the conversion is admitted, the in-flight
    /// flag raised, and the cancellation flag reset for the new run.
    pub fn begin_conversion(&mut self) -> (r: Result<(), ConversionError>)
        ensures
            old(self).in_progress ==> r == Err::<(), ConversionError>(ConversionError::Busy),
            old(self).in_progress ==> *final(self) == *old(self),
            !old(self).in_progress ==> r == Ok::<(), ConversionError>(()),
            !old(self).in_progress ==> final(self).in_progress && !final(self).cancel_requested,
    {
        if self.in_progress {
            Err(ConversionError::Busy)
        } else {
            self.in_progress = true;
            self.cancel_requested = false;
            Ok(())
        }
    }

    /// Release the guard when a conversion terminates.  On every exit
    /// path — success, failure or cancellation — the in-flight flag is
    /// false afterwards.
    pub fn finish_conversion(&mut self)
        ensures
            !final(self).in_progress,
            final(self).cancel_requested == old(self).cancel_requested,
    {
        self.in_progress = false;
    }

    /// Request cancellation of the running conversion.  This only
    /// raises the flag: the child process is not killed, the readers
    /// stop early and the completion check discards the run.
    pub fn cancel_conversion(&mut self) -> (r: Result<(), ConversionError>)
        ensures
            final(self).cancel_requested,
            final(self).in_progress == old(self).in_progress,
            r == Ok::<(), ConversionError>(()),
    {
        self.cancel_requested = true;
        Ok(())
    }

    /// Is a conversion in flight?
    pub fn is_converting(&self) -> (b: bool)
        ensures
            b == self.in_progress,
    {
        self.in_progress
    }

    /// Was cancellation requested?
    pub fn cancellation_requested(&self) -> (b: bool)
        ensures
            b == self.cancel_requested,
    {
        self.cancel_requested
    }
}

/// What a finished run amounts to.  A requested cancellation wins over
/// everything, even a zero exit code.  Otherwise a non-zero exit is a
/// command failure carrying the code, a missing output a failure of its
/// own, an empty output likewise, and only a non-empty output under a
/// zero exit code is success.
pub open spec fn spec_completion_outcome(
    cancel_requested: bool,
    exit_ok: bool,
    exit_code: Option<i32>,
    output_size: Option<u64>,
) -> Result<(), ConversionError> {
    if cancel_requested {
        Err(ConversionError::Cancelled)
    } else if !exit_ok {
        Err(ConversionError::CommandFailed { exit_code })
    } else {
        match output_size {
            None => Err(ConversionError::OutputMissing),
            Some(n) => if n == 0 {
                Err(ConversionError::OutputEmpty)
            } else {
                Ok(())
            },
        }
    }
}

/// What to do once the process exited and the readers joined.
pub struct CompletionDecision {
    /// Delete the (possibly partial) output file first.
    pub delete_output: bool,
    /// What the run amounted to.
    pub outcome: Result<(), ConversionError>,
}

/// Classify a finished run from the cancellation flag, the exit status
/// and the observed output size (nothing when the file is missing).
/// The output is deleted exactly when cancellation was requested.
pub fn classify_completion(
    cancel_requested: bool,
    exit_ok: bool,
    exit_code: Option<i32>,
    output_size: Option<u64>,
) -> (d: CompletionDecision)
    ensures
        d.delete_output == cancel_requested,
        d.outcome == spec_completion_outcome(cancel_requested, exit_ok, exit_code, output_size),
{
    let outcome = if cancel_requested {
        Err(ConversionError::Cancelled)
    } else if !exit_ok {
        Err(ConversionError::CommandFailed { exit_code })
    } else {
        match output_size {
            None => Err(ConversionError::OutputMissing),
            Some(n) => {
                if n == 0 {
                    Err(ConversionError::OutputEmpty)
                } else {
                    Ok(())
                }
            },
        }
    };
    CompletionDecision { delete_output: cancel_requested, outcome }
}

/// Law: a cancellation observed at completion is always classified as
/// the cancellation failure, whatever the exit status and whatever
/// output exists — even a zero exit code does not turn it into success.
pub proof fn lemma_cancellation_overrides_exit(
    exit_ok: bool,
    exit_code: Option<i32>,
    output_size: Option<u64>,
)
    ensures
        spec_completion_outcome(true, exit_ok, exit_code, output_size) == Err::<
            (),
            ConversionError,
        >(ConversionError::Cancelled),
{
}

} // verus!

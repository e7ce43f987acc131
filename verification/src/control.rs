//! Cooperative cancellation and progress reporting for a blocking inference.
use vstd::prelude::*;

verus! {

/// Progress of an inference, in completed work units out of a total.
#[derive(Clone, Copy, Debug, PartialEq, Eq, Structural)]
pub struct InferenceProgress {
    pub completed: usize,
    pub total: usize,
}

/// The callbacks an inference consults: whether to stop, and where to report progress.
pub struct InferenceControl<C, P> {
    cancelled: Option<C>,
    progress: Option<P>,
}

impl<C: Fn() -> bool, P: Fn(InferenceProgress)> InferenceControl<C, P> {
    pub closed spec fn cancel_callback(&self) -> Option<C> {
        self.cancelled
    }

    pub closed spec fn progress_callback(&self) -> Option<P> {
        self.progress
    }

    /// A control with both callbacks.
    pub fn new(cancelled: C, progress: P) -> (c: Self)
        ensures
            c.cancel_callback() == Some(cancelled),
            c.progress_callback() == Some(progress),
    {
        InferenceControl { cancelled: Some(cancelled), progress: Some(progress) }
    }

    /// A control that never cancels and reports nowhere.
    pub fn none() -> (c: Self)
        ensures
            c.cancel_callback() is None,
            c.progress_callback() is None,
    {
        InferenceControl { cancelled: None, progress: None }
    }

    /// Whether the caller asked to stop: the cancellation callback's answer, or
    /// `false` without one.
    pub fn cancellation_requested(&self) -> (b: bool)
        requires
            self.cancel_callback() matches Some(f) ==> call_requires(f, ()),
        ensures
            self.cancel_callback() is None ==> !b,
            self.cancel_callback() matches Some(f) ==> call_ensures(f, (), b),
    {
        match &self.cancelled {
            Some(f) => f(),
            None => false,
        }
    }

    /// Hands progress to the progress callback, if there is one.
    pub fn report(&self, progress: InferenceProgress)
        requires
            self.progress_callback() matches Some(f) ==> call_requires(f, (progress,)),
        ensures
            self.progress_callback() matches Some(f) ==> call_ensures(f, (progress,), ()),
    {
        match &self.progress {
            Some(f) => f(progress),
            None => {},
        }
    }
}

} // verus!

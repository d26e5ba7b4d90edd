//! What goes wrong, and who is told of it.
use vstd::prelude::*;

verus! {

/// The error of a run.
#[derive(Debug, Clone, PartialEq, Eq)]
pub enum RunError<E> {
    /// An error returned from user code.
    User(E),
    /// The pool attempted to get a connection but the provided timeout was exceeded.
    TimedOut,
}

impl<E> RunError<E> {
    /// The text of this error, where `render` gives the text of a user error.
    pub fn display<F: FnOnce(&E) -> String>(&self, render: F) -> (text: String)
        requires
            self matches RunError::User(e) ==> render.requires((&e,)),
        ensures
            match *self {
                RunError::User(e) => render.ensures((&e,), text),
                RunError::TimedOut => text@ == "Timed out in bb8"@,
            },
    {
        match self {
            RunError::User(e) => render(e),
            RunError::TimedOut => "Timed out in bb8".to_string(),
        }
    }

    /// The user error that caused this one, if there is one.
    pub fn source(&self) -> (cause: Option<&E>)
        ensures
            match *self {
                RunError::User(e) => cause == Some(&e),
                RunError::TimedOut => cause is None,
            },
    {
        match self {
            RunError::User(e) => Some(e),
            RunError::TimedOut => None,
        }
    }
}

/// A trait to receive errors generated by connection management that aren't
/// tied to any particular caller.
pub trait ErrorSink<E>: std::fmt::Debug + Send + Sync + 'static {
    /// Receive an error
    fn sink(&self, error: E);
}

/// An `ErrorSink` implementation that does nothing.
#[derive(Debug, Clone, Copy)]
pub struct NopErrorSink;

impl<E> ErrorSink<E> for NopErrorSink {
    fn sink(&self, _error: E) {
    }
}

/// Keeps a boxed sink.
#[derive(Debug)]
pub struct Sink<S: ?Sized> {
    /// The sink.
    pub boxed: Box<S>,
}

impl<S: ?Sized> Sink<S> {
    /// Keeps `boxed`.
    pub fn new(boxed: Box<S>) -> (sink: Sink<S>)
        ensures
            sink.boxed == boxed,
    {
        Sink { boxed }
    }
}

/// `sink` has received `error`.
pub open spec fn told<E, S: ErrorSink<E> + ?Sized>(sink: Sink<S>, error: E) -> bool {
    call_ensures(S::sink, (&*sink.boxed, error), ())
}

/// Passes what `outcome` holds on, telling `sink` of the error if it is one.
pub fn sink_error<T, E, S: ErrorSink<E> + ?Sized>(
    sink: &Sink<S>,
    outcome: Result<T, E>,
) -> (passed: Result<T, ()>)
    ensures
        match outcome {
            Ok(t) => passed == Ok::<T, ()>(t),
            Err(e) => passed == Err::<T, ()>(()) && told(*sink, e),
        },
{
    match outcome {
        Ok(t) => Ok(t),
        Err(e) => {
            sink.boxed.sink(e);
            Err(())
        },
    }
}

} // verus!

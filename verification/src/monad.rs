//! Chaining of computations that may fail.

use vstd::prelude::*;

verus! {

/// A result that the next computation can be chained to: the next one runs on
/// the value of a success, and a failure is handed on as it is.
pub trait ResultMonad<T1, E>: Sized {
    /// The result that is chained from.
    spec fn outcome(self) -> Result<T1, E>;

    /// Runs `f` on the value of a success; hands a failure on.
    fn bind<T2, F: FnOnce(T1) -> Result<T2, E>>(self, f: F) -> (r: Result<T2, E>)
        requires
            self.outcome() matches Ok(value) ==> call_requires(f, (value,)),
        ensures
            match self.outcome() {
                Ok(value) => call_ensures(f, (value,), r),
                Err(error) => r == Err::<T2, E>(error),
            },
    ;

    /// Runs `f` on `a` and the value of a success; hands a failure on.
    fn bind_with<T2, A, F: FnOnce(A, T1) -> Result<T2, E>>(self, a: A, f: F) -> (r: Result<
        T2,
        E,
    >)
        requires
            self.outcome() matches Ok(value) ==> call_requires(f, (a, value)),
        ensures
            match self.outcome() {
                Ok(value) => call_ensures(f, (a, value), r),
                Err(error) => r == Err::<T2, E>(error),
            },
    ;
}

impl<T1, E> ResultMonad<T1, E> for Result<T1, E> {
    open spec fn outcome(self) -> Result<T1, E> {
        self
    }

    fn bind<T2, F: FnOnce(T1) -> Result<T2, E>>(self, f: F) -> (r: Result<T2, E>) {
        match self {
            Ok(value) => f(value),
            Err(error) => Err(error),
        }
    }

    fn bind_with<T2, A, F: FnOnce(A, T1) -> Result<T2, E>>(self, a: A, f: F) -> (r: Result<
        T2,
        E,
    >) {
        match self {
            Ok(value) => f(a, value),
            Err(error) => Err(error),
        }
    }
}

} // verus!

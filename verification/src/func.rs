//! The type-carrying handle for a function registered with the worker.

use core::marker::PhantomData;

use vstd::prelude::*;

verus! {

/// Describes the function to be called by the worker: the registered name
/// plus a compile-time argument/result type pair. The value never calls
/// the function directly — it exists so that mismatched argument or result
/// types are rejected at compile time, while the running call always goes
/// through the name-keyed wire path.
pub struct WebWorkerFn<T, R> {
    /// The name of the original function; the worker adds its internal
    /// prefix itself.
    pub name: &'static str,
    /// Carries the argument and result type, with no runtime payload.
    pub phantom: PhantomData<(T, R)>,
}

impl<T, R> Clone for WebWorkerFn<T, R> {
    fn clone(&self) -> (r: Self)
        ensures
            r.name == self.name,
    {
        WebWorkerFn { name: self.name, phantom: PhantomData }
    }
}

impl<T, R> Copy for WebWorkerFn<T, R> {

}

impl<T, R> WebWorkerFn<T, R> {
    /// Manually creates a [`WebWorkerFn`] handle for `f`, registered under
    /// `func_name`. This does not itself guarantee that a function of the
    /// right type is exposed to the worker under that name; the embedding
    /// wraps this constructor so that the guarantee comes from the
    /// registration step.
    pub fn new_unchecked<F: Fn(T) -> R>(func_name: &'static str, f: F) -> (r: Self)
        ensures
            r.name == func_name,
    {
        let _ = f;
        WebWorkerFn { name: func_name, phantom: PhantomData }
    }
}

} // verus!

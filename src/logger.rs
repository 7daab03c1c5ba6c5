//! A decorator that reads one typed value from the scope as a diagnostic
//! record and forwards every call unchanged.
use crate::any_arc::AnyArc;
use crate::scope::Scope;
use crate::service::Service;
use std::any::{Any, TypeId};
use std::fmt::Debug;
use std::marker::PhantomData;
use vstd::prelude::*;

verus! {

/// Relies on the `Debug` rendering that `format!` produces.
#[verifier::external_body]
fn render<T: Debug>(value: &T) -> (r: String) {
    format!("{value:?}")
}

/// Wraps a service `S` and observes the scope value of type `T`: the
/// diagnostic record of a call is that value's `Debug` rendering, when the
/// scope holds one. The call itself goes to `S` untouched.
pub struct Logger<T, S> {
    inner: S,
    _phantom: PhantomData<T>,
}

impl<T, S> Logger<T, S> {
    /// The wrapped service.
    pub closed spec fn service(&self) -> S {
        self.inner
    }

    /// Wraps `srv`.
    pub fn new(srv: S) -> (r: Logger<T, S>)
        ensures
            r.service() == srv,
    {
        Logger { inner: srv, _phantom: PhantomData }
    }
}

impl<T: Any + Sync + Send + Debug, S> Logger<T, S> {
    /// The diagnostic record for a call with `scope`: the rendering of its
    /// value of type `T`, or none when it holds no such value.
    pub fn record(&self, scope: &Scope) -> (r: Option<String>)
        requires
            scope.wf(),
        ensures
            r is Some ==> exists|k| #[trigger] scope@.entries.contains_key(k),
            scope@.entries == Map::<TypeId, AnyArc>::empty() ==> r is None,
    {
        match scope.get::<T>() {
            Some(value) => Some(render(&*value)),
            None => None,
        }
    }
}

impl<ServerStream, T, S: Service<ServerStream>> Service<ServerStream> for Logger<T, S> {
    type AppStream = S::AppStream;

    type Error = S::Error;

    /// Exactly what the wrapped service's call does.
    open spec fn call_ensures(
        before: &Self,
        after: &Self,
        scope: Scope,
        server_events: ServerStream,
        r: Result<S::AppStream, S::Error>,
    ) -> bool {
        S::call_ensures(&before.service(), &after.service(), scope, server_events, r)
    }

    fn call(&mut self, scope: Scope, server_events: ServerStream) -> (r: Result<
        S::AppStream,
        S::Error,
    >) {
        self.inner.call(scope, server_events)
    }
}

/// The decorator is transparent: a call on it is a call on the wrapped
/// service with the same scope and stream, with the same result.
pub proof fn logger_is_transparent<ServerStream, T, S: Service<ServerStream>>(
    before: Logger<T, S>,
    after: Logger<T, S>,
    scope: Scope,
    server_events: ServerStream,
    r: Result<S::AppStream, S::Error>,
)
    requires
        <Logger<T, S> as Service<ServerStream>>::call_ensures(
            &before,
            &after,
            scope,
            server_events,
            r,
        ),
    ensures
        S::call_ensures(&before.service(), &after.service(), scope, server_events, r),
{
}

} // verus!

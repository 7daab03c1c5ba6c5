//! The unit of composition: a service takes a scope and a stream of inbound
//! events and hands back a stream of outbound events, or fails at once.
use crate::scope::Scope;
use vstd::prelude::*;

verus! {

/// A service: given a `Scope` and the inbound event stream, it produces the
/// outbound event stream, or an error when it cannot serve the call.
pub trait Service<ServerStream> {
    type AppStream;

    type Error;

    /// What holds of a call made on `before` that left the service as
    /// `after` and returned `r`; nothing is promised unless an
    /// implementation says more.
    open spec fn call_ensures(
        before: &Self,
        after: &Self,
        scope: Scope,
        server_events: ServerStream,
        r: Result<Self::AppStream, Self::Error>,
    ) -> bool {
        true
    }

    /// Serves one call; the scope and the stream are handed over.
    fn call(&mut self, scope: Scope, server_events: ServerStream) -> (r: Result<
        Self::AppStream,
        Self::Error,
    >)
        requires
            scope.wf(),
        ensures
            Self::call_ensures(&*old(self), &*final(self), scope, server_events, r),
    ;
}

} // verus!

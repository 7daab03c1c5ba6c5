//! A service that dispatches each call to the service registered for the
//! scope's protocol identifier.
use crate::scope::{text_of, Scope};
use crate::service::Service;
use crate::table::{
    entries_of, has_key, keys_unique, lemma_entry_at, lemma_push_entry, lemma_set_entry, lookup,
};
use std::borrow::Cow;
use vstd::prelude::*;
use vstd::string::StringExecFns;

verus! {

#[verifier::external_type_specification]
#[verifier::external_body]
pub struct ExIoError(std::io::Error);

/// An error type that has a value meaning "no service for this protocol".
pub trait UnsupportedProtocol: Sized {
    /// The error for a call whose protocol identifier has no service.
    fn unsupported_protocol() -> Self;
}

/// Relies on `std::io::Error::from`: an error of kind `Unsupported`.
#[verifier::external_body]
fn unsupported_io_error() -> (r: std::io::Error) {
    std::io::Error::from(std::io::ErrorKind::Unsupported)
}

impl UnsupportedProtocol for std::io::Error {
    fn unsupported_protocol() -> std::io::Error {
        unsupported_io_error()
    }
}

/// The registered pairs, each key read as its text.
pub open spec fn keyed<S>(s: Seq<(String, S)>) -> Seq<(Seq<char>, S)> {
    s.map_values(|p: (String, S)| (p.0@, p.1))
}

/// A table from protocol identifier to service. A call goes to the service
/// registered for the scope's protocol, and fails when there is none.
pub struct ProtocolRouter<S> {
    services: Vec<(String, S)>,
}

impl<S> View for ProtocolRouter<S> {
    type V = Map<Seq<char>, S>;

    /// The service registered for each protocol identifier.
    closed spec fn view(&self) -> Map<Seq<char>, S> {
        entries_of(keyed(self.services@))
    }
}

impl<S> ProtocolRouter<S> {
    /// No protocol identifier is registered twice.
    pub closed spec fn wf(&self) -> bool {
        keys_unique(keyed(self.services@))
    }

    /// A router with no service.
    pub fn new() -> (r: ProtocolRouter<S>)
        ensures
            r.wf(),
            r@ == Map::<Seq<char>, S>::empty(),
    {
        let r = ProtocolRouter { services: Vec::new() };
        assert(keyed(r.services@) =~= Seq::<(Seq<char>, S)>::empty());
        assert(r@ =~= Map::<Seq<char>, S>::empty());
        r
    }

    /// The position of the service registered for `protocol`.
    fn find(&self, protocol: &String) -> (r: Option<usize>)
        ensures
            match r {
                Some(i) => i < self.services@.len() && keyed(self.services@)[i as int].0
                    == protocol@,
                None => !has_key(keyed(self.services@), protocol@),
            },
    {
        let mut i: usize = 0;
        while i < self.services.len()
            invariant
                i <= self.services@.len(),
                forall|j: int| 0 <= j < i ==> keyed(self.services@)[j].0 != protocol@,
            decreases self.services@.len() - i,
        {
            if self.services[i].0 == *protocol {
                return Some(i);
            }
            i = i + 1;
        }
        None
    }

    /// Registers `service` for `protocol`; a service registered before for
    /// the same identifier is dropped.
    pub fn with_service(self, protocol: Cow<'static, str>, service: S) -> (r: ProtocolRouter<S>)
        requires
            self.wf(),
        ensures
            r.wf(),
            r@ == self@.insert(protocol@, service),
    {
        let key = String::from_str(text_of(&protocol));
        let ghost k = key@;
        let mut r = self;
        let ghost s = keyed(r.services@);
        match r.find(&key) {
            Some(i) => {
                proof {
                    lemma_set_entry(s, i as int, k, service);
                }
                r.services.set(i, (key, service));
                assert(keyed(r.services@) =~= s.update(i as int, (k, service)));
            },
            None => {
                proof {
                    lemma_push_entry(s, k, service);
                }
                r.services.push((key, service));
                assert(keyed(r.services@) =~= s.push((k, service)));
            },
        }
        r
    }
}

impl<S> Default for ProtocolRouter<S> {
    /// A router with no service.
    fn default() -> (r: ProtocolRouter<S>)
        ensures
            r.wf(),
            r@ == Map::<Seq<char>, S>::empty(),
    {
        ProtocolRouter::new()
    }
}

impl<ServerStream, S: Service<ServerStream>> Service<ServerStream> for ProtocolRouter<S> where
    S::Error: UnsupportedProtocol,
 {
    type AppStream = S::AppStream;

    type Error = S::Error;

    /// A registered protocol: the call went to its service, which alone
    /// changed, and returned what that service returned. Any other: the call
    /// failed and nothing changed.
    open spec fn call_ensures(
        before: &Self,
        after: &Self,
        scope: Scope,
        server_events: ServerStream,
        r: Result<S::AppStream, S::Error>,
    ) -> bool {
        before.wf() ==> {
            &&& after.wf()
            &&& if before@.contains_key(scope@.protocol) {
                &&& after@ == before@.insert(scope@.protocol, after@[scope@.protocol])
                &&& S::call_ensures(
                    &before@[scope@.protocol],
                    &after@[scope@.protocol],
                    scope,
                    server_events,
                    r,
                )
            } else {
                &&& after@ == before@
                &&& r is Err
            }
        }
    }

    fn call(&mut self, scope: Scope, server_events: ServerStream) -> (r: Result<
        S::AppStream,
        S::Error,
    >) {
        let key = String::from_str(scope.protocol());
        let ghost s0 = self.services@;
        match self.find(&key) {
            Some(i) => {
                proof {
                    if keys_unique(keyed(s0)) {
                        lemma_entry_at(keyed(s0), i as int);
                    }
                }
                let (k, mut inner) = self.services.remove(i);
                let r = inner.call(scope, server_events);
                let ghost kv = k@;
                self.services.insert(i, (k, inner));
                assert(self.services@ =~= s0.update(i as int, (k, inner)));
                assert(keyed(self.services@) =~= keyed(s0).update(i as int, (kv, inner)));
                proof {
                    if keys_unique(keyed(s0)) {
                        lemma_set_entry(keyed(s0), i as int, kv, inner);
                        lemma_entry_at(keyed(self.services@), i as int);
                    }
                }
                r
            },
            None => Err(S::Error::unsupported_protocol()),
        }
    }
}

/// A call with a registered protocol returns what the registered service's
/// call returns, and changes that service alone.
pub proof fn router_dispatches<ServerStream, S: Service<ServerStream>>(
    before: ProtocolRouter<S>,
    after: ProtocolRouter<S>,
    scope: Scope,
    server_events: ServerStream,
    r: Result<S::AppStream, S::Error>,
) where S::Error: UnsupportedProtocol
    requires
        before.wf(),
        before@.contains_key(scope@.protocol),
        <ProtocolRouter<S> as Service<ServerStream>>::call_ensures(
            &before,
            &after,
            scope,
            server_events,
            r,
        ),
    ensures
        S::call_ensures(
            &before@[scope@.protocol],
            &after@[scope@.protocol],
            scope,
            server_events,
            r,
        ),
        forall|p: Seq<char>|
            p != scope@.protocol ==> #[trigger] lookup(after@, p) == lookup(before@, p),
{
}

/// A call with a protocol that has no service fails, and no service changes.
pub proof fn router_refuses_unregistered<ServerStream, S: Service<ServerStream>>(
    before: ProtocolRouter<S>,
    after: ProtocolRouter<S>,
    scope: Scope,
    server_events: ServerStream,
    r: Result<S::AppStream, S::Error>,
) where S::Error: UnsupportedProtocol
    requires
        before.wf(),
        !before@.contains_key(scope@.protocol),
        <ProtocolRouter<S> as Service<ServerStream>>::call_ensures(
            &before,
            &after,
            scope,
            server_events,
            r,
        ),
    ensures
        r is Err,
        after@ == before@,
{
}

/// A router with no service refuses every call.
pub proof fn empty_router_refuses<ServerStream, S: Service<ServerStream>>(
    before: ProtocolRouter<S>,
    after: ProtocolRouter<S>,
    scope: Scope,
    server_events: ServerStream,
    r: Result<S::AppStream, S::Error>,
) where S::Error: UnsupportedProtocol
    requires
        before.wf(),
        before@ == Map::<Seq<char>, S>::empty(),
        <ProtocolRouter<S> as Service<ServerStream>>::call_ensures(
            &before,
            &after,
            scope,
            server_events,
            r,
        ),
    ensures
        r is Err,
        after@ == before@,
{
}

} // verus!

//! A single unit of data on an event stream: a family label and a shared
//! value of some type.
use crate::any_arc::AnyArc;
use crate::scope::{copy_text, text_of};
use std::any::Any;
use std::borrow::Cow;
use std::sync::Arc;
use vstd::prelude::*;

verus! {

/// An event that is sent or received over a stream: a family label, which
/// consumers can match on, and a payload of a type fixed when it was made.
pub struct Event {
    family: Cow<'static, str>,
    event: AnyArc,
}

impl View for Event {
    type V = Seq<char>;

    /// The family label.
    closed spec fn view(&self) -> Seq<char> {
        self.family@
    }
}

impl Clone for Event {
    fn clone(&self) -> (r: Event)
        ensures
            r@ == self@,
    {
        Event { family: copy_text(&self.family), event: self.event.share() }
    }
}

impl Event {
    /// Creates an event of the given family that carries `event`.
    pub fn new<T: Any + Sync + Send>(family: Cow<'static, str>, event: T) -> (r: Event)
        ensures
            r@ == family@,
    {
        Event { family, event: AnyArc::wrap(event) }
    }

    /// The family label.
    pub fn family(&self) -> (r: &str)
        ensures
            r@ == self@,
    {
        text_of(&self.family)
    }

    /// A shared handle to the payload when its type is exactly `T`.
    pub fn get<T: Any + Sync + Send>(&self) -> (r: Option<Arc<T>>) {
        self.event.downcast::<T>()
    }
}

} // verus!

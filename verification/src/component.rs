//! The three kinds of pipeline component.

use vstd::prelude::*;

verus! {

/// What a component does in the pipeline.
#[derive(Debug, Clone, Copy, PartialEq, Eq)]
pub enum ComponentKind {
    /// Produces events.
    Source,
    /// Receives events and passes some of them on.
    Transform,
    /// Receives events and delivers them outside the agent.
    Sink,
}

/// How a kind is written in logs.
pub open spec fn kind_name(k: ComponentKind) -> Seq<char> {
    match k {
        ComponentKind::Source => "source"@,
        ComponentKind::Transform => "transform"@,
        ComponentKind::Sink => "sink"@,
    }
}

impl ComponentKind {
    /// The kind's name: `source`, `transform` or `sink`.
    pub fn to_string(&self) -> (s: String)
        ensures
            s@ == kind_name(*self),
    {
        match self {
            ComponentKind::Source => "source".to_owned(),
            ComponentKind::Transform => "transform".to_owned(),
            ComponentKind::Sink => "sink".to_owned(),
        }
    }
}

/// A part of the pipeline that can say what kind of part it is.
pub trait Component {
    /// The kind of this component.
    fn component_kind(&self) -> ComponentKind;
}

/// A component that delivers events outside the agent.
pub trait Sink: Component {}

/// A component that receives events and passes some of them on.
pub trait Transform: Component {}

} // verus!

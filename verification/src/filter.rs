//! The filter transform: passes on the events of one kind and drops the rest.

use vstd::prelude::*;

use crate::component::{Component, ComponentKind};
use crate::event::Event;

verus! {

/// How a filter is configured (`is_log` or `is_metric`).
#[derive(Debug, Clone, Copy, PartialEq, Eq)]
pub enum FilterMethodConfig {
    IsLog,
    IsMetric,
}

/// A filter's configuration.
#[derive(Debug, Clone, Copy, PartialEq, Eq)]
pub struct FilterConfig {
    pub method: FilterMethodConfig,
}

/// Which events a filter passes on.
#[derive(Debug, Clone, Copy, PartialEq, Eq)]
pub enum FilterMethod {
    IsLog,
    IsMetric,
}

/// The event is one that `method` passes on.
pub open spec fn spec_matches(method: FilterMethod, event: Event) -> bool {
    match method {
        FilterMethod::IsLog => event is Log,
        FilterMethod::IsMetric => event is Metric,
    }
}

/// The method a configuration names.
pub open spec fn method_of(c: FilterMethodConfig) -> FilterMethod {
    match c {
        FilterMethodConfig::IsLog => FilterMethod::IsLog,
        FilterMethodConfig::IsMetric => FilterMethod::IsMetric,
    }
}

impl From<FilterMethodConfig> for FilterMethod {
    fn from(value: FilterMethodConfig) -> (m: FilterMethod) {
        match value {
            FilterMethodConfig::IsLog => FilterMethod::IsLog,
            FilterMethodConfig::IsMetric => FilterMethod::IsMetric,
        }
    }
}

impl vstd::std_specs::convert::FromSpecImpl<FilterMethodConfig> for FilterMethod {
    open spec fn obeys_from_spec() -> bool {
        true
    }

    open spec fn from_spec(v: FilterMethodConfig) -> FilterMethod {
        method_of(v)
    }
}

impl FilterConfig {
    /// The filter method this configuration asks for.
    pub fn method(&self) -> (m: FilterMethod)
        ensures
            m == method_of(self.method),
    {
        FilterMethod::from(self.method)
    }
}

impl FilterMethod {
    /// The event is one this filter passes on.
    pub fn matches(&self, event: &Event) -> (b: bool)
        ensures
            b == spec_matches(*self, *event),
    {
        match self {
            FilterMethod::IsLog => event.is_log(),
            FilterMethod::IsMetric => event.is_metric(),
        }
    }

    /// What the filter does with one received event: hands it back to be
    /// sent on when it matches, consumes it otherwise.
    pub fn forward(&self, event: Event) -> (out: Option<Event>)
        ensures
            out == (if spec_matches(*self, event) { Some(event) } else { None }),
    {
        if self.matches(&event) {
            Some(event)
        } else {
            None
        }
    }
}

/// Every event is passed on by exactly one of the two filter methods.
pub proof fn law_filters_partition_events(event: Event)
    ensures
        spec_matches(FilterMethod::IsLog, event) != spec_matches(FilterMethod::IsMetric, event),
{
}

/// The filter transform's decision part: which events it passes on.
#[derive(Debug, Clone, Copy, PartialEq, Eq)]
pub struct Filter {
    pub method: FilterMethod,
}

/// The transforms the agent offers.
#[derive(Debug, Clone, Copy, PartialEq, Eq)]
pub enum Transform {
    Filter(Filter),
}

impl Transform {
    /// What the transform does with one received event: the event to send
    /// on, if any.
    pub fn forward(&self, event: Event) -> (out: Option<Event>)
        ensures
            out == (match self {
                Transform::Filter(f) => if spec_matches(f.method, event) { Some(event) } else { None },
            }),
    {
        match self {
            Transform::Filter(f) => f.method.forward(event),
        }
    }
}

impl From<Filter> for Transform {
    fn from(value: Filter) -> (t: Transform) {
        Transform::Filter(value)
    }
}

impl vstd::std_specs::convert::FromSpecImpl<Filter> for Transform {
    open spec fn obeys_from_spec() -> bool {
        true
    }

    open spec fn from_spec(v: Filter) -> Transform {
        Transform::Filter(v)
    }
}

impl Component for Transform {
    fn component_kind(&self) -> (k: ComponentKind)
        ensures
            k == ComponentKind::Transform,
    {
        ComponentKind::Transform
    }
}

impl crate::component::Transform for Transform {}

} // verus!

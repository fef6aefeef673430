//! Instances: the data that flows through the engine.
use vstd::prelude::*;
use crate::collections::{StringMap, StringSet};

verus! {

/// Where an instance came from: the upstream instance's id, meta and state
/// version.
#[derive(Debug, PartialEq, Eq)]
pub struct FromInstance {
    pub id: u128,
    pub meta: String,
    pub state_version: i32,
}

impl FromInstance {
    /// A copy, field for field.
    pub fn duplicate(&self) -> (r: FromInstance)
        ensures
            r == *self,
    {
        FromInstance { id: self.id, meta: self.meta.clone(), state_version: self.state_version }
    }
}

impl Clone for FromInstance {
    fn clone(&self) -> (r: FromInstance)
        ensures
            r == *self,
    {
        self.duplicate()
    }
}

/// The content of an instance: its meta string, its payload, its context
/// entries, the states it is in, its state version, and its origin.
#[derive(Debug, Clone)]
pub struct BizObject {
    pub meta: String,
    pub content: String,
    pub context: StringMap,
    pub states: StringSet,
    pub state_version: i32,
    pub from: Option<FromInstance>,
}

/// An instance: an id and its content.
#[derive(Debug, Clone)]
pub struct Instance {
    pub id: u128,
    pub data: BizObject,
}

/// An instance as a mathematical value.
pub struct InstanceView {
    pub id: u128,
    pub meta: Seq<char>,
    pub content: Seq<char>,
    pub context: Map<Seq<char>, Seq<char>>,
    pub states: Set<Seq<char>>,
    pub state_version: i32,
    pub from: Option<FromInstance>,
}

impl View for Instance {
    type V = InstanceView;

    open spec fn view(&self) -> InstanceView {
        InstanceView {
            id: self.id,
            meta: self.data.meta@,
            content: self.data.content@,
            context: self.data.context@,
            states: self.data.states@,
            state_version: self.data.state_version,
            from: self.data.from,
        }
    }
}

/// The instances of a vector, each taken by its view.
pub open spec fn instance_views(v: Seq<Instance>) -> Seq<InstanceView> {
    v.map_values(|i: Instance| i@)
}

} // verus!

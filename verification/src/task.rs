//! Tasks: what the engine hands to a converter, and the stored task that
//! carries it.
use vstd::prelude::*;
use crate::collections::StringSet;
use crate::executor::Executor;
use crate::instance::Instance;
use crate::meta::Meta;

verus! {

/// States to add to and remove from the target instance.
#[derive(Debug, Clone)]
pub struct TargetState {
    pub add: Option<Vec<String>>,
    pub remove: Option<Vec<String>>,
}

/// What a mission demands of the target's states: the states that its last
/// instance must have and must not have, and the states to set.
#[derive(Debug, Clone)]
pub struct StateDemand {
    pub last_states_include: StringSet,
    pub last_states_exclude: StringSet,
    pub target_states: Option<TargetState>,
}

/// A conversion to carry out: the target meta, the converter, the state
/// demands, and whether the target takes the upstream instance's id.
#[derive(Debug, Clone)]
pub struct Mission {
    pub to: Meta,
    pub executor: Executor,
    pub states_demand: Option<StateDemand>,
    pub use_upstream_id: bool,
}

/// A conversion with its input: the upstream instance and the mission.
#[derive(Debug, Clone)]
pub struct TaskForConvert {
    pub from: Instance,
    pub target: Mission,
}

/// A task as it is stored: its id, meta, kind and payload, the state version
/// it was made against, when it was made and last run (in milliseconds), and
/// how often it was retried.
#[derive(Debug, Clone)]
pub struct RawTask {
    pub task_id: Vec<u8>,
    pub meta: String,
    pub data_type: i16,
    pub data: String,
    pub last_state_version: i32,
    pub create_time: i64,
    pub execute_time: i64,
    pub retried_times: i16,
}

/// A stored task as a mathematical value.
pub struct RawTaskView {
    pub task_id: Seq<u8>,
    pub meta: Seq<char>,
    pub data_type: i16,
    pub data: Seq<char>,
    pub last_state_version: i32,
    pub create_time: i64,
    pub execute_time: i64,
    pub retried_times: i16,
}

impl View for RawTask {
    type V = RawTaskView;

    open spec fn view(&self) -> RawTaskView {
        RawTaskView {
            task_id: self.task_id@,
            meta: self.meta@,
            data_type: self.data_type,
            data: self.data@,
            last_state_version: self.last_state_version,
            create_time: self.create_time,
            execute_time: self.execute_time,
            retried_times: self.retried_times,
        }
    }
}

impl RawTask {
    /// A copy of the task, field for field.
    pub fn duplicate(&self) -> (r: RawTask)
        ensures
            r@ == self@,
    {
        let task_id = self.task_id.clone();
        assert(task_id@ =~= self.task_id@);
        RawTask {
            task_id,
            meta: self.meta.clone(),
            data_type: self.data_type,
            data: self.data.clone(),
            last_state_version: self.last_state_version,
            create_time: self.create_time,
            execute_time: self.execute_time,
            retried_times: self.retried_times,
        }
    }
}

} // verus!

//! Conversion results: what a converter returned, checked and completed
//! before it is stored.
use vstd::prelude::*;
use crate::collections::{string_views, StringSet};
use crate::error::NatureError;
use crate::executor::Protocol;
use crate::instance::{instance_views, BizObject, FromInstance, Instance, InstanceView};
use crate::meta::{meta_string_of, Meta, MetaType};
use crate::task::{Mission, RawTask, TargetState, TaskForConvert};

verus! {

/// The instance and state rules that come with metas: how an instance is
/// normalised once its meta and origin are set, how a list of states is
/// checked against a meta's state definition, and how a target-state demand
/// changes a set of states.  Each rule comes with a relation between what it
/// is given and what it gives; an implementation may narrow these relations,
/// and by default they allow any outcome.  The engine's results below hold
/// of every outcome that the relations allow.
pub trait InstanceRules {
    /// Whether `after` is a revision of `before` that `revise` may give.
    closed spec fn revises(&self, before: InstanceView, after: InstanceView) -> bool {
        true
    }

    /// Whether `r` is an outcome that `check_state` may give for the states
    /// `states` of the meta `meta`.
    closed spec fn checks(
        &self,
        meta: Meta,
        states: Seq<Seq<char>>,
        r: Result<(Vec<String>, Vec<String>), NatureError>,
    ) -> bool {
        true
    }

    /// Whether `after` is a set of states that `modify_state` may make of
    /// `before` for the demand `target` of the meta `meta`.
    closed spec fn modifies(
        &self,
        before: Set<Seq<char>>,
        target: TargetState,
        meta: Meta,
        after: Set<Seq<char>>,
    ) -> bool {
        true
    }

    /// Normalises an instance whose meta and origin have been set.
    fn revise(&self, instance: &mut Instance)
        ensures
            self.revises(old(instance)@, final(instance)@),
    ;

    /// Checks `states` against the state definition of `meta`: the states as
    /// accepted, and those among them that exclude each other; or an error,
    /// such as for a state that the meta does not define.
    fn check_state(&self, meta: &Meta, states: &Vec<String>) -> (r: Result<
        (Vec<String>, Vec<String>),
        NatureError,
    >)
        ensures
            self.checks(*meta, string_views(states@), r),
    ;

    /// Applies the demanded additions and removals to `states`, by the state
    /// definition of `meta`.
    fn modify_state(&self, states: &mut StringSet, target: &TargetState, meta: &Meta)
        ensures
            self.modifies(old(states)@, *target, *meta, final(states)@),
    ;
}

/// The `Debug` rendering of a list of strings, such as `["a", "b"]`.
pub uninterp spec fn debug_rendering(items: Seq<Seq<char>>) -> Seq<char>;

/// std's `Debug` formatting of a `Vec<String>` (`format!("{:?}", ..)`).
/// Claimed: the text depends on the strings of the list alone, and is named
/// `debug_rendering`; what it is (brackets, quotes, escapes) is not stated.
#[verifier::external_body]
fn debug_list(items: &Vec<String>) -> (r: String)
    ensures
        r@ == debug_rendering(string_views(items@)),
{
    format!("{:?}", items)
}

/// The outcome of a conversion: the task that carried it, and the instances
/// to store.
pub struct Converted {
    pub done_task: RawTask,
    pub converted: Vec<Instance>,
}

/// The origin written into every converted instance: the upstream instance's
/// id, meta and state version.
pub open spec fn upstream_origin(task: TaskForConvert) -> FromInstance {
    FromInstance {
        id: task.from.id,
        meta: task.from.data.meta,
        state_version: task.from.data.state_version,
    }
}

/// An instance with its meta set to the target's meta string and its origin
/// set to the upstream instance.
pub open spec fn stamped(i: Instance, task: TaskForConvert) -> InstanceView {
    InstanceView {
        meta: meta_string_of(&task.target.to),
        from: Some(upstream_origin(task)),
        ..i@
    }
}

/// The id that the first converted instance takes, if any: for a state
/// target, the last state instance's id, or, when there is none and the
/// engine converts by itself, the upstream id; otherwise the upstream id when
/// the mission asks for it and exactly one instance was returned.
pub open spec fn chosen_id(
    count: nat,
    last: Option<Instance>,
    from: FromInstance,
    target: Mission,
) -> Option<u128> {
    if target.to.states is Some {
        match last {
            Some(previous) => Some(previous.id),
            None => if target.executor.protocol == Protocol::Auto {
                Some(from.id)
            } else {
                None
            },
        }
    } else if target.use_upstream_id {
        if count == 1 {
            Some(from.id)
        } else {
            None
        }
    } else {
        None
    }
}

/// The instances with the first one's id replaced by the chosen id, if any.
pub open spec fn ids_checked(
    ins: Seq<Instance>,
    last: Option<Instance>,
    from: FromInstance,
    target: Mission,
) -> Seq<Instance> {
    match chosen_id(ins.len(), last, from, target) {
        Some(id) => ins.update(0, Instance { id, ..ins[0] }),
        None => ins,
    }
}

/// A state instance as it stands before its states are settled: it takes
/// the upstream id when the mission asks for it; with no last state it is at
/// version 1; otherwise it takes the last state's id, the next version and
/// the last state's states.
pub open spec fn staged(i: InstanceView, task: TaskForConvert, last: Option<Instance>) -> InstanceView {
    let id = if task.target.use_upstream_id {
        task.from.id
    } else {
        i.id
    };
    match last {
        None => InstanceView { id, state_version: 1, ..i },
        Some(x) => InstanceView {
            id: x.id,
            state_version: (x.data.state_version + 1) as i32,
            states: x.data.states@,
            ..i
        },
    }
}

/// How the outcome of a state check is settled: a failed check fails with
/// its error; states that exclude each other fail as a logical error of the
/// converter that names them; otherwise the check passes.
pub open spec fn settles(checked: Result<(Vec<String>, Vec<String>), NatureError>, r: Result<(), NatureError>) -> bool {
    match checked {
        Err(e) => r == Err::<(), NatureError>(e),
        Ok((_, mutex)) => if mutex.len() > 0 {
            r matches Err(NatureError::ConverterLogicalError(m)) && m@ == "returned mutex state "@
                + debug_rendering(string_views(mutex@))
        } else {
            r is Ok
        },
    }
}

/// What checking the states of converted instances returns and leaves, for
/// every behaviour of the state rules.  A target that is not a state meta
/// passes unchanged; a state meta takes at most one instance (the message
/// names the upstream-id demand when the mission makes it); the one instance
/// is staged, and then either takes the demanded target states, keeps its
/// staged states when no target states are demanded, or, with no demand at
/// all, keeps its own states when they pass the state check.
pub open spec fn state_outcome<R: InstanceRules>(
    rules: R,
    task: TaskForConvert,
    before: Seq<Instance>,
    last: Option<Instance>,
    after: Seq<InstanceView>,
    r: Result<(), NatureError>,
) -> bool {
    if task.target.to.states is None {
        r is Ok && after == instance_views(before)
    } else if task.target.use_upstream_id && before.len() > 1 {
        &&& after == instance_views(before)
        &&& r matches Err(NatureError::ConverterLogicalError(m))
        &&& m@ == "[use_upstream_id] must return less 2 instances!"@
    } else if before.len() > 1 {
        &&& after == instance_views(before)
        &&& r matches Err(NatureError::ConverterLogicalError(m))
        &&& m@ == "[status meta] must return less 2 instances!"@
    } else {
        let s = staged(before[0]@, task, last);
        &&& after.len() == 1
        &&& match task.target.states_demand {
            Some(demand) => {
                &&& r is Ok
                &&& match demand.target_states {
                    Some(ts) => {
                        &&& after[0] == InstanceView { states: after[0].states, ..s }
                        &&& rules.modifies(s.states, ts, task.target.to, after[0].states)
                    },
                    None => after[0] == s,
                }
            },
            None => {
                &&& exists|checked: Result<(Vec<String>, Vec<String>), NatureError>|
                    rules.checks(task.target.to, before[0].data.states.elements(), checked)
                        && #[trigger] settles(checked, r)
                &&& r is Ok ==> after[0] == InstanceView { states: before[0]@.states, ..s }
                &&& r is Err ==> after[0] == s
            },
        }
    }
}

/// What completing a conversion from the given instances returns: the first
/// instance's id is chosen, the states are checked, and the instances are
/// returned with the carrying task, or the check's error.
pub open spec fn finish_result<R: InstanceRules>(
    rules: R,
    task: TaskForConvert,
    carrier: RawTask,
    revised: Seq<Instance>,
    last: Option<Instance>,
    r: Result<Converted, NatureError>,
) -> bool {
    let checked = ids_checked(revised, last, upstream_origin(task), task.target);
    match r {
        Ok(c) => {
            &&& c.done_task@ == carrier@
            &&& state_outcome(rules, task, checked, last, instance_views(c.converted@), Ok(()))
        },
        Err(e) => exists|after: Seq<InstanceView>| #[trigger]
            state_outcome(rules, task, checked, last, after, Err(e)),
    }
}

/// The last state's version can be incremented.
pub open spec fn version_room(last: Option<Instance>) -> bool {
    last matches Some(x) ==> x.data.state_version < i32::MAX
}

impl Converted {
    /// Checks and completes what a converter returned for `task`.
    ///
    /// A target meta of type `Null` stores nothing. Otherwise at least one
    /// instance must have come back. Each instance is given the target meta
    /// and the upstream instance as its origin, and is revised by the rules;
    /// then the first instance's id is chosen and the states are checked (see
    /// `finish`).
    pub fn gen<R: InstanceRules>(
        task: &TaskForConvert,
        carrier: &RawTask,
        instances: Vec<Instance>,
        last_state: &Option<Instance>,
        rules: &R,
    ) -> (r: Result<Converted, NatureError>)
        requires
            task.target.to.meta_type != MetaType::Null && task.target.to.states is Some
                && instances@.len() == 1 ==> version_room(*last_state),
        ensures
            task.target.to.meta_type == MetaType::Null ==> (r matches Ok(c) && c.done_task@
                == carrier@ && c.converted@.len() == 0),
            task.target.to.meta_type != MetaType::Null && instances@.len() == 0 ==> (r matches Err(
                NatureError::VerifyError(m),
            ) && m@ == "Must return instance for meta: "@ + meta_string_of(&task.target.to)),
            task.target.to.meta_type != MetaType::Null && instances@.len() > 0 ==> exists|
                revised: Seq<Instance>,
            |
                revised.len() == instances@.len() && (forall|i: int|
                    0 <= i < revised.len() ==> rules.revises(
                        stamped(instances@[i], *task),
                        #[trigger] revised[i]@,
                    )) && #[trigger] finish_result(
                    *rules,
                    *task,
                    *carrier,
                    revised,
                    *last_state,
                    r,
                ),
    {
        if task.target.to.get_meta_type() == MetaType::Null {
            let rtn = Converted { done_task: carrier.duplicate(), converted: Vec::new() };
            return Ok(rtn);
        }
        if instances.len() == 0 {
            let mut msg = String::from_str("Must return instance for meta: ");
            let meta = task.target.to.meta_string();
            msg.append(meta.as_str());
            return Err(NatureError::VerifyError(msg));
        }
        let ghost given = instances@;
        let mut instances = Self::stamp(task, instances);
        let n = instances.len();
        let mut i: usize = 0;
        while i < n
            invariant
                instances.len() == n,
                given.len() == n,
                i <= n,
                forall|j: int|
                    0 <= j < i ==> rules.revises(
                        stamped(given[j], *task),
                        #[trigger] instances@[j]@,
                    ),
                forall|j: int| i <= j < n ==> #[trigger] instances@[j]@ == stamped(given[j], *task),
            decreases n - i,
        {
            rules.revise(&mut instances[i]);
            i = i + 1;
        }
        let ghost revised = instances@;
        let r = Self::finish(task, carrier, instances, last_state, rules);
        assert(finish_result(*rules, *task, *carrier, revised, *last_state, r));
        r
    }

    /// Gives every instance the target's meta string, and the upstream
    /// instance as its origin.
    pub fn stamp(task: &TaskForConvert, instances: Vec<Instance>) -> (r: Vec<Instance>)
        ensures
            r@.len() == instances@.len(),
            forall|i: int| 0 <= i < r@.len() ==> #[trigger] r@[i]@ == stamped(instances@[i], *task),
    {
        let meta = task.target.to.meta_string();
        let from = FromInstance {
            id: task.from.id,
            meta: task.from.data.meta.clone(),
            state_version: task.from.data.state_version,
        };
        let mut instances = instances;
        let ghost given = instances@;
        let n = instances.len();
        let mut i: usize = 0;
        while i < n
            invariant
                instances.len() == n,
                given.len() == n,
                i <= n,
                meta@ == meta_string_of(&task.target.to),
                from == upstream_origin(*task),
                forall|j: int| 0 <= j < i ==> #[trigger] instances@[j]@ == stamped(given[j], *task),
                forall|j: int| i <= j < n ==> #[trigger] instances@[j] == given[j],
            decreases n - i,
        {
            instances[i].data.meta = meta.clone();
            instances[i].data.from = Some(from.duplicate());
            i = i + 1;
        }
        instances
    }

    /// Completes a conversion from instances that have been stamped and
    /// revised: the first instance's id is chosen (see `check_id`), the
    /// states are checked (see `verify_state`), and the instances are
    /// returned with a copy of the carrying task.
    pub fn finish<R: InstanceRules>(
        task: &TaskForConvert,
        carrier: &RawTask,
        revised: Vec<Instance>,
        last_state: &Option<Instance>,
        rules: &R,
    ) -> (r: Result<Converted, NatureError>)
        requires
            revised@.len() > 0,
            task.target.to.states is Some && revised@.len() == 1 ==> version_room(*last_state),
        ensures
            finish_result(*rules, *task, *carrier, revised@, *last_state, r),
    {
        let ghost given = revised@;
        let mut instances = revised;
        let from = FromInstance {
            id: task.from.id,
            meta: task.from.data.meta.clone(),
            state_version: task.from.data.state_version,
        };
        Self::check_id(&mut instances, last_state, &from, &task.target);
        let ghost checked = instances@;
        let verdict = Self::verify_state(task, &mut instances, last_state, rules);
        match verdict {
            Ok(()) => {
                proof {
                    if task.target.to.states is Some && task.target.states_demand is None {
                        let c = choose|c: Result<(Vec<String>, Vec<String>), NatureError>|
                            rules.checks(task.target.to, checked[0].data.states.elements(), c)
                                && #[trigger] settles(c, verdict);
                        assert(rules.checks(task.target.to, checked[0].data.states.elements(), c)
                            && settles(c, Ok(())));
                    }
                }
                let rtn = Converted { done_task: carrier.duplicate(), converted: instances };
                Ok(rtn)
            },
            Err(e) => {
                assert(state_outcome(
                    *rules,
                    *task,
                    checked,
                    *last_state,
                    instance_views(instances@),
                    Err(e),
                ));
                let r = Err(e);
                assert(checked == ids_checked(given, *last_state, upstream_origin(*task), task.target));
                assert(exists|after: Seq<InstanceView>| #[trigger]
                    state_outcome(*rules, *task, checked, *last_state, after, Err(e)));
                assert(finish_result(*rules, *task, *carrier, given, *last_state, r));
                r
            },
        }
    }

    /// Gives the first instance the chosen id, if any (see `chosen_id`).
    pub fn check_id(
        ins: &mut Vec<Instance>,
        last: &Option<Instance>,
        from: &FromInstance,
        target: &Mission,
    )
        requires
            chosen_id(old(ins)@.len(), *last, *from, *target) is Some ==> old(ins)@.len() > 0,
        ensures
            final(ins)@ == ids_checked(old(ins)@, *last, *from, *target),
    {
        let id = match target.to.is_state() {
            true => match last {
                Some(previous) => Some(previous.id),
                None => match target.executor.protocol {
                    Protocol::Auto => Some(from.id),
                    _ => None,
                },
            },
            false => match target.use_upstream_id {
                true => match ins.len() {
                    1 => Some(from.id),
                    _ => None,
                },
                false => None,
            },
        };
        if let Some(id) = id {
            ins[0].id = id;
            assert(ins@ =~= ids_checked(old(ins)@, *last, *from, *target));
        }
    }

    /// Checks the states of the converted instances (see `state_outcome`).
    pub fn verify_state<R: InstanceRules>(
        task: &TaskForConvert,
        instances: &mut Vec<Instance>,
        last_state: &Option<Instance>,
        rules: &R,
    ) -> (r: Result<(), NatureError>)
        requires
            task.target.to.states is Some ==> old(instances)@.len() > 0,
            task.target.to.states is Some && old(instances)@.len() == 1 ==> version_room(
                *last_state,
            ),
        ensures
            state_outcome(
                *rules,
                *task,
                old(instances)@,
                *last_state,
                instance_views(final(instances)@),
                r,
            ),
            final(instances)@.len() == old(instances)@.len(),
            forall|k: int|
                1 <= k < old(instances)@.len() ==> #[trigger] final(instances)@[k] == old(
                    instances,
                )@[k],
            old(instances)@.len() > 0 ==> final(instances)@[0] == (Instance {
                id: final(instances)@[0].id,
                data: BizObject {
                    state_version: final(instances)@[0].data.state_version,
                    states: final(instances)@[0].data.states,
                    ..old(instances)@[0].data
                },
            }),
    {
        let to = &task.target.to;
        if !to.is_state() {
            assert(instance_views(instances@) =~= instance_views(old(instances)@));
            return Ok(());
        }
        if task.target.use_upstream_id && instances.len() > 1 {
            return Err(
                NatureError::ConverterLogicalError(
                    String::from_str("[use_upstream_id] must return less 2 instances!"),
                ),
            );
        }
        if instances.len() > 1 {
            return Err(
                NatureError::ConverterLogicalError(
                    String::from_str("[status meta] must return less 2 instances!"),
                ),
            );
        }
        if task.target.use_upstream_id {
            instances[0].id = task.from.id;
        }
        let temp_states = instances[0].data.states.duplicate();
        match last_state {
            None => {
                instances[0].data.state_version = 1;
            },
            Some(x) => {
                instances[0].id = x.id;
                instances[0].data.state_version = x.data.state_version + 1;
                instances[0].data.states = x.data.states.duplicate();
            },
        }
        if let Some(lsd) = &task.target.states_demand {
            if let Some(ts) = &lsd.target_states {
                rules.modify_state(&mut instances[0].data.states, ts, &task.target.to);
            }
        } else {
            let checked = rules.check_state(&task.target.to, &temp_states.to_vec());
            let ghost c = checked;
            let verdict = Self::settle_state_check(checked);
            assert(settles(c, verdict));
            if verdict.is_err() {
                return verdict;
            }
            instances[0].data.states = temp_states;
            assert(settles(c, Ok(())));
        }
        Ok(())
    }

    /// Settles what a state check returned (see `settles`).
    pub fn settle_state_check(checked: Result<(Vec<String>, Vec<String>), NatureError>) -> (r:
        Result<(), NatureError>)
        ensures
            settles(checked, r),
    {
        match checked {
            Err(e) => Err(e),
            Ok((_, mutex)) => {
                if mutex.len() > 0 {
                    let mut msg = String::from_str("returned mutex state ");
                    let listed = debug_list(&mutex);
                    msg.append(listed.as_str());
                    Err(NatureError::ConverterLogicalError(msg))
                } else {
                    Ok(())
                }
            },
        }
    }
}

/// With a mission that asks for the upstream id, a single converted instance
/// carries the upstream instance's id, unless a last state instance gives it
/// its id.
pub proof fn lemma_single_instance_takes_upstream_id<R: InstanceRules>(
    rules: R,
    task: TaskForConvert,
    carrier: RawTask,
    revised: Seq<Instance>,
    r: Result<Converted, NatureError>,
)
    requires
        task.target.use_upstream_id,
        revised.len() == 1,
        finish_result(rules, task, carrier, revised, None, r),
        r is Ok,
    ensures
        r->Ok_0.converted@.len() == 1,
        r->Ok_0.converted@[0].id == task.from.id,
{
    let c = r->Ok_0;
    assert(instance_views(c.converted@).len() == c.converted@.len());
    assert(instance_views(c.converted@)[0] == c.converted@[0]@);
}

/// A converted state instance continues its last state instance: it takes
/// that instance's id and the next state version; with no last state
/// instance it is at version 1.
pub proof fn lemma_state_version_follows_last<R: InstanceRules>(
    rules: R,
    task: TaskForConvert,
    carrier: RawTask,
    revised: Seq<Instance>,
    last: Option<Instance>,
    r: Result<Converted, NatureError>,
)
    requires
        task.target.to.states is Some,
        revised.len() > 0,
        version_room(last),
        finish_result(rules, task, carrier, revised, last, r),
        r is Ok,
    ensures
        r->Ok_0.converted@.len() == 1,
        match last {
            Some(x) => r->Ok_0.converted@[0].id == x.id && r->Ok_0.converted@[0].data.state_version
                == x.data.state_version + 1,
            None => r->Ok_0.converted@[0].data.state_version == 1,
        },
{
    let c = r->Ok_0;
    assert(instance_views(c.converted@).len() == c.converted@.len());
    assert(instance_views(c.converted@)[0] == c.converted@[0]@);
}

/// The id that the first instance ends with: for a state target, the last
/// state instance's id when there is one; otherwise the upstream id when the
/// executor is `Auto`, and for any other protocol the id the converter gave.
/// For any other target, the upstream id exactly when the mission asks for
/// it and one instance came back, else the converter's id.  No other field
/// and no other instance changes.
pub proof fn lemma_first_id(
    ins: Seq<Instance>,
    last: Option<Instance>,
    from: FromInstance,
    target: Mission,
)
    requires
        ins.len() > 0,
    ensures
        ids_checked(ins, last, from, target).len() == ins.len(),
        forall|k: int| 1 <= k < ins.len() ==> #[trigger] ids_checked(ins, last, from, target)[k]
            == ins[k],
        ids_checked(ins, last, from, target)[0].data == ins[0].data,
        target.to.states is Some && last is Some ==> ids_checked(ins, last, from, target)[0].id
            == last->0.id,
        target.to.states is Some && last is None && target.executor.protocol == Protocol::Auto
            ==> ids_checked(ins, last, from, target)[0].id == from.id,
        target.to.states is Some && last is None && target.executor.protocol != Protocol::Auto
            ==> ids_checked(ins, last, from, target)[0].id == ins[0].id,
        target.to.states is None && target.use_upstream_id && ins.len() == 1 ==> ids_checked(
            ins,
            last,
            from,
            target,
        )[0].id == from.id,
        target.to.states is None && !(target.use_upstream_id && ins.len() == 1) ==> ids_checked(
            ins,
            last,
            from,
            target,
        ) == ins,
{
}

/// When a last state instance exists and the mission demands target states,
/// the stored instance's states are what the demand makes of the last state
/// instance's states (not of the states the converter returned); it takes
/// the last state instance's id and the next state version, and the check
/// passes.
pub proof fn lemma_demanded_states_start_from_last<R: InstanceRules>(
    rules: R,
    task: TaskForConvert,
    before: Seq<Instance>,
    last: Instance,
    after: Seq<InstanceView>,
    r: Result<(), NatureError>,
)
    requires
        task.target.to.states is Some,
        before.len() == 1,
        task.target.states_demand matches Some(d) && d.target_states is Some,
        last.data.state_version < i32::MAX,
        state_outcome(rules, task, before, Some(last), after, r),
    ensures
        r is Ok,
        after.len() == 1,
        rules.modifies(
            last.data.states@,
            task.target.states_demand->0.target_states->0,
            task.target.to,
            after[0].states,
        ),
        after[0].id == last.id,
        after[0].state_version == last.data.state_version + 1,
        after[0].meta == before[0]@.meta,
        after[0].content == before[0]@.content,
        after[0].context == before[0]@.context,
        after[0].from == before[0]@.from,
{
}

/// With no state demand, the states that are checked are the converter's
/// own, and when the check passes the stored instance keeps them.
pub proof fn lemma_own_states_are_checked<R: InstanceRules>(
    rules: R,
    task: TaskForConvert,
    before: Seq<Instance>,
    last: Option<Instance>,
    after: Seq<InstanceView>,
    r: Result<(), NatureError>,
)
    requires
        task.target.to.states is Some,
        before.len() == 1,
        task.target.states_demand is None,
        state_outcome(rules, task, before, last, after, r),
    ensures
        exists|c: Result<(Vec<String>, Vec<String>), NatureError>|
            rules.checks(task.target.to, before[0].data.states.elements(), c) && #[trigger] settles(
                c,
                r,
            ),
        r is Ok ==> after[0].states == before[0]@.states,
{
}

/// A failed state check fails with its own error; states that exclude each
/// other make the check fail with a converter error; a check that finds no
/// such states passes.
pub proof fn lemma_state_check_settlement(
    checked: Result<(Vec<String>, Vec<String>), NatureError>,
    r: Result<(), NatureError>,
)
    requires
        settles(checked, r),
    ensures
        checked is Err ==> r == Err::<(), NatureError>(checked->Err_0),
        checked is Ok && checked->Ok_0.1@.len() > 0 ==> r is Err && r->Err_0 is ConverterLogicalError,
        checked is Ok && checked->Ok_0.1@.len() == 0 ==> r is Ok,
{
}

/// A target that is not a state meta passes its instances unchanged; a state
/// target refuses more than one instance, leaving them unchanged, with a
/// converter error.
pub proof fn lemma_state_target_instance_count<R: InstanceRules>(
    rules: R,
    task: TaskForConvert,
    before: Seq<Instance>,
    last: Option<Instance>,
    after: Seq<InstanceView>,
    r: Result<(), NatureError>,
)
    requires
        state_outcome(rules, task, before, last, after, r),
    ensures
        task.target.to.states is None ==> r is Ok && after == instance_views(before),
        task.target.to.states is Some && before.len() > 1 ==> r is Err && r->Err_0 is ConverterLogicalError
            && after == instance_views(before),
        task.target.to.states is Some && before.len() == 1 ==> after.len() == 1,
{
}

} // verus!

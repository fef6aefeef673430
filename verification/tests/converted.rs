use nature::collections::{StringMap, StringSet};
use nature::converted::{Converted, InstanceRules};
use nature::error::NatureError;
use nature::executor::{Executor, Protocol};
use nature::instance::{BizObject, FromInstance, Instance};
use nature::meta::{Meta, MetaType};
use nature::task::{Mission, RawTask, StateDemand, TargetState, TaskForConvert};

/// State rules for the tests: revise leaves the instance alone, a check
/// accepts the defined states (and fails on any other), and a demand removes
/// then adds states.
struct PlainRules;

impl InstanceRules for PlainRules {
    fn revise(&self, _instance: &mut Instance) {}

    fn check_state(&self, meta: &Meta, states: &Vec<String>) -> Result<(Vec<String>, Vec<String>), NatureError> {
        let defined = meta.states.clone().unwrap_or_default();
        for s in states {
            if !defined.contains(s) {
                return Err(NatureError::VerifyError(format!("{} is not defined", s)));
            }
        }
        Ok((states.clone(), vec![]))
    }

    fn modify_state(&self, states: &mut StringSet, target: &TargetState, _meta: &Meta) {
        if let Some(remove) = &target.remove {
            for s in remove {
                states.remove(s);
            }
        }
        if let Some(add) = &target.add {
            for s in add {
                states.insert(s.clone());
            }
        }
    }
}

/// Rules whose state check always finds the given states to exclude each other.
struct MutexRules(Vec<String>);

impl InstanceRules for MutexRules {
    fn revise(&self, _instance: &mut Instance) {}

    fn check_state(&self, _meta: &Meta, states: &Vec<String>) -> Result<(Vec<String>, Vec<String>), NatureError> {
        Ok((states.clone(), self.0.clone()))
    }

    fn modify_state(&self, _states: &mut StringSet, _target: &TargetState, _meta: &Meta) {}
}

/// Rules whose revise gives every instance a fixed id.
struct IdRules(u128);

impl InstanceRules for IdRules {
    fn revise(&self, instance: &mut Instance) {
        instance.id = self.0;
    }

    fn check_state(&self, _meta: &Meta, states: &Vec<String>) -> Result<(Vec<String>, Vec<String>), NatureError> {
        Ok((states.clone(), vec![]))
    }

    fn modify_state(&self, _states: &mut StringSet, _target: &TargetState, _meta: &Meta) {}
}

fn instance(meta: &str) -> Instance {
    Instance {
        id: 0,
        data: BizObject {
            meta: meta.to_string(),
            content: String::new(),
            context: StringMap::new(),
            states: StringSet::new(),
            state_version: 0,
            from: None,
        },
    }
}

fn meta(key: &str, meta_type: MetaType) -> Meta {
    Meta { meta_type, key: key.to_string(), version: 1, states: None }
}

fn executor(protocol: Protocol) -> Executor {
    Executor { protocol, url: String::new() }
}

fn raw_task() -> RawTask {
    RawTask {
        task_id: vec![],
        meta: "".to_string(),
        data_type: 0,
        data: "".to_string(),
        last_state_version: 0,
        create_time: 0,
        execute_time: 0,
        retried_times: 0,
    }
}

fn task(to: Meta, use_upstream_id: bool, states_demand: Option<StateDemand>) -> TaskForConvert {
    TaskForConvert {
        from: instance(""),
        target: Mission { to, executor: executor(Protocol::LocalRust), states_demand, use_upstream_id },
    }
}

fn states(names: &[&str]) -> StringSet {
    let mut s = StringSet::new();
    for n in names {
        s.insert(n.to_string());
    }
    s
}

#[test]
fn upstream_test() {
    let mut from_ins = instance("/B/from:1");
    from_ins.id = 567;
    from_ins.data.state_version = 2;
    let mut task = task(meta("/to", MetaType::Business), true, None);
    task.from = from_ins;
    let raw = raw_task();
    let mut ins = instance("");
    ins.id = 123;
    let ins = vec![ins];

    // for normal
    let result = Converted::gen(&task, &raw, ins.clone(), &None, &PlainRules).unwrap();
    let c = &result.converted[0];
    let from = c.data.from.as_ref().unwrap();
    assert_eq!(from.id, 567);
    assert_eq!(from.meta, "/B/from:1");
    assert_eq!(from.state_version, 2);
    assert_eq!(result.converted[0].id, 567);

    // for state
    task.target.to.states = Some(vec!["hello".to_string()]);
    let result = Converted::gen(&task, &raw, ins, &None, &PlainRules).unwrap();
    assert_eq!(result.converted[0].id, 567);
}

#[test]
fn target_states_test() {
    let mut to = meta("/hello", MetaType::Business);
    to.states = Some(vec!["new".to_string()]);
    let task = task(
        to,
        false,
        Some(StateDemand {
            last_states_include: StringSet::new(),
            last_states_exclude: StringSet::new(),
            target_states: Some(TargetState { add: Some(vec!["new".to_string()]), remove: None }),
        }),
    );
    let mut ins = vec![instance("/B/test:1")];
    let _ = Converted::verify_state(&task, &mut ins, &None, &PlainRules);
    let one = &ins[0];
    assert_eq!(one.data.states.contains(&"new".to_string()), true)
}

#[test]
fn gen_null_target_stores_nothing() {
    let task = task(meta("/nothing", MetaType::Null), false, None);
    let mut raw = raw_task();
    raw.task_id = vec![1, 2, 3];
    raw.retried_times = 4;
    let result = Converted::gen(&task, &raw, vec![instance("")], &None, &PlainRules).unwrap();
    assert!(result.converted.is_empty());
    assert_eq!(result.done_task.task_id, vec![1, 2, 3]);
    assert_eq!(result.done_task.retried_times, 4);
}

#[test]
fn gen_without_instances_is_refused() {
    let task = task(meta("/order", MetaType::Business), false, None);
    let r = Converted::gen(&task, &raw_task(), vec![], &None, &PlainRules);
    assert_eq!(r.err().unwrap(), NatureError::VerifyError("Must return instance for meta: /B/order:1".to_string()));
}

#[test]
fn gen_stamps_meta_and_origin() {
    let mut task = task(meta("/sale/order", MetaType::Dynamic), false, None);
    task.target.to.version = 12;
    task.from.id = 9;
    task.from.data.meta = "/B/up:3".to_string();
    task.from.data.state_version = 7;
    let result = Converted::gen(&task, &raw_task(), vec![instance("x"), instance("y")], &None, &PlainRules).unwrap();
    assert_eq!(result.converted.len(), 2);
    for c in &result.converted {
        assert_eq!(c.data.meta, "/D/sale/order:12");
        assert_eq!(c.data.from, Some(FromInstance { id: 9, meta: "/B/up:3".to_string(), state_version: 7 }));
        assert_eq!(c.id, 0);
    }
}

#[test]
fn gen_keeps_what_revise_did() {
    let task = task(meta("/order", MetaType::Business), false, None);
    let result = Converted::gen(&task, &raw_task(), vec![instance("")], &None, &IdRules(42)).unwrap();
    assert_eq!(result.converted[0].id, 42);
}

#[test]
fn stamp_writes_negative_version() {
    let mut task = task(meta("/m", MetaType::System), false, None);
    task.target.to.version = -3;
    let r = Converted::stamp(&task, vec![instance("")]);
    assert_eq!(r[0].data.meta, "/S/m:-3");
}

#[test]
fn upstream_id_needs_a_single_instance() {
    let mut task = task(meta("/order", MetaType::Business), true, None);
    task.from.id = 5;
    let mut a = instance("");
    a.id = 1;
    let mut b = instance("");
    b.id = 2;
    let result = Converted::gen(&task, &raw_task(), vec![a, b], &None, &PlainRules).unwrap();
    assert_eq!(result.converted[0].id, 1);
    assert_eq!(result.converted[1].id, 2);
}

#[test]
fn check_id_takes_last_state_id() {
    let mut to = meta("/s", MetaType::Business);
    to.states = Some(vec![]);
    let target = Mission { to, executor: executor(Protocol::Http), states_demand: None, use_upstream_id: true };
    let from = FromInstance { id: 5, meta: String::new(), state_version: 0 };
    let mut last = instance("");
    last.id = 77;
    let mut ins = vec![instance("")];
    Converted::check_id(&mut ins, &Some(last), &from, &target);
    assert_eq!(ins[0].id, 77);
}

#[test]
fn check_id_auto_protocol_takes_upstream_id() {
    let mut to = meta("/s", MetaType::Business);
    to.states = Some(vec![]);
    let mut target = Mission { to, executor: executor(Protocol::Auto), states_demand: None, use_upstream_id: false };
    let from = FromInstance { id: 5, meta: String::new(), state_version: 0 };
    let mut ins = vec![instance("")];
    Converted::check_id(&mut ins, &None, &from, &target);
    assert_eq!(ins[0].id, 5);

    target.executor = executor(Protocol::Http);
    let mut ins = vec![instance("")];
    Converted::check_id(&mut ins, &None, &from, &target);
    assert_eq!(ins[0].id, 0);
}

#[test]
fn state_meta_takes_one_instance() {
    let mut to = meta("/s", MetaType::Business);
    to.states = Some(vec![]);
    let upstream = task(to.clone(), true, None);
    let mut ins = vec![instance(""), instance("")];
    let r = Converted::verify_state(&upstream, &mut ins, &None, &PlainRules);
    assert_eq!(r, Err(NatureError::ConverterLogicalError("[use_upstream_id] must return less 2 instances!".to_string())));

    let plain = task(to, false, None);
    let r = Converted::verify_state(&plain, &mut ins, &None, &PlainRules);
    assert_eq!(r, Err(NatureError::ConverterLogicalError("[status meta] must return less 2 instances!".to_string())));
}

#[test]
fn state_version_follows_last_state() {
    let mut to = meta("/s", MetaType::Business);
    to.states = Some(vec!["a".to_string(), "b".to_string()]);
    let task = task(to, false, None);
    let mut last = instance("");
    last.id = 31;
    last.data.state_version = 4;
    last.data.states = states(&["b"]);
    let mut one = instance("");
    one.data.states = states(&["a"]);
    let result = Converted::gen(&task, &raw_task(), vec![one], &Some(last), &PlainRules).unwrap();
    let c = &result.converted[0];
    assert_eq!(c.id, 31);
    assert_eq!(c.data.state_version, 5);
    assert!(c.data.states.contains(&"a".to_string()));
    assert!(!c.data.states.contains(&"b".to_string()));

    let mut fresh = instance("");
    fresh.data.state_version = 9;
    let result = Converted::gen(&task, &raw_task(), vec![fresh], &None, &PlainRules).unwrap();
    assert_eq!(result.converted[0].data.state_version, 1);
}

#[test]
fn demand_without_target_keeps_last_states() {
    let mut to = meta("/s", MetaType::Business);
    to.states = Some(vec![]);
    let task = task(
        to,
        false,
        Some(StateDemand { last_states_include: StringSet::new(), last_states_exclude: StringSet::new(), target_states: None }),
    );
    let mut last = instance("");
    last.data.states = states(&["old"]);
    let mut one = instance("");
    one.data.states = states(&["mine"]);
    let mut ins = vec![one];
    let r = Converted::verify_state(&task, &mut ins, &Some(last), &PlainRules);
    assert_eq!(r, Ok(()));
    assert!(ins[0].data.states.contains(&"old".to_string()));
    assert!(!ins[0].data.states.contains(&"mine".to_string()));
}

#[test]
fn undefined_state_is_refused() {
    let mut to = meta("/s", MetaType::Business);
    to.states = Some(vec!["a".to_string()]);
    let task = task(to, false, None);
    let mut one = instance("");
    one.data.states = states(&["zz"]);
    let r = Converted::gen(&task, &raw_task(), vec![one], &None, &PlainRules);
    assert_eq!(r.err().unwrap(), NatureError::VerifyError("zz is not defined".to_string()));
}

#[test]
fn mutex_states_are_refused() {
    let mut to = meta("/s", MetaType::Business);
    to.states = Some(vec![]);
    let task = task(to, false, None);
    let rules = MutexRules(vec!["on".to_string(), "off".to_string()]);
    let r = Converted::gen(&task, &raw_task(), vec![instance("")], &None, &rules);
    assert_eq!(
        r.err().unwrap(),
        NatureError::ConverterLogicalError("returned mutex state [\"on\", \"off\"]".to_string())
    );
}

#[test]
fn settle_state_check_cases() {
    assert_eq!(Converted::settle_state_check(Ok((vec!["a".to_string()], vec![]))), Ok(()));
    assert_eq!(
        Converted::settle_state_check(Err(NatureError::DaoDuplicated)),
        Err(NatureError::DaoDuplicated)
    );
    assert_eq!(
        Converted::settle_state_check(Ok((vec![], vec!["x".to_string()]))),
        Err(NatureError::ConverterLogicalError("returned mutex state [\"x\"]".to_string()))
    );
}

#[test]
fn non_state_meta_passes_unchanged() {
    let task = task(meta("/plain", MetaType::Business), true, None);
    let mut a = instance("");
    a.id = 3;
    let mut ins = vec![a, instance("")];
    let r = Converted::verify_state(&task, &mut ins, &None, &PlainRules);
    assert_eq!(r, Ok(()));
    assert_eq!(ins[0].id, 3);
    assert_eq!(ins.len(), 2);
}

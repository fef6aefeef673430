//! Routing: which of the relations that leave an instance's meta apply to the
//! instance, and the missions that they give.
use vstd::prelude::*;
use crate::collections::{StringMap, StringSet};
use crate::error::NatureError;
use crate::executor::Executor;
use crate::instance::Instance;
use crate::meta::Meta;

verus! {

/// The conditions under which a relation applies to an instance, and the
/// states that the target's last instance must have (or lack).
#[derive(Debug, Clone)]
pub struct Selector {
    pub source_status_include: StringSet,
    pub source_status_exclude: StringSet,
    pub target_status_include: StringSet,
    pub target_status_exclude: StringSet,
    pub context_include: StringSet,
    pub context_exclude: StringSet,
}

/// The share of the work that a relation takes within its group.
#[derive(Debug, Clone)]
pub struct Weight {
    pub label: String,
    pub proportion: u32,
}

/// A relation from one meta to another.
#[derive(Debug, Clone)]
pub struct OneStepFlow {
    pub from: Meta,
    pub to: Meta,
    pub selector: Option<Selector>,
    pub executor: Executor,
    pub weight: Option<Weight>,
}

/// The states that the target's last instance must have, and must not have.
#[derive(Debug, Clone)]
pub struct LastStatusDemand {
    pub target_status_include: StringSet,
    pub target_status_exclude: StringSet,
}

/// A unit of work that a relation gives for an instance.
#[derive(Debug, Clone)]
pub struct Mission {
    pub to: Meta,
    pub executor: Executor,
    pub last_status_demand: Option<LastStatusDemand>,
    pub weight: Option<Weight>,
}

/// The relations that leave a meta, as a cache of the stored relations holds
/// them.
pub trait OneStepFlowCacheTrait {
    /// Whether `r` is an answer that the cache may give for the meta `meta`.
    /// An implementation may narrow this; by default any answer is allowed,
    /// so what the engine states of a lookup holds of every answer given for
    /// the meta it asked about.
    closed spec fn answers(&self, meta: Seq<char>, r: Result<Option<Vec<OneStepFlow>>, NatureError>) -> bool {
        true
    }

    /// The relations that leave the meta `meta`, if any are stored.
    fn get(&self, meta: &String) -> (r: Result<Option<Vec<OneStepFlow>>, NatureError>)
        ensures
            self.answers(meta@, r),
    ;
}

/// Finds the missions that an instance gives.
pub trait RouteServiceTrait {
    /// The missions for `instance`, or `None` when no relation applies.
    fn get_route(&self, instance: &Instance) -> Result<Option<Vec<Mission>>, NatureError>;
}

/// Routing over a cache of relations.
pub struct RouteServiceImpl<C> {
    pub one_step_flow_cache: C,
}

/// The context holds every key that the selector includes, and none that it
/// excludes.
pub open spec fn context_matches(context: Map<Seq<char>, Seq<char>>, selector: Selector) -> bool {
    &&& forall|k: Seq<char>| #[trigger]
        selector.context_exclude@.contains(k) ==> !context.contains_key(k)
    &&& forall|k: Seq<char>| #[trigger]
        selector.context_include@.contains(k) ==> context.contains_key(k)
}

/// The states hold every state that the selector includes, and none that it
/// excludes.
pub open spec fn status_matches(states: Set<Seq<char>>, selector: Selector) -> bool {
    &&& forall|s: Seq<char>| #[trigger]
        selector.source_status_exclude@.contains(s) ==> !states.contains(s)
    &&& forall|s: Seq<char>| #[trigger]
        selector.source_status_include@.contains(s) ==> states.contains(s)
}

/// A relation applies to an instance when it has no selector, or when the
/// instance's context and states both match its selector.
pub open spec fn applies(instance: Instance, flow: OneStepFlow) -> bool {
    match flow.selector {
        None => true,
        Some(selector) => context_matches(instance.data.context@, selector) && status_matches(
            instance.data.states@,
            selector,
        ),
    }
}

/// The mission that a relation gives: its target, executor and weight, and
/// the target-state demands of its selector.
pub open spec fn mission_of(flow: OneStepFlow) -> Mission {
    Mission {
        to: flow.to,
        executor: flow.executor,
        last_status_demand: match flow.selector {
            None => None,
            Some(demand) => Some(
                LastStatusDemand {
                    target_status_include: demand.target_status_include,
                    target_status_exclude: demand.target_status_exclude,
                },
            ),
        },
        weight: flow.weight,
    }
}

/// Whether a relation applies to the instance, as a predicate on relations.
pub open spec fn applies_to(instance: Instance) -> spec_fn(OneStepFlow) -> bool {
    |f: OneStepFlow| applies(instance, f)
}

/// The missions of a sequence of relations, one for each.
pub open spec fn missions_of(flows: Seq<OneStepFlow>) -> Seq<Mission> {
    flows.map_values(|f: OneStepFlow| mission_of(f))
}

/// The missions of the relations that apply to the instance, in the order of
/// the relations.
pub open spec fn routed_missions(instance: Instance, flows: Seq<OneStepFlow>) -> Seq<Mission> {
    missions_of(flows.filter(applies_to(instance)))
}

/// The outcome of routing: the missions, or nothing when there are none.
pub open spec fn route_outcome(instance: Instance, flows: Seq<OneStepFlow>) -> Option<
    Seq<Mission>,
> {
    let missions = routed_missions(instance, flows);
    if missions.len() > 0 {
        Some(missions)
    } else {
        None
    }
}

/// An optional vector of missions, as an optional sequence.
pub open spec fn missions_seq(r: Option<Vec<Mission>>) -> Option<Seq<Mission>> {
    match r {
        Some(v) => Some(v@),
        None => None,
    }
}

/// The outcome of routing on what the cache returned: the routed missions of
/// the relations found, and nothing when the cache found none or failed.
pub open spec fn route_from_cache(
    instance: Instance,
    cached: Result<Option<Vec<OneStepFlow>>, NatureError>,
) -> Option<Seq<Mission>> {
    match cached {
        Ok(Some(flows)) => route_outcome(instance, flows@),
        _ => None,
    }
}

impl<C: OneStepFlowCacheTrait> RouteServiceTrait for RouteServiceImpl<C> {
    /// Asks the cache for the relations that leave the instance's meta, and
    /// routes the instance over them; a failed lookup routes nowhere.
    fn get_route(&self, instance: &Instance) -> (r: Result<Option<Vec<Mission>>, NatureError>)
        ensures
            r is Ok,
            exists|cached: Result<Option<Vec<OneStepFlow>>, NatureError>|
                #[trigger] self.one_step_flow_cache.answers(instance.data.meta@, cached)
                    && missions_seq(r->Ok_0) == route_from_cache(*instance, cached),
    {
        let cached = self.one_step_flow_cache.get(&instance.data.meta);
        let ghost c = cached;
        let r = Self::route_cached(instance, cached);
        assert(self.one_step_flow_cache.answers(instance.data.meta@, c) && missions_seq(r->Ok_0)
            == route_from_cache(*instance, c));
        r
    }
}

impl<C> RouteServiceImpl<C> {
    /// Routes an instance over what the relation cache returned for its meta:
    /// the missions of the relations that apply, `None` when none applies,
    /// when there are no relations, or when the lookup failed.
    pub fn route_cached(
        instance: &Instance,
        cached: Result<Option<Vec<OneStepFlow>>, NatureError>,
    ) -> (r: Result<Option<Vec<Mission>>, NatureError>)
        ensures
            r is Ok,
            missions_seq(r->Ok_0) == route_from_cache(*instance, cached),
    {
        if let Ok(Some(relations)) = cached {
            if relations.len() == 0 {
                proof {
                    assert(relations@.filter(applies_to(*instance)).len() == 0) by {
                        relations@.lemma_filter_len(applies_to(*instance));
                    }
                }
                return Ok(None);
            }
            let rtn = Self::filter_relations(instance, relations);
            Ok(rtn)
        } else {
            Ok(None)
        }
    }

    /// The missions of the relations that apply to `instance`, in the order
    /// of the relations; `None` when no relation applies.
    pub fn filter_relations(instance: &Instance, maps: Vec<OneStepFlow>) -> (r: Option<Vec<Mission>>)
        ensures
            missions_seq(r) == route_outcome(*instance, maps@),
    {
        let ghost flows = maps@;
        let ghost pred = applies_to(*instance);
        let mut rtn: Vec<Mission> = Vec::new();
        for m in it: maps.into_iter()
            invariant
                it.seq() == flows,
                pred == applies_to(*instance),
                rtn@ == missions_of(flows.take(it.index() as int).filter(pred)),
        {
            let ghost idx = it.index() as int;
            let ghost flow = m;
            proof {
                assert(flows.take(idx + 1) =~= flows.take(idx).push(m));
                flows.take(idx).lemma_filter_push(m, pred);
            }
            let selected = match &m.selector {
                None => true,
                Some(selector) => Self::context_check(&instance.data.context, selector)
                    && Self::status_check(&instance.data.states, selector),
            };
            if selected {
                let t = Mission {
                    to: m.to,
                    executor: m.executor,
                    last_status_demand: {
                        match m.selector {
                            None => None,
                            Some(demand) => {
                                let ld = LastStatusDemand {
                                    target_status_include: demand.target_status_include,
                                    target_status_exclude: demand.target_status_exclude,
                                };
                                Some(ld)
                            },
                        }
                    },
                    weight: m.weight,
                };
                rtn.push(t);
            }
            proof {
                let prev = flows.take(idx).filter(pred);
                if applies(*instance, flow) {
                    assert(missions_of(prev.push(flow)) =~= missions_of(prev).push(
                        mission_of(flow),
                    ));
                }
                assert(rtn@ =~= missions_of(flows.take(idx + 1).filter(pred)));
            }
        }
        proof {
            assert(flows.take(flows.len() as int) =~= flows);
        }
        if rtn.len() > 0 {
            Some(rtn)
        } else {
            None
        }
    }

    /// Whether `contexts` holds every key that the selector includes and none
    /// that it excludes.
    pub fn context_check(contexts: &StringMap, selector: &Selector) -> (r: bool)
        ensures
            r == context_matches(contexts@, *selector),
    {
        let n = selector.context_exclude.len();
        let mut i: usize = 0;
        while i < n
            invariant
                n == selector.context_exclude.elements().len(),
                i <= n,
                forall|j: int|
                    0 <= j < i ==> !contexts@.contains_key(
                        #[trigger] selector.context_exclude.elements()[j],
                    ),
            decreases n - i,
        {
            let exclude = selector.context_exclude.get(i);
            if contexts.contains_key(exclude) {
                proof {
                    selector.context_exclude.lemma_view_contains(i as int);
                }
                return false;
            }
            i = i + 1;
        }
        let m = selector.context_include.len();
        let mut i: usize = 0;
        while i < m
            invariant
                m == selector.context_include.elements().len(),
                i <= m,
                forall|j: int|
                    0 <= j < i ==> contexts@.contains_key(
                        #[trigger] selector.context_include.elements()[j],
                    ),
            decreases m - i,
        {
            let wanted = selector.context_include.get(i);
            if !contexts.contains_key(wanted) {
                proof {
                    selector.context_include.lemma_view_contains(i as int);
                }
                return false;
            }
            i = i + 1;
        }
        proof {
            selector.context_exclude.lemma_view_elements();
            selector.context_include.lemma_view_elements();
        }
        true
    }

    /// Whether `status` holds every state that the selector includes and
    /// none that it excludes.
    pub fn status_check(status: &StringSet, selector: &Selector) -> (r: bool)
        ensures
            r == status_matches(status@, *selector),
    {
        let n = selector.source_status_exclude.len();
        let mut i: usize = 0;
        while i < n
            invariant
                n == selector.source_status_exclude.elements().len(),
                i <= n,
                forall|j: int|
                    0 <= j < i ==> !status@.contains(
                        #[trigger] selector.source_status_exclude.elements()[j],
                    ),
            decreases n - i,
        {
            let exclude = selector.source_status_exclude.get(i);
            if status.contains(exclude) {
                proof {
                    selector.source_status_exclude.lemma_view_contains(i as int);
                }
                return false;
            }
            i = i + 1;
        }
        let m = selector.source_status_include.len();
        let mut i: usize = 0;
        while i < m
            invariant
                m == selector.source_status_include.elements().len(),
                i <= m,
                forall|j: int|
                    0 <= j < i ==> status@.contains(
                        #[trigger] selector.source_status_include.elements()[j],
                    ),
            decreases m - i,
        {
            let wanted = selector.source_status_include.get(i);
            if !status.contains(wanted) {
                proof {
                    selector.source_status_include.lemma_view_contains(i as int);
                }
                return false;
            }
            i = i + 1;
        }
        proof {
            selector.source_status_exclude.lemma_view_elements();
            selector.source_status_include.lemma_view_elements();
        }
        true
    }
}

/// A relation without a selector gives its mission to every instance: the
/// routing outcome is not empty, and holds that relation's mission.
pub proof fn lemma_unconditional_relation_routes(
    instance: Instance,
    flows: Seq<OneStepFlow>,
    i: int,
)
    requires
        0 <= i < flows.len(),
        flows[i].selector is None,
    ensures
        route_outcome(instance, flows) is Some,
        route_outcome(instance, flows)->0.contains(mission_of(flows[i])),
{
    let kept = flows.filter(applies_to(instance));
    flows.lemma_filter_contains(applies_to(instance), i);
    let j = choose|j: int| 0 <= j < kept.len() && kept[j] == flows[i];
    assert(missions_of(kept)[j] == mission_of(flows[i]));
}

/// A relation whose selector excludes a context key that the instance holds,
/// or a state that the instance is in, does not apply, and routing over a
/// list of relations that holds it gives what routing without it gives.
pub proof fn lemma_excluded_relation_skipped(
    instance: Instance,
    flow: OneStepFlow,
    key: Seq<char>,
    before: Seq<OneStepFlow>,
    after: Seq<OneStepFlow>,
)
    requires
        flow.selector is Some,
        (flow.selector->0.context_exclude@.contains(key) && instance.data.context@.contains_key(key))
            || (flow.selector->0.source_status_exclude@.contains(key)
            && instance.data.states@.contains(key)),
    ensures
        !applies(instance, flow),
        routed_missions(instance, before + seq![flow] + after) == routed_missions(
            instance,
            before + after,
        ),
{
    assert(routed_missions(instance, seq![flow]) =~= Seq::<Mission>::empty()) by {
        reveal_with_fuel(Seq::filter, 2);
        assert(seq![flow].drop_last() =~= Seq::<OneStepFlow>::empty());
    }
    lemma_routing_keeps_order(instance, before, seq![flow]);
    lemma_routing_keeps_order(instance, before + seq![flow], after);
    lemma_routing_keeps_order(instance, before, after);
    assert(routed_missions(instance, before) + Seq::<Mission>::empty() =~= routed_missions(
        instance,
        before,
    ));
}

/// Routing keeps the order of the relations: the missions of the relations
/// before and after a split point come in that order.
pub proof fn lemma_routing_keeps_order(instance: Instance, first: Seq<OneStepFlow>, second: Seq<OneStepFlow>)
    ensures
        routed_missions(instance, first + second) == routed_missions(instance, first)
            + routed_missions(instance, second),
    decreases second.len(),
{
    if second.len() == 0 {
        assert(first + second =~= first);
        assert(second.filter(applies_to(instance)) =~= second) by {
            reveal_with_fuel(Seq::filter, 1);
        }
        assert(routed_missions(instance, second) =~= Seq::<Mission>::empty());
        assert(routed_missions(instance, first) + routed_missions(instance, second)
            =~= routed_missions(instance, first));
    } else {
        let rest = second.drop_last();
        let last = second.last();
        lemma_routing_keeps_order(instance, first, rest);
        assert(first + second =~= (first + rest).push(last));
        assert(second =~= rest.push(last));
        (first + rest).lemma_filter_push(last, applies_to(instance));
        rest.lemma_filter_push(last, applies_to(instance));
        let p = applies_to(instance);
        if p(last) {
            assert(missions_of((first + rest).filter(p).push(last)) =~= missions_of(
                (first + rest).filter(p),
            ).push(mission_of(last)));
            assert(missions_of(rest.filter(p).push(last)) =~= missions_of(rest.filter(p)).push(
                mission_of(last),
            ));
        }
        assert(routed_missions(instance, first + second) =~= routed_missions(instance, first)
            + routed_missions(instance, second));
    }
}

/// The state check passes exactly when every included state is among the
/// instance's states and no excluded state is; in particular a state that
/// the selector includes and the instance lacks makes it fail, whatever the
/// instance's other states are, none included.
pub proof fn lemma_status_check_is_inclusion(states: Set<Seq<char>>, selector: Selector, s: Seq<char>)
    ensures
        status_matches(states, selector) <==> (selector.source_status_include@.subset_of(states)
            && selector.source_status_exclude@.disjoint(states)),
        selector.source_status_include@.contains(s) && !states.contains(s) ==> !status_matches(
            states,
            selector,
        ),
        selector.source_status_exclude@.contains(s) && states.contains(s) ==> !status_matches(
            states,
            selector,
        ),
{
}

/// The context check passes exactly when every included key is a key of the
/// context and no excluded key is; a missing included key, or a present
/// excluded one, makes it fail.
pub proof fn lemma_context_check_is_inclusion(
    context: Map<Seq<char>, Seq<char>>,
    selector: Selector,
    k: Seq<char>,
)
    ensures
        context_matches(context, selector) <==> (selector.context_include@.subset_of(context.dom())
            && selector.context_exclude@.disjoint(context.dom())),
        selector.context_include@.contains(k) && !context.contains_key(k) ==> !context_matches(
            context,
            selector,
        ),
        selector.context_exclude@.contains(k) && context.contains_key(k) ==> !context_matches(
            context,
            selector,
        ),
{
}

/// The missions go to the targets of the relations that apply, in their
/// order, each with the executor and the weight of its relation, whether or
/// not the relation has a selector.
pub proof fn lemma_missions_carry_their_relations(instance: Instance, flows: Seq<OneStepFlow>)
    ensures
        routed_missions(instance, flows).len() == flows.filter(applies_to(instance)).len(),
        routed_missions(instance, flows).map_values(|m: Mission| m.weight) == flows.filter(
            applies_to(instance),
        ).map_values(|f: OneStepFlow| f.weight),
        routed_missions(instance, flows).map_values(|m: Mission| m.to) == flows.filter(
            applies_to(instance),
        ).map_values(|f: OneStepFlow| f.to),
        routed_missions(instance, flows).map_values(|m: Mission| m.executor) == flows.filter(
            applies_to(instance),
        ).map_values(|f: OneStepFlow| f.executor),
{
    let kept = flows.filter(applies_to(instance));
    assert(routed_missions(instance, flows).map_values(|m: Mission| m.weight) =~= kept.map_values(
        |f: OneStepFlow| f.weight,
    ));
    assert(routed_missions(instance, flows).map_values(|m: Mission| m.to) =~= kept.map_values(
        |f: OneStepFlow| f.to,
    ));
    assert(routed_missions(instance, flows).map_values(|m: Mission| m.executor) =~= kept.map_values(
        |f: OneStepFlow| f.executor,
    ));
}

/// A relation that applies, routed alone, gives one mission, to its target,
/// with its executor and its weight.
pub proof fn lemma_single_relation_mission(instance: Instance, flow: OneStepFlow)
    ensures
        applies(instance, flow) ==> {
            &&& route_outcome(instance, seq![flow]) is Some
            &&& routed_missions(instance, seq![flow]).len() == 1
            &&& routed_missions(instance, seq![flow])[0].to == flow.to
            &&& routed_missions(instance, seq![flow])[0].executor == flow.executor
            &&& routed_missions(instance, seq![flow])[0].weight == flow.weight
        },
        !applies(instance, flow) ==> route_outcome(instance, seq![flow]) is None,
{
    reveal_with_fuel(Seq::filter, 2);
    assert(seq![flow].drop_last() =~= Seq::<OneStepFlow>::empty());
}

/// A relation applies exactly when it has no selector, or when the
/// instance's context holds every included key and no excluded key, and its
/// states hold every included state and no excluded state.
pub proof fn lemma_applies_is_selection(instance: Instance, flow: OneStepFlow)
    ensures
        applies(instance, flow) <==> (flow.selector is None || {
            let sel = flow.selector->0;
            &&& sel.context_include@.subset_of(instance.data.context@.dom())
            &&& sel.context_exclude@.disjoint(instance.data.context@.dom())
            &&& sel.source_status_include@.subset_of(instance.data.states@)
            &&& sel.source_status_exclude@.disjoint(instance.data.states@)
        }),
{
    if flow.selector is Some {
        lemma_context_check_is_inclusion(instance.data.context@, flow.selector->0, Seq::empty());
        lemma_status_check_is_inclusion(instance.data.states@, flow.selector->0, Seq::empty());
    }
}

/// Each mission demands of the target's last state what the selector of its
/// relation demands (the target states to include and to exclude), and
/// demands nothing when its relation has no selector.
pub proof fn lemma_missions_carry_target_demands(instance: Instance, flows: Seq<OneStepFlow>, k: int)
    requires
        0 <= k < flows.filter(applies_to(instance)).len(),
    ensures
        ({
            let f = flows.filter(applies_to(instance))[k];
            let m = routed_missions(instance, flows)[k];
            &&& (m.last_status_demand is Some <==> f.selector is Some)
            &&& f.selector is Some ==> m.last_status_demand->0.target_status_include
                == f.selector->0.target_status_include
            &&& f.selector is Some ==> m.last_status_demand->0.target_status_exclude
                == f.selector->0.target_status_exclude
        }),
{
}

} // verus!

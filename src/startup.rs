//! Startup: resolve every subscription's schema before any channel exists,
//! then wire the channels one by one in declaration order.

use crate::config::{JsonSubscription, ProtobufSubscriptioin};
use crate::relay::RelayKind;
use crate::schema::{
    json_schema, option_string_view, resolve_json, resolve_structured, structured_schema,
    JsonSchemaTable, ResolveError, ResolvedSchema, SchemaView,
};
use prost_reflect::DescriptorPool;
use vstd::prelude::*;

verus! {

/// Everything needed to create one channel and start its relay task.
pub struct ChannelPlan {
    pub topic: String,
    pub kind: RelayKind,
    pub schema: ResolvedSchema,
    pub latched: bool,
}

/// The mathematical content of a [`ChannelPlan`].
pub struct PlanView {
    pub topic: Seq<char>,
    pub kind: RelayKind,
    pub schema: SchemaView,
    pub latched: bool,
}

impl View for ChannelPlan {
    type V = PlanView;

    open spec fn view(&self) -> PlanView {
        PlanView {
            topic: self.topic@,
            kind: self.kind,
            schema: self.schema@,
            latched: self.latched,
        }
    }
}

/// The plan for a structured subscription, if its type resolves.
pub open spec fn proto_plan(pool: DescriptorPool, s: ProtobufSubscriptioin) -> Option<PlanView> {
    match structured_schema(pool, s.proto_type@) {
        Some(v) => Some(
            PlanView { topic: s.topic@, kind: RelayKind::Structured, schema: v, latched: false },
        ),
        None => None,
    }
}

/// The plan for a JSON subscription, if its schema resolves.
pub open spec fn json_plan(table: Seq<(Seq<char>, Seq<char>)>, s: JsonSubscription) -> Option<
    PlanView,
> {
    match json_schema(table, s.message_type@, option_string_view(s.json_schema_name)) {
        Some(v) => Some(
            PlanView {
                topic: s.topic@,
                kind: RelayKind::JsonText,
                schema: v,
                latched: s.latched == Some(true),
            },
        ),
        None => None,
    }
}

/// The plan for the `k`-th subscription in declaration order: the structured
/// ones first, then the JSON ones.
pub open spec fn sub_plan(
    pool: DescriptorPool,
    table: Seq<(Seq<char>, Seq<char>)>,
    protos: Seq<ProtobufSubscriptioin>,
    jsons: Seq<JsonSubscription>,
    k: int,
) -> Option<PlanView> {
    if k < protos.len() {
        proto_plan(pool, protos[k])
    } else {
        json_plan(table, jsons[k - protos.len()])
    }
}

/// Every declared subscription resolves.
pub open spec fn all_resolve(
    pool: DescriptorPool,
    table: Seq<(Seq<char>, Seq<char>)>,
    protos: Seq<ProtobufSubscriptioin>,
    jsons: Seq<JsonSubscription>,
) -> bool {
    forall|k: int|
        0 <= k < protos.len() + jsons.len() ==> (#[trigger] sub_plan(pool, table, protos, jsons, k)) is Some
}

/// `k` is the first subscription, in declaration order, that does not resolve.
pub open spec fn first_failure(
    pool: DescriptorPool,
    table: Seq<(Seq<char>, Seq<char>)>,
    protos: Seq<ProtobufSubscriptioin>,
    jsons: Seq<JsonSubscription>,
    k: int,
) -> bool {
    &&& 0 <= k < protos.len() + jsons.len()
    &&& sub_plan(pool, table, protos, jsons, k) is None
    &&& forall|i: int| 0 <= i < k ==> (#[trigger] sub_plan(pool, table, protos, jsons, i)) is Some
}

/// Why the startup sequence stopped before any channel was created.
#[derive(Clone, Copy, Debug, PartialEq, Eq, Structural)]
pub struct StartupError {
    /// Position of the failing subscription in declaration order.
    pub position: usize,
    pub reason: ResolveError,
}

/// Resolves every subscription, structured ones first, each list in its
/// declared order. Either all resolve and there is one plan per subscription,
/// in that order, or the first that fails is reported and there is no plan.
pub fn plan_startup(
    pool: &DescriptorPool,
    table: &JsonSchemaTable,
    protos: &Vec<ProtobufSubscriptioin>,
    jsons: &Vec<JsonSubscription>,
) -> (r: Result<Vec<ChannelPlan>, StartupError>)
    requires
        protos@.len() + jsons@.len() <= usize::MAX,
    ensures
        r is Ok <==> all_resolve(*pool, table@, protos@, jsons@),
        r matches Ok(plans) ==> {
            &&& plans@.len() == protos@.len() + jsons@.len()
            &&& forall|k: int|
                0 <= k < plans@.len() ==> Some(#[trigger] plans@[k]@) == sub_plan(
                    *pool,
                    table@,
                    protos@,
                    jsons@,
                    k,
                )
        },
        r matches Err(e) ==> {
            &&& first_failure(*pool, table@, protos@, jsons@, e.position as int)
            &&& e.reason == if e.position < protos@.len() {
                ResolveError::DescriptorNotFound
            } else {
                ResolveError::JsonSchemaNotFound
            }
        },
{
    let mut plans: Vec<ChannelPlan> = Vec::new();
    let mut i: usize = 0;
    while i < protos.len()
        invariant
            i <= protos@.len(),
            plans@.len() == i,
            forall|k: int|
                0 <= k < i ==> Some(#[trigger] plans@[k]@) == sub_plan(
                    *pool,
                    table@,
                    protos@,
                    jsons@,
                    k,
                ),
        decreases protos@.len() - i,
    {
        let s = &protos[i];
        match resolve_structured(pool, s.proto_type.as_str()) {
            Ok(schema) => {
                plans.push(
                    ChannelPlan {
                        topic: s.topic.clone(),
                        kind: RelayKind::Structured,
                        schema,
                        latched: false,
                    },
                );
            },
            Err(reason) => {
                assert(sub_plan(*pool, table@, protos@, jsons@, i as int) is None);
                assert forall|k: int| 0 <= k < i implies (#[trigger] sub_plan(
                    *pool,
                    table@,
                    protos@,
                    jsons@,
                    k,
                )) is Some by {
                    assert(Some(plans@[k]@) == sub_plan(*pool, table@, protos@, jsons@, k));
                }
                return Err(StartupError { position: i, reason });
            },
        }
        i = i + 1;
    }
    let mut j: usize = 0;
    while j < jsons.len()
        invariant
            i == protos@.len(),
            j <= jsons@.len(),
            protos@.len() + jsons@.len() <= usize::MAX,
            plans@.len() == i + j,
            forall|k: int|
                0 <= k < i + j ==> Some(#[trigger] plans@[k]@) == sub_plan(
                    *pool,
                    table@,
                    protos@,
                    jsons@,
                    k,
                ),
        decreases jsons@.len() - j,
    {
        let s = &jsons[j];
        let name: Option<&String> = match &s.json_schema_name {
            Some(n) => Some(n),
            None => None,
        };
        match resolve_json(table, s.message_type.as_str(), name) {
            Ok(schema) => {
                let latched = s.is_latched();
                plans.push(
                    ChannelPlan {
                        topic: s.topic.clone(),
                        kind: RelayKind::JsonText,
                        schema,
                        latched,
                    },
                );
            },
            Err(reason) => {
                assert(sub_plan(*pool, table@, protos@, jsons@, (i + j) as int) is None);
                assert forall|k: int| 0 <= k < i + j implies (#[trigger] sub_plan(
                    *pool,
                    table@,
                    protos@,
                    jsons@,
                    k,
                )) is Some by {
                    assert(Some(plans@[k]@) == sub_plan(*pool, table@, protos@, jsons@, k));
                }
                return Err(StartupError { position: i + j, reason });
            },
        }
        j = j + 1;
    }
    assert forall|k: int| 0 <= k < protos@.len() + jsons@.len() implies (#[trigger] sub_plan(
        *pool,
        table@,
        protos@,
        jsons@,
        k,
    )) is Some by {
        assert(Some(plans@[k]@) == sub_plan(*pool, table@, protos@, jsons@, k));
    }
    Ok(plans)
}

/// Every subscription whose schema does not resolve makes the whole plan
/// fail: some subscription at or before it is the first failure, so no plan
/// exists and no channel is created.
pub proof fn lemma_any_unresolved_aborts(
    pool: DescriptorPool,
    table: Seq<(Seq<char>, Seq<char>)>,
    protos: Seq<ProtobufSubscriptioin>,
    jsons: Seq<JsonSubscription>,
    k: int,
)
    requires
        0 <= k < protos.len() + jsons.len(),
        sub_plan(pool, table, protos, jsons, k) is None,
    ensures
        !all_resolve(pool, table, protos, jsons),
        exists|j: int| 0 <= j <= k && #[trigger] first_failure(pool, table, protos, jsons, j),
    decreases k,
{
    if forall|i: int| 0 <= i < k ==> (#[trigger] sub_plan(pool, table, protos, jsons, i)) is Some {
        assert(first_failure(pool, table, protos, jsons, k));
    } else {
        let i = choose|i: int| 0 <= i < k && !((#[trigger] sub_plan(pool, table, protos, jsons, i)) is Some);
        lemma_any_unresolved_aborts(pool, table, protos, jsons, i);
    }
}

/// What the startup sequence does next.
#[derive(Clone, Copy, Debug, PartialEq, Eq, Structural)]
pub enum StartupStep {
    /// Create the channel of the plan at this position and start its task.
    Wire(usize),
    /// Every planned channel exists and its task runs.
    Done,
    /// A channel could not be created: abort startup.
    Aborted,
}

/// Drives channel creation over a list of plans, in order, stopping at the
/// first failure.
#[derive(Clone, Copy, Debug, PartialEq, Eq, Structural)]
pub struct StartupDriver {
    /// Number of plans.
    pub total: usize,
    /// Number of channels created so far.
    pub wired: usize,
    /// Whether a channel creation failed.
    pub aborted: bool,
}

pub open spec fn step_spec(d: StartupDriver) -> StartupStep {
    if d.aborted {
        StartupStep::Aborted
    } else if d.wired < d.total {
        StartupStep::Wire(d.wired)
    } else {
        StartupStep::Done
    }
}

pub open spec fn record_spec(d: StartupDriver, created: bool) -> StartupDriver {
    if created {
        StartupDriver { wired: (d.wired + 1) as usize, ..d }
    } else {
        StartupDriver { aborted: true, ..d }
    }
}

pub open spec fn fresh_driver(total: usize) -> StartupDriver {
    StartupDriver { total, wired: 0, aborted: false }
}

/// The driver's state after the given creation outcomes, and the positions
/// it handed out for wiring, in order.
pub open spec fn drive(d: StartupDriver, outcomes: Seq<bool>) -> (StartupDriver, Seq<usize>)
    decreases outcomes.len(),
{
    if outcomes.len() == 0 {
        (d, seq![])
    } else {
        let (d1, wired) = drive(d, outcomes.drop_last());
        match step_spec(d1) {
            StartupStep::Wire(i) => (record_spec(d1, outcomes.last()), wired.push(i)),
            _ => (d1, wired),
        }
    }
}

impl StartupDriver {
    pub open spec fn wf(self) -> bool {
        self.wired <= self.total
    }

    /// A driver for `total` plans, none wired yet.
    pub fn new(total: usize) -> (d: StartupDriver)
        ensures
            d == fresh_driver(total),
            d.wf(),
    {
        StartupDriver { total, wired: 0, aborted: false }
    }

    /// The next thing to do.
    pub fn next_step(&self) -> (r: StartupStep)
        ensures
            r == step_spec(*self),
    {
        if self.aborted {
            StartupStep::Aborted
        } else if self.wired < self.total {
            StartupStep::Wire(self.wired)
        } else {
            StartupStep::Done
        }
    }

    /// Records whether the channel of the plan handed out last was created.
    pub fn record(&mut self, created: bool)
        requires
            old(self).wf(),
            step_spec(*old(self)) is Wire,
        ensures
            *final(self) == record_spec(*old(self), created),
            final(self).wf(),
    {
        if created {
            self.wired = self.wired + 1;
        } else {
            self.aborted = true;
        }
    }
}

proof fn lemma_drive_all_created(total: usize, outcomes: Seq<bool>)
    requires
        outcomes.len() <= total,
        forall|i: int| 0 <= i < outcomes.len() ==> #[trigger] outcomes[i],
    ensures
        drive(fresh_driver(total), outcomes).0 == (StartupDriver {
            total,
            wired: outcomes.len() as usize,
            aborted: false,
        }),
        drive(fresh_driver(total), outcomes).1.len() == outcomes.len(),
        forall|i: int|
            0 <= i < outcomes.len() ==> #[trigger] drive(fresh_driver(total), outcomes).1[i]
                == i,
    decreases outcomes.len(),
{
    if outcomes.len() > 0 {
        let prefix = outcomes.drop_last();
        assert forall|i: int| 0 <= i < prefix.len() implies #[trigger] prefix[i] by {
            assert(prefix[i] == outcomes[i]);
        }
        lemma_drive_all_created(total, prefix);
        assert(outcomes.last() == outcomes[outcomes.len() - 1]);
    }
}

/// When every channel creation succeeds, startup wires each plan exactly
/// once, in order, and then reports that it is done.
pub proof fn lemma_startup_wires_each_plan_once(total: usize, outcomes: Seq<bool>)
    requires
        outcomes.len() == total,
        forall|i: int| 0 <= i < outcomes.len() ==> #[trigger] outcomes[i],
    ensures
        step_spec(drive(fresh_driver(total), outcomes).0) == StartupStep::Done,
        drive(fresh_driver(total), outcomes).1.len() == total,
        forall|i: int| 0 <= i < total ==> #[trigger] drive(fresh_driver(total), outcomes).1[i] == i,
{
    lemma_drive_all_created(total, outcomes);
}

/// When the channel at position `k` cannot be created, startup aborts: the
/// channels before it stay created, nothing after it is attempted.
pub proof fn lemma_creation_failure_stops_startup(total: usize, outcomes: Seq<bool>, k: int)
    requires
        0 <= k < total,
        k < outcomes.len(),
        !outcomes[k],
        forall|i: int| 0 <= i < k ==> #[trigger] outcomes[i],
    ensures
        step_spec(drive(fresh_driver(total), outcomes).0) == StartupStep::Aborted,
        drive(fresh_driver(total), outcomes).0.wired == k,
        drive(fresh_driver(total), outcomes).1 =~= Seq::new((k + 1) as nat, |i: int| i as usize),
    decreases outcomes.len(),
{
    if outcomes.len() == k + 1 {
        let prefix = outcomes.drop_last();
        assert forall|i: int| 0 <= i < prefix.len() implies #[trigger] prefix[i] by {
            assert(prefix[i] == outcomes[i]);
        }
        lemma_drive_all_created(total, prefix);
        assert(outcomes.last() == outcomes[k]);
    } else {
        let prefix = outcomes.drop_last();
        assert(prefix[k] == outcomes[k]);
        assert forall|i: int| 0 <= i < k implies #[trigger] prefix[i] by {
            assert(prefix[i] == outcomes[i]);
        }
        lemma_creation_failure_stops_startup(total, prefix, k);
    }
}

} // verus!

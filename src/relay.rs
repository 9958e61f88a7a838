//! The per-topic relay: how one inbound bus message becomes one outbound
//! channel message, and the task state that survives between messages.

use vstd::prelude::*;

verus! {

/// The encoding that the bus reports for a message's payload.
#[derive(Clone, Copy, Debug, PartialEq, Eq, Structural)]
pub enum EncodingTag {
    TextPlain,
    TextJson,
    AppOctetStream,
    /// Any encoding the relay does not recognise.
    Other,
}

/// The kind of subscription a relay task serves.
#[derive(Clone, Copy, Debug, PartialEq, Eq, Structural)]
pub enum RelayKind {
    /// Structured binary records, forwarded as they arrive.
    Structured,
    /// JSON text, forwarded as its bytes.
    JsonText,
}

/// What a JSON relay does with a message whose encoding it does not
/// recognise.
#[derive(Clone, Copy, Debug, PartialEq, Eq, Structural)]
pub enum UnknownEncodingPolicy {
    /// Stop the whole process (fail fast on a misconfigured producer).
    HaltProcess,
    /// Drop the one message, like any other per-message failure.
    SkipMessage,
}

/// Why a message was dropped without being forwarded.
#[derive(Clone, Copy, Debug, PartialEq, Eq, Structural)]
pub enum DropReason {
    /// The payload could not be read as the bus value the kind expects.
    ConversionFailed,
    /// The encoding tag is not one the relay knows.
    UnknownEncoding,
}

/// The outcome of converting one payload for its channel.
pub enum Transcoded {
    Payload(Vec<u8>),
    Dropped(DropReason),
}

/// The mathematical content of a [`Transcoded`].
pub enum TranscodedView {
    Payload(Seq<u8>),
    Dropped(DropReason),
}

impl View for Transcoded {
    type V = TranscodedView;

    open spec fn view(&self) -> TranscodedView {
        match self {
            Transcoded::Payload(p) => TranscodedView::Payload(p@),
            Transcoded::Dropped(r) => TranscodedView::Dropped(*r),
        }
    }
}

/// Relies on `std::str::from_utf8`, which succeeds exactly on valid UTF-8.
#[verifier::external_body]
fn is_utf8(b: &[u8]) -> (r: bool)
    ensures
        r == vstd::utf8::valid_utf8(b@),
{
    std::str::from_utf8(b).is_ok()
}

/// How a payload with a given tag is converted for a subscription kind:
/// binary values must be tagged as octet streams; text must be valid UTF-8 and
/// is forwarded as its bytes.
pub open spec fn transcode_spec(kind: RelayKind, tag: EncodingTag, payload: Seq<u8>) -> TranscodedView {
    match kind {
        RelayKind::Structured => match tag {
            EncodingTag::AppOctetStream => TranscodedView::Payload(payload),
            _ => TranscodedView::Dropped(DropReason::ConversionFailed),
        },
        RelayKind::JsonText => match tag {
            EncodingTag::TextPlain | EncodingTag::TextJson => if vstd::utf8::valid_utf8(payload) {
                TranscodedView::Payload(payload)
            } else {
                TranscodedView::Dropped(DropReason::ConversionFailed)
            },
            EncodingTag::AppOctetStream => TranscodedView::Payload(payload),
            EncodingTag::Other => TranscodedView::Dropped(DropReason::UnknownEncoding),
        },
    }
}

/// Converts one payload for the channel of a subscription of `kind`.
pub fn transcode(kind: RelayKind, tag: EncodingTag, payload: Vec<u8>) -> (r: Transcoded)
    ensures
        r@ == transcode_spec(kind, tag, payload@),
{
    match kind {
        RelayKind::Structured => match tag {
            EncodingTag::AppOctetStream => Transcoded::Payload(payload),
            _ => Transcoded::Dropped(DropReason::ConversionFailed),
        },
        RelayKind::JsonText => match tag {
            EncodingTag::TextPlain | EncodingTag::TextJson => {
                if is_utf8(payload.as_slice()) {
                    Transcoded::Payload(payload)
                } else {
                    Transcoded::Dropped(DropReason::ConversionFailed)
                }
            },
            EncodingTag::AppOctetStream => Transcoded::Payload(payload),
            EncodingTag::Other => Transcoded::Dropped(DropReason::UnknownEncoding),
        },
    }
}

/// What the task's driver does with one received message.
pub enum RelayAction {
    /// Send `payload` on the channel, stamped with `timestamp_ns`.
    Forward { timestamp_ns: u64, payload: Vec<u8> },
    /// Log the reason with the topic and go on receiving.
    Drop(DropReason),
    /// Stop the process.
    Halt,
}

/// The mathematical content of a [`RelayAction`].
pub enum RelayActionView {
    Forward { timestamp_ns: u64, payload: Seq<u8> },
    Drop(DropReason),
    Halt,
}

impl View for RelayAction {
    type V = RelayActionView;

    open spec fn view(&self) -> RelayActionView {
        match self {
            RelayAction::Forward { timestamp_ns, payload } => RelayActionView::Forward {
                timestamp_ns: *timestamp_ns,
                payload: payload@,
            },
            RelayAction::Drop(r) => RelayActionView::Drop(*r),
            RelayAction::Halt => RelayActionView::Halt,
        }
    }
}

/// A telemetry line is due whenever the message count reaches a multiple of
/// this.
pub const TELEMETRY_INTERVAL: u64 = 20;

/// The state of one relay task: its kind, its policy for unknown encodings
/// and the number of messages it has received.
pub struct RelayTask {
    pub kind: RelayKind,
    pub policy: UnknownEncodingPolicy,
    pub counter: u64,
}

/// The message count after one more message; it stays at its maximum.
pub open spec fn next_count(counter: u64) -> u64 {
    if counter < u64::MAX {
        (counter + 1) as u64
    } else {
        counter
    }
}

/// The action for a received message, given its conversion.
pub open spec fn action_spec(
    policy: UnknownEncodingPolicy,
    t: TranscodedView,
    now_ns: u64,
) -> RelayActionView {
    match t {
        TranscodedView::Payload(p) => RelayActionView::Forward { timestamp_ns: now_ns, payload: p },
        TranscodedView::Dropped(DropReason::UnknownEncoding) => match policy {
            UnknownEncodingPolicy::HaltProcess => RelayActionView::Halt,
            UnknownEncodingPolicy::SkipMessage => RelayActionView::Drop(
                DropReason::UnknownEncoding,
            ),
        },
        TranscodedView::Dropped(r) => RelayActionView::Drop(r),
    }
}

/// The telemetry count due after a send on a task whose count is `counter`.
pub open spec fn telemetry_spec(counter: u64, sent: bool) -> Option<u64> {
    if sent && counter % TELEMETRY_INTERVAL == 0 {
        Some(counter)
    } else {
        None
    }
}

impl RelayTask {
    /// A task that has received nothing yet.
    pub fn new(kind: RelayKind, policy: UnknownEncodingPolicy) -> (t: RelayTask)
        ensures
            t.kind == kind,
            t.policy == policy,
            t.counter == 0,
    {
        RelayTask { kind, policy, counter: 0 }
    }

    /// Handles one received message, stamped with the wall-clock time
    /// `now_ns` at which it was taken: counts it and says what to do with it.
    pub fn on_message(&mut self, tag: EncodingTag, payload: Vec<u8>, now_ns: u64) -> (r:
        RelayAction)
        ensures
            final(self).kind == old(self).kind,
            final(self).policy == old(self).policy,
            final(self).counter == next_count(old(self).counter),
            r@ == action_spec(old(self).policy, transcode_spec(old(self).kind, tag, payload@), now_ns),
    {
        self.counter = self.counter.saturating_add(1);
        match transcode(self.kind, tag, payload) {
            Transcoded::Payload(p) => RelayAction::Forward { timestamp_ns: now_ns, payload: p },
            Transcoded::Dropped(DropReason::UnknownEncoding) => match self.policy {
                UnknownEncodingPolicy::HaltProcess => RelayAction::Halt,
                UnknownEncodingPolicy::SkipMessage => RelayAction::Drop(
                    DropReason::UnknownEncoding,
                ),
            },
            Transcoded::Dropped(r) => RelayAction::Drop(r),
        }
    }

    /// After a forward: the cumulative count to report, when `sent` says the
    /// channel took the message and the count is a multiple of the interval.
    /// A failed send leaves the task as it was.
    pub fn telemetry_after_send(&self, sent: bool) -> (r: Option<u64>)
        ensures
            r == telemetry_spec(self.counter, sent),
    {
        if sent && self.counter % TELEMETRY_INTERVAL == 0 {
            Some(self.counter)
        } else {
            None
        }
    }
}

/// One received message as the relay sees it, with whether the channel then
/// accepted the forward (if there was one).
pub struct InboundView {
    pub tag: EncodingTag,
    pub payload: Seq<u8>,
    pub now_ns: u64,
    pub sent: bool,
}

/// The timestamp of a forward action (zero for any other action).
pub open spec fn timestamp_of(a: RelayActionView) -> u64 {
    match a {
        RelayActionView::Forward { timestamp_ns, .. } => timestamp_ns,
        _ => 0,
    }
}

/// One iteration of a task's loop: the next state, the action taken and the
/// telemetry count reported.
pub open spec fn relay_step(t: RelayTask, m: InboundView) -> (RelayTask, (RelayActionView, Option<u64>)) {
    let t1 = RelayTask { counter: next_count(t.counter), ..t };
    let a = action_spec(t.policy, transcode_spec(t.kind, m.tag, m.payload), m.now_ns);
    let tel = if a is Forward {
        telemetry_spec(t1.counter, m.sent)
    } else {
        None
    };
    (t1, (a, tel))
}

/// A task's loop over a sequence of messages.
pub open spec fn relay_run(t: RelayTask, msgs: Seq<InboundView>) -> (RelayTask, Seq<
    (RelayActionView, Option<u64>),
>)
    decreases msgs.len(),
{
    if msgs.len() == 0 {
        (t, seq![])
    } else {
        let (t1, recs) = relay_run(t, msgs.drop_last());
        let (t2, rec) = relay_step(t1, msgs.last());
        (t2, recs.push(rec))
    }
}

proof fn lemma_run_len(t: RelayTask, msgs: Seq<InboundView>)
    ensures
        relay_run(t, msgs).1.len() == msgs.len(),
    decreases msgs.len(),
{
    if msgs.len() > 0 {
        lemma_run_len(t, msgs.drop_last());
    }
}

/// A message that converts for its kind.
pub open spec fn converts(kind: RelayKind, m: InboundView) -> bool {
    transcode_spec(kind, m.tag, m.payload) is Payload
}

proof fn lemma_run_all_forwarded(kind: RelayKind, policy: UnknownEncodingPolicy, msgs: Seq<InboundView>)
    requires
        msgs.len() < u64::MAX,
        forall|i: int| 0 <= i < msgs.len() ==> converts(kind, #[trigger] msgs[i]) && msgs[i].sent,
    ensures
        relay_run(RelayTask { kind, policy, counter: 0 }, msgs).0 == (RelayTask {
            kind,
            policy,
            counter: msgs.len() as u64,
        }),
        relay_run(RelayTask { kind, policy, counter: 0 }, msgs).1.len() == msgs.len(),
        forall|i: int|
            0 <= i < msgs.len() ==> #[trigger] relay_run(
                RelayTask { kind, policy, counter: 0 },
                msgs,
            ).1[i] == (
                RelayActionView::Forward { timestamp_ns: msgs[i].now_ns, payload: msgs[i].payload },
                if (i + 1) % 20 == 0 {
                    Some((i + 1) as u64)
                } else {
                    None
                },
            ),
    decreases msgs.len(),
{
    if msgs.len() > 0 {
        let prefix = msgs.drop_last();
        assert forall|i: int| 0 <= i < prefix.len() implies converts(kind, #[trigger] prefix[i])
            && prefix[i].sent by {
            assert(prefix[i] == msgs[i]);
        }
        lemma_run_all_forwarded(kind, policy, prefix);
        let last = msgs.last();
        assert(last == msgs[msgs.len() - 1]);
        let recs = relay_run(RelayTask { kind, policy, counter: 0 }, msgs).1;
        assert forall|i: int| 0 <= i < prefix.len() implies #[trigger] recs[i] == relay_run(
            RelayTask { kind, policy, counter: 0 },
            prefix,
        ).1[i] by {}
        assert forall|i: int| 0 <= i < msgs.len() implies #[trigger] recs[i] == (
            RelayActionView::Forward { timestamp_ns: msgs[i].now_ns, payload: msgs[i].payload },
            if (i + 1) % 20 == 0 {
                Some((i + 1) as u64)
            } else {
                None
            },
        ) by {
            if i < prefix.len() {
                assert(prefix[i] == msgs[i]);
            }
        }
    }
}

/// A task that receives N messages that convert, each sent successfully,
/// forwards exactly N messages, in order and unchanged, stamped with the clock
/// readings taken on receipt (so non-decreasing when the clock is), and reports
/// telemetry after the 20th, 40th, 60th, ... message and only then.
pub proof fn lemma_relay_forwards_every_message(
    kind: RelayKind,
    policy: UnknownEncodingPolicy,
    msgs: Seq<InboundView>,
)
    requires
        msgs.len() < u64::MAX,
        forall|i: int| 0 <= i < msgs.len() ==> converts(kind, #[trigger] msgs[i]) && msgs[i].sent,
        forall|i: int, j: int| 0 <= i <= j < msgs.len() ==> #[trigger] msgs[i].now_ns <= #[trigger] msgs[j].now_ns,
    ensures
        ({
            let recs = relay_run(RelayTask { kind, policy, counter: 0 }, msgs).1;
            &&& recs.len() == msgs.len()
            &&& forall|i: int|
                0 <= i < recs.len() ==> (#[trigger] recs[i]).0 == RelayActionView::Forward {
                    timestamp_ns: msgs[i].now_ns,
                    payload: msgs[i].payload,
                }
            &&& forall|i: int, j: int|
                0 <= i <= j < recs.len() ==> timestamp_of((#[trigger] recs[i]).0) <= timestamp_of(
                    (#[trigger] recs[j]).0,
                )
            &&& forall|i: int|
                0 <= i < recs.len() ==> ((#[trigger] recs[i]).1 is Some <==> (i + 1) % 20 == 0)
            &&& forall|i: int|
                0 <= i < recs.len() && (#[trigger] recs[i]).1 is Some ==> recs[i].1 == Some(
                    (i + 1) as u64,
                )
        }),
{
    lemma_run_all_forwarded(kind, policy, msgs);
    let recs = relay_run(RelayTask { kind, policy, counter: 0 }, msgs).1;
    assert forall|i: int, j: int| 0 <= i <= j < recs.len() implies timestamp_of(
        (#[trigger] recs[i]).0,
    ) <= timestamp_of((#[trigger] recs[j]).0) by {
        assert(msgs[i].now_ns <= msgs[j].now_ns);
    }
}

/// Whether the channel accepted earlier forwards has no effect on what a task
/// does next: two runs over the same messages that differ only in send
/// outcomes take the same actions and end in the same state. A failed send is
/// logged and the loop goes on; a task shares no state with any other, so
/// other topics are not touched at all.
pub proof fn lemma_send_failures_do_not_stop_forwarding(
    t: RelayTask,
    msgs: Seq<InboundView>,
    other: Seq<InboundView>,
)
    requires
        msgs.len() == other.len(),
        forall|i: int|
            0 <= i < msgs.len() ==> (#[trigger] msgs[i]).tag == other[i].tag && msgs[i].payload
                == other[i].payload && msgs[i].now_ns == other[i].now_ns,
    ensures
        relay_run(t, msgs).0 == relay_run(t, other).0,
        relay_run(t, msgs).1.len() == relay_run(t, other).1.len(),
        forall|i: int|
            0 <= i < msgs.len() ==> (#[trigger] relay_run(t, msgs).1[i]).0 == relay_run(
                t,
                other,
            ).1[i].0,
    decreases msgs.len(),
{
    if msgs.len() > 0 {
        let prefix_a = msgs.drop_last();
        let prefix_b = other.drop_last();
        assert forall|i: int| 0 <= i < prefix_a.len() implies (#[trigger] prefix_a[i]).tag == prefix_b[i].tag
            && prefix_a[i].payload == prefix_b[i].payload && prefix_a[i].now_ns == prefix_b[i].now_ns by {
            assert(prefix_a[i] == msgs[i]);
            assert(prefix_b[i] == other[i]);
        }
        lemma_send_failures_do_not_stop_forwarding(t, prefix_a, prefix_b);
        lemma_run_len(t, prefix_a);
        lemma_run_len(t, prefix_b);
        assert(msgs.last() == msgs[msgs.len() - 1]);
        assert(other.last() == other[other.len() - 1]);
        let r1 = relay_run(t, msgs).1;
        let r2 = relay_run(t, other).1;
        assert forall|i: int| 0 <= i < msgs.len() implies (#[trigger] r1[i]).0 == r2[i].0 by {
            if i < prefix_a.len() {
                assert(r1[i] == relay_run(t, prefix_a).1[i]);
                assert(r2[i] == relay_run(t, prefix_b).1[i]);
            }
        }
    }
}

} // verus!

//! The bus engine: the run loop's decision core, as a verified state
//! machine.
//!
//! One engine instance owns one backend connection context and multiplexes
//! three independent operation streams — publish requests, acknowledge
//! requests and group-read results — into a single ordered event loop. The
//! machine here decides; an unverified driver performs the backend calls
//! and queue waits it asks for, and hands each outcome back as the next
//! event. Whichever of the three sources becomes ready first is processed
//! first, and every pass through `Action::Poll` re-arms all three waits, so
//! none starves the others.
//!
//! States: `Starting` → `Running` → `{StoppedClean, StoppedOnError}`, with
//! one waiting state per outstanding backend call. `StoppedClean` means the
//! delivery consumer went away (graceful); `StoppedOnError` means an
//! unrecoverable backend failure or a caller contract violation. Both are
//! absorbing: once stopped, the machine answers every event with
//! `Action::Halt`, so no further backend call is ever issued.

use vstd::prelude::*;

use crate::backend::{BackendError, ReadEntryModel, ReadKeyModel, ReadReply};
use crate::codec::{decode, encode, spec_decode, spec_encode};
use crate::config::{EngineConfig, GroupBinding};
use crate::error::BusError;
use crate::stream::{fields_model, Field, Stream, StreamModel};

verus! {

/// Where the engine stands in its lifecycle.
#[derive(Clone, Copy, Debug, PartialEq, Eq, Structural)]
pub enum EngineState {
    /// bootstrapping consumer groups, one watched key at a time
    Starting,
    /// between iterations: all three waits are to be re-armed
    Running,
    /// one backend append call is outstanding
    AwaitingAppend,
    /// one backend acknowledge call is outstanding
    AwaitingAck,
    /// a decoded batch is being pushed into the delivery queue
    AwaitingDelivery,
    /// the delivery consumer disappeared; the loop ended gracefully
    StoppedClean,
    /// an unrecoverable backend failure or caller contract violation
    StoppedOnError,
}

/// What the driver reports to the machine: one outcome of a wait or of a
/// backend call it was asked to perform.
#[derive(Debug, PartialEq, Eq)]
pub enum Event {
    /// one group-create call ended with this result
    BootstrapResult(Result<(), BackendError>),
    /// the group-read call returned entries (possibly none, on timeout)
    ReadOk(ReadReply),
    /// the group-read call itself failed
    ReadErr(BackendError),
    /// one envelope was drained from the publish queue
    PublishReq(Stream),
    /// one envelope was drained from the acknowledge queue
    AckReq(Stream),
    /// the append call returned the backend-assigned id
    AppendOk(String),
    /// the append call failed
    AppendErr(BackendError),
    /// the acknowledge call returned, with the number of entries retired
    AckOk(usize),
    /// the acknowledge call failed
    AckErr(BackendError),
    /// the decoded batch was pushed into the delivery queue
    Delivered,
    /// the delivery queue's receiving end is closed
    DeliveryClosed,
}

/// What the machine asks the driver to do next.
#[derive(Clone, Debug, PartialEq, Eq)]
pub enum Action {
    /// create this consumer group on this key, creating the stream if
    /// absent, starting at new entries only
    CreateGroup { key: String, group: String, start: String },
    /// re-arm the three waits: issue one group read over all watched keys
    /// with the engine's cursors, block timeout and batch count, racing it
    /// against one drain of the publish queue and one of the ack queue
    Poll,
    /// append one entry with this field map; the id hint is the entry id
    /// to use, or `"*"` for backend assignment
    Append { key: String, id_hint: String, fields: Vec<Field> },
    /// retire this entry id from the group's pending set
    Acknowledge { key: String, group: String, id: String },
    /// push these envelopes into the delivery queue, in order
    Deliver(Vec<Stream>),
    /// the loop is over; release the connection handles
    Halt,
}

/// The model of a sequence of envelopes: each replaced by its model.
pub open spec fn streams_model(s: Seq<Stream>) -> Seq<StreamModel> {
    s.map_values(|x: Stream| x@)
}

/// What one read entry contributes to delivery: the decoded envelope, or
/// nothing when its field map is malformed — the entry is dropped and the
/// batch goes on.
pub open spec fn spec_entry_delivery(key: Seq<char>, e: ReadEntryModel) -> Seq<StreamModel> {
    match spec_decode(e.fields) {
        Ok(v) => seq![StreamModel { id: Some(e.id), key, value: v }],
        Err(_) => Seq::empty(),
    }
}

/// The envelopes delivered from one key's entries, in backend order.
pub open spec fn spec_entries_deliveries(key: Seq<char>, entries: Seq<ReadEntryModel>) -> Seq<
    StreamModel,
>
    decreases entries.len(),
{
    if entries.len() == 0 {
        Seq::empty()
    } else {
        spec_entries_deliveries(key, entries.drop_last()) + spec_entry_delivery(
            key,
            entries.last(),
        )
    }
}

/// The envelopes delivered from one key's slice of a read reply.
pub open spec fn spec_key_deliveries(k: ReadKeyModel) -> Seq<StreamModel> {
    spec_entries_deliveries(k.key, k.entries)
}

/// The envelopes one read reply delivers: every well-formed entry of every
/// returned key, in reply order; malformed entries are skipped, nothing is
/// reordered.
pub open spec fn spec_deliveries(reply: Seq<ReadKeyModel>) -> Seq<StreamModel>
    decreases reply.len(),
{
    if reply.len() == 0 {
        Seq::empty()
    } else {
        spec_deliveries(reply.drop_last()) + spec_key_deliveries(reply.last())
    }
}

/// Decodes one read reply into the envelopes to deliver: for every
/// returned key, for every returned entry, the entry's field map becomes
/// an envelope carrying the backend-assigned id, in the order the backend
/// returned them. A malformed entry is dropped, and neither ends the batch
/// nor touches its neighbours.
pub fn decode_batch(reply: &ReadReply) -> (out: Vec<Stream>)
    ensures
        streams_model(out@) == spec_deliveries(reply@),
{
    let mut out: Vec<Stream> = Vec::new();
    let mut i: usize = 0;
    while i < reply.keys.len()
        invariant
            i <= reply.keys@.len(),
            streams_model(out@) =~= spec_deliveries(reply@.take(i as int)),
        decreases reply.keys@.len() - i,
    {
        let rk = &reply.keys[i];
        let ghost pre_key = streams_model(out@);
        let mut j: usize = 0;
        while j < rk.entries.len()
            invariant
                j <= rk.entries@.len(),
                streams_model(out@) =~= pre_key + spec_entries_deliveries(
                    rk@.key,
                    rk@.entries.take(j as int),
                ),
            decreases rk.entries@.len() - j,
        {
            let e = &rk.entries[j];
            proof {
                assert(rk@.entries.take(j + 1).drop_last() =~= rk@.entries.take(j as int));
                assert(rk@.entries.take(j + 1).last() == rk@.entries[j as int]);
                assert(rk@.entries[j as int] == rk.entries@[j as int]@);
            }
            match decode(&e.fields) {
                Ok(v) => {
                    let s = Stream { id: Some(e.id.clone()), key: rk.key.clone(), value: v };
                    let ghost old_out = out@;
                    out.push(s);
                    proof {
                        assert(streams_model(out@) =~= streams_model(old_out).push(s@));
                    }
                },
                Err(_) => {
                    // log and skip the single malformed entry
                },
            }
            j = j + 1;
        }
        proof {
            assert(rk@.entries.take(rk.entries@.len() as int) =~= rk@.entries);
            assert(reply@.take(i + 1).drop_last() =~= reply@.take(i as int));
            assert(reply@.take(i + 1).last() == reply@[i as int]);
            assert(reply@[i as int] == reply.keys@[i as int]@);
        }
        i = i + 1;
    }
    proof {
        assert(reply@.take(reply.keys@.len() as int) =~= reply@);
    }
    out
}

/// The entries one reply holds under one key, gathered across its slices,
/// in reply order.
pub open spec fn spec_entries_for_key(reply: Seq<ReadKeyModel>, k: Seq<char>) -> Seq<
    ReadEntryModel,
>
    decreases reply.len(),
{
    if reply.len() == 0 {
        Seq::empty()
    } else {
        spec_entries_for_key(reply.drop_last(), k) + (if reply.last().key == k {
            reply.last().entries
        } else {
            Seq::empty()
        })
    }
}

/// The delivered envelopes that carry one key, in delivery order.
pub open spec fn spec_for_key(ds: Seq<StreamModel>, k: Seq<char>) -> Seq<StreamModel> {
    ds.filter(|s: StreamModel| s.key == k)
}

/// Every envelope delivered from one key's entries carries that key, and
/// an id the backend assigned: `spec_entry_delivery` copies the entry's
/// own id into the envelope.
pub proof fn lemma_entries_deliveries_shape(key: Seq<char>, entries: Seq<ReadEntryModel>)
    ensures
        forall|i: int|
            0 <= i < spec_entries_deliveries(key, entries).len() ==> {
                &&& (#[trigger] spec_entries_deliveries(key, entries)[i]).key == key
                &&& spec_entries_deliveries(key, entries)[i].id is Some
            },
    decreases entries.len(),
{
    if entries.len() > 0 {
        lemma_entries_deliveries_shape(key, entries.drop_last());
    }
}

/// Id assignment law: an envelope published without an id is never
/// delivered back without one. Every envelope a read reply delivers
/// carries `Some` id — the entry id the backend returned for it, which
/// `spec_entry_delivery` copies unchanged.
pub proof fn lemma_delivered_ids_assigned(reply: Seq<ReadKeyModel>)
    ensures
        forall|i: int|
            0 <= i < spec_deliveries(reply).len() ==> (#[trigger] spec_deliveries(
                reply,
            )[i]).id is Some,
    decreases reply.len(),
{
    if reply.len() > 0 {
        lemma_delivered_ids_assigned(reply.drop_last());
        lemma_entries_deliveries_shape(reply.last().key, reply.last().entries);
    }
}

/// Decoding distributes over concatenation of entry lists.
proof fn lemma_entries_deliveries_concat(
    key: Seq<char>,
    a: Seq<ReadEntryModel>,
    b: Seq<ReadEntryModel>,
)
    ensures
        spec_entries_deliveries(key, a + b) == spec_entries_deliveries(key, a)
            + spec_entries_deliveries(key, b),
    decreases b.len(),
{
    if b.len() == 0 {
        assert(a + b =~= a);
        assert(spec_entries_deliveries(key, a) + spec_entries_deliveries(key, b)
            =~= spec_entries_deliveries(key, a));
    } else {
        lemma_entries_deliveries_concat(key, a, b.drop_last());
        assert((a + b).drop_last() =~= a + b.drop_last());
        assert((a + b).last() == b.last());
        assert(spec_entries_deliveries(key, a) + (spec_entries_deliveries(key, b.drop_last())
            + spec_entry_delivery(key, b.last())) =~= (spec_entries_deliveries(key, a)
            + spec_entries_deliveries(key, b.drop_last())) + spec_entry_delivery(key, b.last()));
    }
}

/// A filter that every element passes keeps the sequence as it is.
proof fn lemma_filter_keeps_all<A>(s: Seq<A>, pred: spec_fn(A) -> bool)
    requires
        forall|i: int| 0 <= i < s.len() ==> pred(#[trigger] s[i]),
    ensures
        s.filter(pred) == s,
    decreases s.len(),
{
    reveal(Seq::filter);
    if s.len() == 0 {
        assert(s.filter(pred) =~= s);
    } else {
        lemma_filter_keeps_all(s.drop_last(), pred);
        assert(s.drop_last().filter(pred).push(s.last()) =~= s);
    }
}

/// A filter that no element passes leaves nothing.
proof fn lemma_filter_keeps_none<A>(s: Seq<A>, pred: spec_fn(A) -> bool)
    requires
        forall|i: int| 0 <= i < s.len() ==> !pred(#[trigger] s[i]),
    ensures
        s.filter(pred) == Seq::<A>::empty(),
    decreases s.len(),
{
    reveal(Seq::filter);
    if s.len() == 0 {
        assert(s.filter(pred) =~= Seq::<A>::empty());
    } else {
        lemma_filter_keeps_none(s.drop_last(), pred);
    }
}

/// Per-key order preservation law: the envelopes a reply delivers under
/// one key are exactly that key's well-formed entries, decoded, in the
/// order the backend returned them. Delivery reorders nothing and drops
/// nothing but malformed entries; entries of other keys never leak in.
pub proof fn lemma_per_key_order(reply: Seq<ReadKeyModel>, k: Seq<char>)
    ensures
        spec_for_key(spec_deliveries(reply), k) == spec_entries_deliveries(
            k,
            spec_entries_for_key(reply, k),
        ),
    decreases reply.len(),
{
    let pred = |s: StreamModel| s.key == k;
    if reply.len() == 0 {
        reveal(Seq::filter);
        assert(spec_deliveries(reply).filter(pred) =~= Seq::<StreamModel>::empty());
    } else {
        let rest = reply.drop_last();
        let lastk = reply.last();
        let tail_entries = if lastk.key == k {
            lastk.entries
        } else {
            Seq::<ReadEntryModel>::empty()
        };
        lemma_per_key_order(rest, k);
        Seq::filter_distributes_over_add(spec_deliveries(rest), spec_key_deliveries(lastk), pred);
        lemma_entries_deliveries_shape(lastk.key, lastk.entries);
        if lastk.key == k {
            lemma_filter_keeps_all(spec_key_deliveries(lastk), pred);
        } else {
            lemma_filter_keeps_none(spec_key_deliveries(lastk), pred);
        }
        lemma_entries_deliveries_concat(k, spec_entries_for_key(rest, k), tail_entries);
        assert(spec_for_key(spec_deliveries(reply), k) =~= spec_entries_deliveries(
            k,
            spec_entries_for_key(reply, k),
        ));
    }
}

/// Which events a state expects; anything else signals a driver bug and
/// is treated as a caller contract violation.
pub open spec fn spec_expected(state: EngineState, event: Event) -> bool {
    match state {
        EngineState::Starting => event is BootstrapResult,
        EngineState::Running => event is ReadOk || event is ReadErr || event is PublishReq
            || event is AckReq,
        EngineState::AwaitingAppend => event is AppendOk || event is AppendErr,
        EngineState::AwaitingAck => event is AckOk || event is AckErr,
        EngineState::AwaitingDelivery => event is Delivered || event is DeliveryClosed,
        EngineState::StoppedClean => false,
        EngineState::StoppedOnError => false,
    }
}

/// How the machine answers a caller contract violation: it stops on error,
/// records the violation, and issues nothing.
pub open spec fn spec_contract_stop(pre: Engine, post: Engine, a: Action) -> bool {
    &&& post.state is StoppedOnError
    &&& post.fault == Some(BusError::Contract)
    &&& post.boot_index == pre.boot_index
    &&& a is Halt
}

/// The id hint an appended envelope carries to the backend: the entry id
/// the caller pre-set, or `"*"` to let the backend assign one.
pub open spec fn spec_id_hint(s: StreamModel) -> Seq<char> {
    match s.id {
        Some(id) => id,
        None => "*"@,
    }
}

/// The engine: the loop's state plus everything resolved at construction
/// and immutable thereafter — the group identity, the read tuning, the
/// watched keys and their cursor markers.
pub struct Engine {
    /// where the loop stands
    pub state: EngineState,
    /// the group identity shared by every watched key
    pub binding: GroupBinding,
    /// block timeout and batch count for every read call
    pub config: EngineConfig,
    /// the watched stream keys
    pub keys: Vec<String>,
    /// one read cursor marker per watched key; always `">"`, meaning new
    /// entries never delivered to this consumer
    pub cursors: Vec<String>,
    /// during `Starting`: the index of the key whose group-create call is
    /// outstanding; equals the key count once bootstrap is done
    pub boot_index: usize,
    /// why the loop stopped on error, once it has
    pub fault: Option<BusError>,
}

impl Engine {
    /// The engine's structural invariant: one `">"` cursor per key, the
    /// bootstrap index within bounds, a recorded fault exactly in the
    /// error-stopped state, and only a fatal failure ever recorded.
    pub open spec fn wf(self) -> bool {
        &&& self.cursors@.len() == self.keys@.len()
        &&& forall|i: int|
            0 <= i < self.cursors@.len() ==> #[trigger] self.cursors@[i]@ == ">"@
        &&& self.boot_index <= self.keys@.len()
        &&& (self.state is StoppedOnError <==> self.fault is Some)
        &&& (self.fault matches Some(e) ==> e.spec_is_fatal())
        &&& ((self.state is Running || self.state is AwaitingAppend || self.state is AwaitingAck
            || self.state is AwaitingDelivery) ==> self.boot_index == self.keys@.len())
    }

    /// Builds an engine in `Starting`, watching the given keys under the
    /// given group identity, with one fresh `">"` cursor per key.
    pub fn new(binding: GroupBinding, config: EngineConfig, keys: Vec<String>) -> (e: Engine)
        ensures
            e.wf(),
            e.state is Starting,
            e.binding == binding,
            e.config == config,
            e.keys == keys,
            e.boot_index == 0,
            e.fault is None,
    {
        let mut cursors: Vec<String> = Vec::new();
        let mut i: usize = 0;
        while i < keys.len()
            invariant
                i <= keys@.len(),
                cursors@.len() == i,
                forall|k: int| 0 <= k < i ==> #[trigger] cursors@[k]@ == ">"@,
            decreases keys@.len() - i,
        {
            cursors.push(">".to_owned());
            i = i + 1;
        }
        Engine {
            state: EngineState::Starting,
            binding,
            config,
            keys,
            cursors,
            boot_index: 0,
            fault: None,
        }
    }

    /// Kicks the loop off: issues the first group-create call, or — with
    /// nothing to bootstrap — goes straight to `Running` and re-arms the
    /// waits.
    pub fn start(&mut self) -> (a: Action)
        requires
            old(self).wf(),
            old(self).state is Starting,
            old(self).boot_index == 0,
        ensures
            final(self).wf(),
            final(self).binding == old(self).binding,
            final(self).config == old(self).config,
            final(self).keys == old(self).keys,
            final(self).cursors == old(self).cursors,
            final(self).fault is None,
            old(self).keys@.len() == 0 ==> {
                &&& final(self).state is Running
                &&& final(self).boot_index == 0
                &&& a is Poll
            },
            old(self).keys@.len() > 0 ==> {
                &&& final(self).state is Starting
                &&& final(self).boot_index == 0
                &&& (a matches Action::CreateGroup { key, group, start } ==> {
                    &&& key@ == old(self).keys@[0]@
                    &&& group@ == old(self).binding.group_name@
                    &&& start@ == "$"@
                })
                &&& a is CreateGroup
            },
    {
        if self.keys.len() == 0 {
            self.state = EngineState::Running;
            Action::Poll
        } else {
            Action::CreateGroup {
                key: self.keys[0].clone(),
                group: self.binding.group_name.clone(),
                start: "$".to_owned(),
            }
        }
    }

    /// Stops the loop on a caller contract violation.
    fn fail_contract(&mut self) -> (a: Action)
        ensures
            spec_contract_stop(*old(self), *final(self), a),
            final(self).binding == old(self).binding,
            final(self).config == old(self).config,
            final(self).keys == old(self).keys,
            final(self).cursors == old(self).cursors,
    {
        self.state = EngineState::StoppedOnError;
        self.fault = Some(BusError::Contract);
        Action::Halt
    }

    /// One turn of the run loop: consumes the outcome the driver reports
    /// and answers with the next thing to do.
    ///
    /// The full transition table stands in the `ensures` clauses, one per
    /// pre-state. In short: a read failure, an append failure and an
    /// acknowledge request without an id are fatal; a bootstrap failure, a
    /// malformed entry and an acknowledge failure are absorbed; closing the
    /// delivery queue stops the loop cleanly; and both stopped states
    /// absorb every event and issue nothing, so a stopped engine never
    /// asks for another backend call.
    pub fn step(&mut self, event: Event) -> (a: Action)
        requires
            old(self).wf(),
        ensures
            final(self).wf(),
            final(self).binding == old(self).binding,
            final(self).config == old(self).config,
            final(self).keys == old(self).keys,
            final(self).cursors == old(self).cursors,
            // stopped states absorb everything and issue nothing
            old(self).state is StoppedClean ==> *final(self) == *old(self) && a is Halt,
            old(self).state is StoppedOnError ==> *final(self) == *old(self) && a is Halt,
            // an event the state does not expect is a driver bug
            (!spec_expected(old(self).state, event) && !(old(self).state is StoppedClean) && !(
            old(self).state is StoppedOnError)) ==> spec_contract_stop(
                *old(self),
                *final(self),
                a,
            ),
            // Starting: whatever one group-create call ended in, bootstrap
            // goes on with the next key; after the last key, reads begin
            old(self).state is Starting ==> (match event {
                Event::BootstrapResult(_) => {
                    if old(self).boot_index >= old(self).keys@.len() {
                        spec_contract_stop(*old(self), *final(self), a)
                    } else if old(self).boot_index + 1 < old(self).keys@.len() {
                        &&& final(self).state is Starting
                        &&& final(self).boot_index == old(self).boot_index + 1
                        &&& (a matches Action::CreateGroup { key, group, start } ==> {
                            &&& key@ == old(self).keys@[old(self).boot_index + 1]@
                            &&& group@ == old(self).binding.group_name@
                            &&& start@ == "$"@
                        })
                        &&& a is CreateGroup
                    } else {
                        &&& final(self).state is Running
                        &&& final(self).boot_index == old(self).keys@.len()
                        &&& a is Poll
                    }
                },
                _ => true,
            }),
            // Running: the three multiplexed sources
            old(self).state is Running ==> (match event {
                Event::ReadOk(reply) => {
                    if spec_deliveries(reply@).len() == 0 {
                        &&& final(self).state is Running
                        &&& a is Poll
                    } else {
                        &&& final(self).state is AwaitingDelivery
                        &&& (a matches Action::Deliver(v) ==> streams_model(v@)
                            == spec_deliveries(reply@))
                        &&& a is Deliver
                    }
                },
                Event::ReadErr(e) => {
                    &&& final(self).state is StoppedOnError
                    &&& (final(self).fault matches Some(BusError::Read { msg }) && msg@
                        == e.message@)
                    &&& a is Halt
                },
                Event::PublishReq(s) => {
                    &&& final(self).state is AwaitingAppend
                    &&& (a matches Action::Append { key, id_hint, fields } ==> {
                        &&& key@ == s.key@
                        &&& id_hint@ == spec_id_hint(s@)
                        // the ordinary publish path carries no id, so the
                        // backend assigns one
                        &&& (s.publishable() ==> id_hint@ == "*"@)
                        &&& fields_model(fields@) == spec_encode(s@.value)
                    })
                    &&& a is Append
                },
                Event::AckReq(s) => {
                    if s.ackable() {
                        &&& final(self).state is AwaitingAck
                        &&& (a matches Action::Acknowledge { key, group, id } ==> {
                            &&& key@ == s.key@
                            &&& group@ == old(self).binding.group_name@
                            &&& Some(id@) == s@.id
                        })
                        &&& a is Acknowledge
                    } else {
                        // nothing to acknowledge: misuse of the API
                        spec_contract_stop(*old(self), *final(self), a)
                    }
                },
                _ => true,
            }),
            // one append outstanding: failure is fatal, the connection is
            // unusable
            old(self).state is AwaitingAppend ==> (match event {
                Event::AppendOk(_) => {
                    &&& final(self).state is Running
                    &&& a is Poll
                },
                Event::AppendErr(e) => {
                    &&& final(self).state is StoppedOnError
                    &&& (final(self).fault matches Some(BusError::Append { msg }) && msg@
                        == e.message@)
                    &&& a is Halt
                },
                _ => true,
            }),
            // one acknowledge outstanding: failure is absorbed, the entry
            // stays pending for redelivery
            old(self).state is AwaitingAck ==> (match event {
                Event::AckOk(_) => {
                    &&& final(self).state is Running
                    &&& a is Poll
                },
                Event::AckErr(_) => {
                    &&& final(self).state is Running
                    &&& a is Poll
                },
                _ => true,
            }),
            // a batch on its way to the application
            old(self).state is AwaitingDelivery ==> (match event {
                Event::Delivered => {
                    &&& final(self).state is Running
                    &&& a is Poll
                },
                Event::DeliveryClosed => {
                    &&& final(self).state is StoppedClean
                    &&& a is Halt
                },
                _ => true,
            }),
    {
        match self.state {
            EngineState::StoppedClean => Action::Halt,
            EngineState::StoppedOnError => Action::Halt,
            EngineState::Starting => match event {
                Event::BootstrapResult(_) => {
                    if self.boot_index >= self.keys.len() {
                        self.fail_contract()
                    } else {
                        let next = self.boot_index + 1;
                        if next < self.keys.len() {
                            self.boot_index = next;
                            Action::CreateGroup {
                                key: self.keys[next].clone(),
                                group: self.binding.group_name.clone(),
                                start: "$".to_owned(),
                            }
                        } else {
                            self.boot_index = next;
                            self.state = EngineState::Running;
                            Action::Poll
                        }
                    }
                },
                _ => self.fail_contract(),
            },
            EngineState::Running => match event {
                Event::ReadOk(reply) => {
                    let batch = decode_batch(&reply);
                    if batch.len() == 0 {
                        Action::Poll
                    } else {
                        self.state = EngineState::AwaitingDelivery;
                        Action::Deliver(batch)
                    }
                },
                Event::ReadErr(e) => {
                    self.state = EngineState::StoppedOnError;
                    self.fault = Some(BusError::Read { msg: e.message });
                    Action::Halt
                },
                Event::PublishReq(s) => {
                    let fields = encode(&s);
                    let id_hint = match s.id {
                        Some(id) => id,
                        None => "*".to_owned(),
                    };
                    self.state = EngineState::AwaitingAppend;
                    Action::Append { key: s.key, id_hint, fields }
                },
                Event::AckReq(s) => match s.id {
                    Some(id) => {
                        self.state = EngineState::AwaitingAck;
                        Action::Acknowledge {
                            key: s.key,
                            group: self.binding.group_name.clone(),
                            id,
                        }
                    },
                    None => self.fail_contract(),
                },
                _ => self.fail_contract(),
            },
            EngineState::AwaitingAppend => match event {
                Event::AppendOk(_) => {
                    self.state = EngineState::Running;
                    Action::Poll
                },
                Event::AppendErr(e) => {
                    self.state = EngineState::StoppedOnError;
                    self.fault = Some(BusError::Append { msg: e.message });
                    Action::Halt
                },
                _ => self.fail_contract(),
            },
            EngineState::AwaitingAck => match event {
                Event::AckOk(_) => {
                    self.state = EngineState::Running;
                    Action::Poll
                },
                Event::AckErr(_) => {
                    self.state = EngineState::Running;
                    Action::Poll
                },
                _ => self.fail_contract(),
            },
            EngineState::AwaitingDelivery => match event {
                Event::Delivered => {
                    self.state = EngineState::Running;
                    Action::Poll
                },
                Event::DeliveryClosed => {
                    self.state = EngineState::StoppedClean;
                    Action::Halt
                },
                _ => self.fail_contract(),
            },
        }
    }
}

} // verus!

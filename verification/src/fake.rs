//! A deterministic in-memory backend: one consumer group over any number
//! of stream logs, with the same operations the engine requires of the
//! real store — append, group read, acknowledge, and idempotent group
//! creation.
//!
//! Its contracts state the consumer-group semantics the engine builds on:
//! entry ids are pairwise distinct within a log, a group read hands out the
//! entries after the group's cursor and advances it, and the cursor is
//! shared by every consumer of the group — which is why two members never
//! both receive the same entry (`lemma_group_fanout`).

use vstd::prelude::*;

use crate::backend::{entries_model, BackendError, ReadEntry, ReadEntryModel, ReadKey, ReadReply};
use crate::stream::{fields_model, Field};

verus! {

/// The model of a list of strings: each replaced by its character
/// sequence.
pub open spec fn strings_model(s: Seq<String>) -> Seq<Seq<char>> {
    s.map_values(|x: String| x@)
}

/// The ids of a list of entries, in order.
pub open spec fn ids_of(entries: Seq<ReadEntryModel>) -> Seq<Seq<char>> {
    entries.map_values(|e: ReadEntryModel| e.id)
}

/// Whether the consumer group exists on this key.
pub open spec fn spec_group_ready(b: FakeBackend, k: Seq<char>) -> bool {
    exists|i: int| 0 <= i < b.logs@.len() && b.logs@[i].key@ == k && b.logs@[i].group_ready
}

/// Whether one of the first `q` requested keys is this key.
pub open spec fn spec_requested_before(keys: Seq<String>, q: int, k: Seq<char>) -> bool {
    exists|t: int| 0 <= t < q && keys[t]@ == k
}

/// How many entries one read takes from a log: everything after the
/// cursor, capped per key by a non-zero count.
pub open spec fn spec_take_count(pre: FakeLog, count: int) -> int {
    let avail = pre.entries@.len() - pre.next_read;
    if count == 0 {
        avail
    } else if count < avail {
        count
    } else {
        avail
    }
}

/// The slice of a log one read hands out: the entries from the cursor on,
/// as many as the count allows.
pub open spec fn spec_read_slice(pre: FakeLog, count: int) -> Seq<ReadEntryModel> {
    pre.models().subrange(pre.next_read as int, pre.next_read + spec_take_count(pre, count))
}

/// How one read leaves a log it took a slice from: same entries, cursor
/// moved past the slice, the slice's ids added to the pending set.
pub open spec fn spec_read_log_update(pre: FakeLog, post: FakeLog, count: int) -> bool {
    &&& post.key == pre.key
    &&& post.entries == pre.entries
    &&& post.group_ready == pre.group_ready
    &&& post.next_read == pre.next_read + spec_take_count(pre, count)
    &&& strings_model(post.pending@) == strings_model(pre.pending@) + ids_of(
        spec_read_slice(pre, count),
    )
}

/// Whether a list of entries already holds an id.
pub open spec fn spec_has_id(entries: Seq<ReadEntryModel>, id: Seq<char>) -> bool {
    exists|i: int| 0 <= i < entries.len() && entries[i].id == id
}

/// One stream key's log: its entries in append order, whether the consumer
/// group was created on it, the group's read cursor, and the group's
/// pending (delivered, unacknowledged) entry ids.
pub struct FakeLog {
    /// the stream key this log belongs to
    pub key: String,
    /// the appended entries, oldest first
    pub entries: Vec<ReadEntry>,
    /// whether the consumer group exists on this key
    pub group_ready: bool,
    /// index of the first entry not yet handed to the group
    pub next_read: usize,
    /// delivered but not yet acknowledged entry ids
    pub pending: Vec<String>,
}

impl FakeLog {
    /// The log's entries, as models.
    pub open spec fn models(self) -> Seq<ReadEntryModel> {
        entries_model(self.entries@)
    }

    /// A log is well formed when the cursor stays within the log and the
    /// entry ids are non-empty and pairwise distinct — the backend assigns
    /// each entry its own id.
    pub open spec fn wf(self) -> bool {
        &&& self.next_read <= self.entries@.len()
        &&& forall|i: int|
            0 <= i < self.models().len() ==> (#[trigger] self.models()[i]).id.len() > 0
        &&& forall|i: int, j: int|
            0 <= i < j < self.models().len() ==> self.models()[i].id != self.models()[j].id
    }
}

/// The in-memory store: one consumer group's view over any number of
/// stream logs.
pub struct FakeBackend {
    /// the one consumer group this double serves
    pub group: String,
    /// one log per stream key
    pub logs: Vec<FakeLog>,
}

impl FakeBackend {
    /// Every log is well formed and no two logs share a key.
    pub open spec fn wf(self) -> bool {
        &&& forall|i: int| 0 <= i < self.logs@.len() ==> (#[trigger] self.logs@[i]).wf()
        &&& forall|i: int, j: int|
            0 <= i < j < self.logs@.len() ==> self.logs@[i].key@ != self.logs@[j].key@
    }

    /// Whether a log for this key exists.
    pub open spec fn spec_has_log(self, k: Seq<char>) -> bool {
        exists|i: int| 0 <= i < self.logs@.len() && self.logs@[i].key@ == k
    }

    /// An empty store for one consumer group.
    pub fn new(group: String) -> (b: FakeBackend)
        ensures
            b.wf(),
            b.group == group,
            b.logs@.len() == 0,
    {
        FakeBackend { group, logs: Vec::new() }
    }

    /// Creates the consumer group on a key, creating the stream if absent,
    /// starting at new entries only. A second creation on the same key is
    /// refused with a busy-group error — the one backend error bootstrap
    /// treats as success.
    pub fn create_group_if_absent(&mut self, key: &String) -> (r: Result<(), BackendError>)
        requires
            old(self).wf(),
        ensures
            final(self).wf(),
            final(self).group == old(self).group,
            !old(self).spec_has_log(key@) ==> {
                &&& r is Ok
                &&& final(self).logs@.len() == old(self).logs@.len() + 1
                &&& final(self).logs@.take(old(self).logs@.len() as int) == old(self).logs@
                &&& final(self).logs@.last().key@ == key@
                &&& final(self).logs@.last().entries@.len() == 0
                &&& final(self).logs@.last().group_ready
                &&& final(self).logs@.last().next_read == 0
                &&& final(self).logs@.last().pending@.len() == 0
            },
            forall|j: int|
                0 <= j < old(self).logs@.len() && (#[trigger] old(self).logs@[j]).key@ == key@
                    ==> {
                    if old(self).logs@[j].group_ready {
                        &&& (r matches Err(e) && e.busy_group)
                        &&& final(self).logs@ == old(self).logs@
                    } else {
                        &&& r is Ok
                        &&& final(self).logs@ == old(self).logs@.update(
                            j,
                            (FakeLog {
                                group_ready: true,
                                next_read: old(self).logs@[j].entries@.len() as usize,
                                ..old(self).logs@[j]
                            }),
                        )
                    }
                },
    {
        match find_log(&self.logs, key) {
            None => {
                self.logs.push(
                    FakeLog {
                        key: key.clone(),
                        entries: Vec::new(),
                        group_ready: true,
                        next_read: 0,
                        pending: Vec::new(),
                    },
                );
                proof {
                    assert(final(self).logs@.take(old(self).logs@.len() as int) =~= old(
                        self,
                    ).logs@);
                    assert(final(self).logs@.last().wf()) by {
                        assert(final(self).logs@.last().models() =~= Seq::<
                            ReadEntryModel,
                        >::empty());
                    }
                    assert forall|i: int, j: int|
                        0 <= i < j < final(self).logs@.len() implies final(self).logs@[i].key@
                        != final(self).logs@[j].key@ by {
                        if j < old(self).logs@.len() {
                            assert(old(self).logs@[i].key@ != old(self).logs@[j].key@);
                        } else {
                            assert(old(self).logs@[i].key@ != key@);
                        }
                    }
                }
                Ok(())
            },
            Some(j) => {
                if self.logs[j].group_ready {
                    Err(
                        BackendError {
                            busy_group: true,
                            message: "BUSYGROUP consumer group name already exists".to_owned(),
                        },
                    )
                } else {
                    let mut log = self.logs.remove(j);
                    log.group_ready = true;
                    log.next_read = log.entries.len();
                    self.logs.insert(j, log);
                    proof {
                        assert(final(self).logs@ =~= old(self).logs@.update(
                            j as int,
                            (FakeLog {
                                group_ready: true,
                                next_read: old(self).logs@[j as int].entries@.len() as usize,
                                ..old(self).logs@[j as int]
                            }),
                        ));
                        assert(final(self).logs@[j as int].wf()) by {
                            assert(final(self).logs@[j as int].models() == old(
                                self,
                            ).logs@[j as int].models());
                        }
                    }
                    Ok(())
                }
            },
        }
    }
    /// Appends one entry to a key's log, creating the stream if absent (an
    /// append creates the stream, never the group). The entry id is the id
    /// hint, or a fresh store-assigned id when the hint is `"*"`. An empty
    /// or already-taken explicit id is refused — the store accepts only ids
    /// above the log's existing ones — and so is a fresh id that would
    /// collide with an explicitly chosen one.
    pub fn append(&mut self, key: &String, id_hint: &String, fields: Vec<Field>) -> (r: Result<
        String,
        BackendError,
    >)
        requires
            old(self).wf(),
        ensures
            final(self).wf(),
            final(self).group == old(self).group,
            r matches Ok(id) ==> id@.len() > 0 && (id_hint@ != "*"@ ==> id@ == id_hint@),
            r is Err ==> final(self).logs@ == old(self).logs@,
            // no log yet: the stream comes into being with its first entry
            !old(self).spec_has_log(key@) ==> {
                &&& (r is Ok <==> (id_hint@ == "*"@ || id_hint@.len() > 0))
                &&& (r matches Ok(id) ==> {
                    &&& final(self).logs@.len() == old(self).logs@.len() + 1
                    &&& final(self).logs@.take(old(self).logs@.len() as int) == old(self).logs@
                    &&& final(self).logs@.last().key@ == key@
                    &&& final(self).logs@.last().models().len() == 1
                    &&& final(self).logs@.last().models()[0].id == id@
                    &&& final(self).logs@.last().models()[0].fields == fields_model(fields@)
                    &&& !final(self).logs@.last().group_ready
                    &&& final(self).logs@.last().next_read == 0
                    &&& final(self).logs@.last().pending@.len() == 0
                })
            },
            // a log exists: the entry goes at its end, nothing else moves
            forall|j: int|
                0 <= j < old(self).logs@.len() && (#[trigger] old(self).logs@[j]).key@ == key@
                    ==> ({
                    let pre = old(self).logs@[j];
                    &&& (r is Ok <==> (if id_hint@ == "*"@ {
                        pre.entries@.len() < usize::MAX && !spec_has_id(
                            pre.models(),
                            spec_ones((pre.entries@.len() + 1) as nat),
                        )
                    } else {
                        id_hint@.len() > 0 && !spec_has_id(pre.models(), id_hint@)
                    }))
                    &&& (r matches Ok(id) ==> {
                        &&& final(self).logs@.len() == old(self).logs@.len()
                        &&& (forall|t: int|
                            0 <= t < old(self).logs@.len() && t != j ==> final(self).logs@[t]
                                == old(self).logs@[t])
                        &&& final(self).logs@[j].key == pre.key
                        &&& final(self).logs@[j].models() == pre.models().push(
                            ReadEntryModel { id: id@, fields: fields_model(fields@) },
                        )
                        &&& final(self).logs@[j].group_ready == pre.group_ready
                        &&& final(self).logs@[j].next_read == pre.next_read
                        &&& final(self).logs@[j].pending == pre.pending
                    })
                }),
    {
        let star = "*".to_owned();
        match find_log(&self.logs, key) {
            None => {
                let id: String = if *id_hint == star {
                    proof {
                        lemma_spec_ones_len(1);
                    }
                    ones(1)
                } else {
                    if id_hint.as_str().is_empty() {
                        return Err(refused_id());
                    }
                    id_hint.clone()
                };
                let mut entries: Vec<ReadEntry> = Vec::new();
                entries.push(ReadEntry { id: id.clone(), fields });
                let ghost entry_models = entries_model(entries@);
                self.logs.push(
                    FakeLog {
                        key: key.clone(),
                        entries,
                        group_ready: false,
                        next_read: 0,
                        pending: Vec::new(),
                    },
                );
                proof {
                    assert(self.logs@.take(old(self).logs@.len() as int) =~= old(self).logs@);
                    assert(self.logs@.last().models() =~= entry_models);
                    assert(self.logs@.last().wf());
                    assert forall|i: int, j: int|
                        0 <= i < j < self.logs@.len() implies self.logs@[i].key@
                        != self.logs@[j].key@ by {
                        if j < old(self).logs@.len() {
                            assert(old(self).logs@[i].key@ != old(self).logs@[j].key@);
                        } else {
                            assert(old(self).logs@[i].key@ != key@);
                        }
                    }
                }
                Ok(id)
            },
            Some(j) => {
                let ghost pre = old(self).logs@[j as int];
                let id: String = if *id_hint == star {
                    let len = self.logs[j].entries.len();
                    if len == usize::MAX {
                        return Err(refused_id());
                    }
                    let cand = ones(len + 1);
                    proof {
                        lemma_spec_ones_len((len + 1) as nat);
                    }
                    if contains_id(&self.logs[j].entries, &cand) {
                        return Err(refused_id());
                    }
                    cand
                } else {
                    if id_hint.as_str().is_empty() {
                        return Err(refused_id());
                    }
                    if contains_id(&self.logs[j].entries, id_hint) {
                        return Err(refused_id());
                    }
                    id_hint.clone()
                };
                let mut log = self.logs.remove(j);
                log.entries.push(ReadEntry { id: id.clone(), fields });
                self.logs.insert(j, log);
                proof {
                    let e = ReadEntryModel { id: id@, fields: fields_model(fields@) };
                    assert(self.logs@ =~= old(self).logs@.update(j as int, self.logs@[j as int]));
                    assert(self.logs@[j as int].models() =~= pre.models().push(e));
                    assert(self.logs@[j as int].wf()) by {
                        let m = self.logs@[j as int].models();
                        assert(!spec_has_id(pre.models(), id@));
                        assert forall|x: int, y: int|
                            0 <= x < y < m.len() implies m[x].id != m[y].id by {
                            if y < pre.models().len() {
                                assert(pre.models()[x].id != pre.models()[y].id);
                            } else {
                                assert(m[x] == pre.models()[x]);
                            }
                        }
                    }
                }
                Ok(id)
            },
        }
    }

    /// One group read across the requested keys: for each key, the entries
    /// after the group's cursor — at most `count` per key, all of them when
    /// `count` is zero — are handed out, the cursor advances past them, and
    /// their ids join the pending set. The reply holds one slice per
    /// requested key, in request order; a key with nothing new contributes
    /// an empty slice.
    ///
    /// The cursor belongs to the group, not to the consumer: whichever
    /// member reads takes the entries with it, which is why two members
    /// never both receive one entry (`lemma_group_fanout`). The read fails,
    /// and moves nothing, when any requested key has no consumer group yet.
    pub fn group_read(&mut self, keys: &Vec<String>, consumer: &String, count: usize) -> (r:
        Result<ReadReply, BackendError>)
        requires
            old(self).wf(),
            forall|a: int, b: int| 0 <= a < b < keys@.len() ==> keys@[a]@ != keys@[b]@,
        ensures
            final(self).wf(),
            final(self).group == old(self).group,
            r is Err <==> exists|q: int|
                0 <= q < keys@.len() && !spec_group_ready(*old(self), keys@[q]@),
            r is Err ==> final(self).logs@ == old(self).logs@,
            r matches Ok(reply) ==> {
                &&& reply@.len() == keys@.len()
                &&& final(self).logs@.len() == old(self).logs@.len()
                &&& forall|j: int|
                    0 <= j < old(self).logs@.len() && !spec_requested_before(
                        keys@,
                        keys@.len() as int,
                        (#[trigger] old(self).logs@[j]).key@,
                    ) ==> final(self).logs@[j] == old(self).logs@[j]
                &&& forall|q: int|
                    0 <= q < keys@.len() ==> ({
                        &&& (#[trigger] reply@[q]).key == keys@[q]@
                        &&& forall|j: int|
                            0 <= j < old(self).logs@.len() && (#[trigger] old(
                                self,
                            ).logs@[j]).key@ == keys@[q]@ ==> {
                                &&& reply@[q].entries == spec_read_slice(
                                    old(self).logs@[j],
                                    count as int,
                                )
                                &&& spec_read_log_update(
                                    old(self).logs@[j],
                                    final(self).logs@[j],
                                    count as int,
                                )
                            }
                    })
            },
    {
        let _ = consumer;  // any member of the group shares the group's cursor
        let mut q: usize = 0;
        while q < keys.len()
            invariant
                q <= keys@.len(),
                *self == *old(self),
                old(self).wf(),
                forall|t: int| 0 <= t < q ==> spec_group_ready(*old(self), keys@[t]@),
            decreases keys@.len() - q,
        {
            match find_log(&self.logs, &keys[q]) {
                Some(j) => {
                    if !self.logs[j].group_ready {
                        proof {
                            assert forall|w: int|
                                0 <= w < old(self).logs@.len() && (#[trigger] old(
                                    self,
                                ).logs@[w]).key@ == keys@[q as int]@ implies !old(
                                self,
                            ).logs@[w].group_ready by {
                                if w < j {
                                    assert(old(self).logs@[w].key@ != old(
                                        self,
                                    ).logs@[j as int].key@);
                                } else if w > j {
                                    assert(old(self).logs@[j as int].key@ != old(
                                        self,
                                    ).logs@[w].key@);
                                }
                            }
                            assert(!spec_group_ready(*old(self), keys@[q as int]@));
                        }
                        return Err(no_group());
                    }
                    proof {
                        assert(spec_group_ready(*old(self), keys@[q as int]@));
                    }
                },
                None => {
                    proof {
                        assert(!spec_group_ready(*old(self), keys@[q as int]@));
                    }
                    return Err(no_group());
                },
            }
            q = q + 1;
        }
        let mut reply_keys: Vec<ReadKey> = Vec::new();
        let mut q: usize = 0;
        while q < keys.len()
            invariant
                q <= keys@.len(),
                self.wf(),
                self.group == old(self).group,
                old(self).wf(),
                self.logs@.len() == old(self).logs@.len(),
                reply_keys@.len() == q,
                forall|a: int, b: int| 0 <= a < b < keys@.len() ==> keys@[a]@ != keys@[b]@,
                forall|t: int| 0 <= t < keys@.len() ==> spec_group_ready(*old(self), keys@[t]@),
                forall|j: int|
                    0 <= j < old(self).logs@.len() ==> (#[trigger] self.logs@[j]).key@ == old(
                        self,
                    ).logs@[j].key@,
                forall|j: int|
                    0 <= j < old(self).logs@.len() && !spec_requested_before(
                        keys@,
                        q as int,
                        (#[trigger] old(self).logs@[j]).key@,
                    ) ==> self.logs@[j] == old(self).logs@[j],
                forall|t: int|
                    0 <= t < q ==> ({
                        &&& (#[trigger] reply_keys@[t])@.key == keys@[t]@
                        &&& forall|j: int|
                            0 <= j < old(self).logs@.len() && (#[trigger] old(
                                self,
                            ).logs@[j]).key@ == keys@[t]@ ==> {
                                &&& reply_keys@[t]@.entries == spec_read_slice(
                                    old(self).logs@[j],
                                    count as int,
                                )
                                &&& spec_read_log_update(
                                    old(self).logs@[j],
                                    self.logs@[j],
                                    count as int,
                                )
                            }
                    }),
            decreases keys@.len() - q,
        {
            let ghost loop_logs = self.logs@;
            let j = match find_log(&self.logs, &keys[q]) {
                Some(j) => j,
                None => {
                    proof {
                        let w = choose|w: int|
                            0 <= w < old(self).logs@.len() && old(self).logs@[w].key@
                                == keys@[q as int]@ && old(self).logs@[w].group_ready;
                        assert(self.logs@[w].key@ == keys@[q as int]@);
                        assert(false);
                    }
                    return Err(no_group());
                },
            };
            proof {
                assert(!spec_requested_before(keys@, q as int, old(self).logs@[j as int].key@));
                assert(self.logs@[j as int] == old(self).logs@[j as int]);
            }
            let ghost pre = old(self).logs@[j as int];
            let nr = self.logs[j].next_read;
            let avail = self.logs[j].entries.len() - nr;
            let n: usize = if count == 0 {
                avail
            } else if count < avail {
                count
            } else {
                avail
            };
            proof {
                assert(n as int == spec_take_count(pre, count as int));
            }
            let mut log = self.logs.remove(j);
            let mut taken: Vec<ReadEntry> = Vec::new();
            let mut t: usize = 0;
            while t < n
                invariant
                    t <= n,
                    nr + n <= log.entries@.len(),
                    log.entries@.len() <= usize::MAX,
                    log.key == pre.key,
                    log.entries == pre.entries,
                    log.group_ready == pre.group_ready,
                    log.next_read == pre.next_read,
                    nr == pre.next_read,
                    n as int == spec_take_count(pre, count as int),
                    entries_model(taken@) =~= pre.models().subrange(nr as int, nr + t),
                    strings_model(log.pending@) =~= strings_model(pre.pending@) + ids_of(
                        pre.models().subrange(nr as int, nr + t),
                    ),
                decreases n - t,
            {
                let e = log.entries[nr + t].duplicate();
                let ghost old_taken = taken@;
                let ghost old_pending = log.pending@;
                taken.push(e);
                log.pending.push(log.entries[nr + t].id.clone());
                proof {
                    assert(entries_model(taken@) =~= entries_model(old_taken).push(
                        pre.models()[nr + t],
                    ));
                    assert(pre.models().subrange(nr as int, nr + t + 1) =~= pre.models().subrange(
                        nr as int,
                        nr + t,
                    ).push(pre.models()[nr + t]));
                    assert(strings_model(log.pending@) =~= strings_model(old_pending).push(
                        pre.models()[nr + t].id,
                    ));
                    assert(ids_of(pre.models().subrange(nr as int, nr + t + 1)) =~= ids_of(
                        pre.models().subrange(nr as int, nr + t),
                    ).push(pre.models()[nr + t].id));
                }
                t = t + 1;
            }
            log.next_read = nr + n;
            let ghost newlog = log;
            reply_keys.push(ReadKey { key: keys[q].clone(), entries: taken });
            self.logs.insert(j, log);
            proof {
                assert(self.logs@ =~= loop_logs.update(j as int, newlog));
                assert(spec_read_log_update(pre, newlog, count as int));
                assert(self.logs@[j as int] == newlog);
                assert(newlog.wf()) by {
                    assert(newlog.models() == pre.models());
                }
                assert(old(self).logs@[j as int].key@ == keys@[q as int]@);
                // this turn touched only the log of the key at hand; every
                // log of an earlier requested key keeps its state
                assert forall|x: int|
                    0 <= x < old(self).logs@.len() && x != j implies self.logs@[x]
                    == loop_logs[x] by {}
                assert(reply_keys@[q as int]@.key == keys@[q as int]@);
                assert(reply_keys@[q as int]@.entries =~= spec_read_slice(pre, count as int));
                assert forall|t: int, w: int|
                    0 <= t < q && 0 <= w < old(self).logs@.len() && (#[trigger] old(
                        self,
                    ).logs@[w]).key@ == (#[trigger] keys@[t])@ implies self.logs@[w]
                    == loop_logs[w] by {
                    assert(keys@[t]@ != keys@[q as int]@);
                    assert(w != j);
                }
                assert(spec_requested_before(keys@, q + 1, old(self).logs@[j as int].key@));
            }
            q = q + 1;
        }
        Ok(ReadReply { keys: reply_keys })
    }
    /// Retires one delivered entry from the group's pending set and answers
    /// how many entries that actually removed: one, or none when the id is
    /// not pending — acknowledging an already-acknowledged id is a no-op,
    /// not an error, and touches nothing else. A key or group the store
    /// does not know acknowledges nothing, as the real store does.
    pub fn acknowledge(&mut self, key: &String, group: &String, id: &String) -> (r: Result<
        usize,
        BackendError,
    >)
        requires
            old(self).wf(),
        ensures
            final(self).wf(),
            final(self).group == old(self).group,
            r is Ok,
            (group@ != old(self).group@ || !old(self).spec_has_log(key@)) ==> {
                &&& final(self).logs@ == old(self).logs@
                &&& r == Ok::<usize, BackendError>(0)
            },
            group@ == old(self).group@ ==> forall|j: int|
                0 <= j < old(self).logs@.len() && (#[trigger] old(self).logs@[j]).key@ == key@
                    ==> ({
                    let pre = old(self).logs@[j];
                    let pids = strings_model(pre.pending@);
                    if spec_pending_has(pids, id@) {
                        &&& r == Ok::<usize, BackendError>(1)
                        &&& final(self).logs@.len() == old(self).logs@.len()
                        &&& (forall|t: int|
                            0 <= t < old(self).logs@.len() && t != j ==> final(self).logs@[t]
                                == old(self).logs@[t])
                        &&& final(self).logs@[j].key == pre.key
                        &&& final(self).logs@[j].entries == pre.entries
                        &&& final(self).logs@[j].group_ready == pre.group_ready
                        &&& final(self).logs@[j].next_read == pre.next_read
                        &&& exists|p: int|
                            0 <= p < pids.len() && pids[p] == id@ && (forall|u: int|
                                0 <= u < p ==> pids[u] != id@) && strings_model(
                                final(self).logs@[j].pending@,
                            ) == pids.remove(p)
                    } else {
                        &&& r == Ok::<usize, BackendError>(0)
                        &&& final(self).logs@ == old(self).logs@
                    }
                }),
    {
        if !(*group == self.group) {
            return Ok(0);
        }
        match find_log(&self.logs, key) {
            None => Ok(0),
            Some(j) => {
                let ghost pre = self.logs@[j as int];
                let ghost pids = strings_model(pre.pending@);
                let mut p: usize = 0;
                while p < self.logs[j].pending.len()
                    invariant
                        *self == *old(self),
                        old(self).wf(),
                        group@ == old(self).group@,
                        0 <= j < self.logs@.len(),
                        pre == self.logs@[j as int],
                        pre.key@ == key@,
                        pids == strings_model(pre.pending@),
                        p <= pre.pending@.len(),
                        forall|u: int| 0 <= u < p ==> pids[u] != id@,
                    decreases pre.pending@.len() - p,
                {
                    if self.logs[j].pending[p] == *id {
                        proof {
                            assert(pids[p as int] == id@);
                            assert(spec_pending_has(pids, id@));
                            assert(old(self).spec_has_log(key@));
                        }
                        let mut log = self.logs.remove(j);
                        log.pending.remove(p);
                        self.logs.insert(j, log);
                        proof {
                            assert(self.logs@ =~= old(self).logs@.update(
                                j as int,
                                self.logs@[j as int],
                            ));
                            assert(strings_model(self.logs@[j as int].pending@) =~= pids.remove(
                                p as int,
                            ));
                            assert(self.logs@[j as int].wf()) by {
                                assert(self.logs@[j as int].models() == pre.models());
                            }
                            assert forall|w: int|
                                0 <= w < old(self).logs@.len() && (#[trigger] old(
                                    self,
                                ).logs@[w]).key@ == key@ implies w == j by {
                                assert(old(self).logs@[j as int].key@ == key@);
                                lemma_key_unique(*old(self), w, j as int);
                            }
                        }
                        return Ok(1);
                    }
                    p = p + 1;
                }
                proof {
                    assert(old(self).spec_has_log(key@));
                    assert forall|w: int|
                        0 <= w < old(self).logs@.len() && (#[trigger] old(self).logs@[w]).key@
                            == key@ implies w == j by {
                        assert(old(self).logs@[j as int].key@ == key@);
                        lemma_key_unique(*old(self), w, j as int);
                    }
                    assert(!spec_pending_has(pids, id@));
                }
                Ok(0)
            },
        }
    }
}

/// Whether an id sits in a pending set.
pub open spec fn spec_pending_has(pids: Seq<Seq<char>>, id: Seq<char>) -> bool {
    exists|p: int| 0 <= p < pids.len() && pids[p] == id
}

/// No two logs of a well-formed store share a key.
proof fn lemma_key_unique(b: FakeBackend, x: int, y: int)
    requires
        b.wf(),
        0 <= x < b.logs@.len(),
        0 <= y < b.logs@.len(),
        b.logs@[x].key@ == b.logs@[y].key@,
    ensures
        x == y,
{
    if x < y {
        assert(b.logs@[x].key@ != b.logs@[y].key@);
    }
    if y < x {
        assert(b.logs@[y].key@ != b.logs@[x].key@);
    }
}

/// Group fan-out law: reads advance the group's one cursor per key, so
/// two reads — whichever members of the group made them — take disjoint
/// index ranges of the log; and since a well-formed log's entry ids are
/// pairwise distinct, no entry id is ever handed to both readers.
pub proof fn lemma_group_fanout(entries: Seq<ReadEntryModel>, a: int, b: int, c: int)
    requires
        0 <= a <= b <= c <= entries.len(),
        forall|x: int, y: int| 0 <= x < y < entries.len() ==> entries[x].id != entries[y].id,
    ensures
        forall|x: int, y: int| a <= x < b && b <= y < c ==> entries[x].id != entries[y].id,
{
    assert forall|x: int, y: int| a <= x < b && b <= y < c implies entries[x].id
        != entries[y].id by {
        assert(x < y);
    }
}

/// The error the store answers with when the consumer group is missing on
/// a requested key.
fn no_group() -> (e: BackendError)
    ensures
        !e.busy_group,
{
    BackendError {
        busy_group: false,
        message: "NOGROUP no such consumer group on a requested key".to_owned(),
    }
}

/// The error the store answers with when it refuses an entry id.
fn refused_id() -> (e: BackendError)
    ensures
        !e.busy_group,
{
    BackendError {
        busy_group: false,
        message: "the entry id is empty or not above the log's ids".to_owned(),
    }
}

/// Finds the log a key belongs to, if one exists.
fn find_log(logs: &Vec<FakeLog>, key: &String) -> (r: Option<usize>)
    ensures
        r matches Some(j) ==> j < logs@.len() && logs@[j as int].key@ == key@,
        r is None ==> forall|i: int| 0 <= i < logs@.len() ==> (#[trigger] logs@[i]).key@ != key@,
{
    let mut i: usize = 0;
    while i < logs.len()
        invariant
            i <= logs@.len(),
            forall|t: int| 0 <= t < i ==> (#[trigger] logs@[t]).key@ != key@,
        decreases logs@.len() - i,
    {
        if logs[i].key == *key {
            return Some(i);
        }
        i = i + 1;
    }
    None
}

/// Whether a list of entries already holds an id.
fn contains_id(entries: &Vec<ReadEntry>, id: &String) -> (r: bool)
    ensures
        r == spec_has_id(entries_model(entries@), id@),
{
    let mut i: usize = 0;
    while i < entries.len()
        invariant
            i <= entries@.len(),
            forall|t: int| 0 <= t < i ==> (#[trigger] entries_model(entries@)[t]).id != id@,
        decreases entries@.len() - i,
    {
        if entries[i].id == *id {
            proof {
                assert(entries_model(entries@)[i as int].id == id@);
            }
            return true;
        }
        i = i + 1;
    }
    false
}

/// A run of ones, the shape of the ids this double assigns.
pub open spec fn spec_ones(n: nat) -> Seq<char>
    decreases n,
{
    if n == 0 {
        Seq::empty()
    } else {
        spec_ones((n - 1) as nat).push('1')
    }
}

/// A run of ones is as long as asked.
pub proof fn lemma_spec_ones_len(n: nat)
    ensures
        spec_ones(n).len() == n,
    decreases n,
{
    if n > 0 {
        lemma_spec_ones_len((n - 1) as nat);
    }
}

/// Builds the id string of a given run length.
fn ones(n: usize) -> (s: String)
    ensures
        s@ == spec_ones(n as nat),
{
    let mut s = String::new();
    let mut i: usize = 0;
    while i < n
        invariant
            i <= n,
            s@ == spec_ones(i as nat),
        decreases n - i,
    {
        s.append("1");
        proof {
            reveal_strlit("1");
            assert(s@ =~= spec_ones((i + 1) as nat));
        }
        i = i + 1;
    }
    s
}

} // verus!

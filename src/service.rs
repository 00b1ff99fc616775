//! Request handling over one device's tables: Write runs its updates in order
//! and stops at the first failure; Read lists the stored entries of the tables
//! asked for.
//!
//! Like a single change, a Write runs as a state machine: `write` starts it,
//! each driver reply goes to `write_resume`, until a `WriteStep::Done`.

use crate::entity::{as_update_type, update_type_of, Entity, EntityView, TableEntry, TableEntryView, Update, UpdateView};
use crate::table::{
    apply_step, call_of, resume_step, DriverCall, DriverReply, Pending, PendingView, Step,
    StepView, Table, TableError, TableErrorView,
};
use vstd::prelude::*;

verus! {

/// Why a request failed, as the client sees it.
#[derive(Clone, Debug)]
pub enum RpcError {
    DeviceNotFound(u64),
    TableNotFound(u32),
    InvalidUpdateType,
    UnsupportedEntity,
    ApplyFailed(TableError),
}

pub enum RpcErrorView {
    DeviceNotFound(u64),
    TableNotFound(u32),
    InvalidUpdateType,
    UnsupportedEntity,
    ApplyFailed(TableErrorView),
}

impl View for RpcError {
    type V = RpcErrorView;

    open spec fn view(&self) -> RpcErrorView {
        match self {
            RpcError::DeviceNotFound(d) => RpcErrorView::DeviceNotFound(*d),
            RpcError::TableNotFound(t) => RpcErrorView::TableNotFound(*t),
            RpcError::InvalidUpdateType => RpcErrorView::InvalidUpdateType,
            RpcError::UnsupportedEntity => RpcErrorView::UnsupportedEntity,
            RpcError::ApplyFailed(e) => RpcErrorView::ApplyFailed(e@),
        }
    }
}

pub open spec fn has_table(ts: Seq<Table>, id: u32) -> bool {
    exists|i: int| 0 <= i < ts.len() && ts[i].table_id() == id
}

pub open spec fn table_index(ts: Seq<Table>, id: u32) -> int {
    choose|i: int| 0 <= i < ts.len() && ts[i].table_id() == id
}

pub open spec fn unique_tables(ts: Seq<Table>) -> bool {
    forall|i: int, j: int|
        0 <= i < ts.len() && 0 <= j < ts.len() && i != j ==> ts[i].table_id() != ts[j].table_id()
}

proof fn lemma_table_index(ts: Seq<Table>, id: u32, i: int)
    requires
        unique_tables(ts),
        0 <= i < ts.len(),
        ts[i].table_id() == id,
    ensures
        has_table(ts, id),
        table_index(ts, id) == i,
{
    assert(has_table(ts, id));
    let j = table_index(ts, id);
    assert(ts[j].table_id() == id);
}

/// A write in progress: the request's updates, the one being applied, the
/// table it goes to (by position), and the change waiting on the driver.
pub struct WriteRun {
    updates: Vec<Update>,
    next: usize,
    table: usize,
    pending: Pending,
}

pub struct WriteRunView {
    pub updates: Seq<UpdateView>,
    pub next: int,
    pub table: int,
    pub pending: PendingView,
}

impl View for WriteRun {
    type V = WriteRunView;

    closed spec fn view(&self) -> WriteRunView {
        WriteRunView {
            updates: self.updates@.map_values(|u: Update| u@),
            next: self.next as int,
            table: self.table as int,
            pending: self.pending@,
        }
    }
}

impl WriteRun {
    /// The position, among the device's tables, of the table the write waits on.
    pub fn table_position(&self) -> (r: usize)
        ensures
            r == self@.table,
    {
        self.table
    }

    /// The driver call that the write waits on.
    pub fn call(&self) -> (r: DriverCall)
        ensures
            r@ == call_of(self@.pending),
    {
        self.pending.call()
    }
}

/// One step of a write: a driver call to make, or the response.
pub enum WriteStep {
    Call(WriteRun),
    Done(Result<(), RpcError>),
}

pub enum WriteStepView {
    Call(WriteRunView),
    Done(Result<(), RpcErrorView>),
}

impl View for WriteStep {
    type V = WriteStepView;

    open spec fn view(&self) -> WriteStepView {
        match self {
            WriteStep::Call(run) => WriteStepView::Call(run@),
            WriteStep::Done(Ok(())) => WriteStepView::Done(Ok(())),
            WriteStep::Done(Err(e)) => WriteStepView::Done(Err(e@)),
        }
    }
}

/// The error of a finished first step (a first step never finishes well).
pub open spec fn failure_of(r: Result<(), TableErrorView>) -> TableErrorView {
    match r {
        Err(e) => e,
        Ok(_) => TableErrorView::NotSupported,
    }
}

/// How a write goes on from update `i`: done when no update is left; else the
/// update's kind is decoded, its entity must be a table entry of a known table,
/// and the table either rejects it or names a driver call.
pub open spec fn begin_at(ts: Seq<Table>, us: Seq<UpdateView>, i: int) -> WriteStepView {
    if i < 0 || i >= us.len() {
        WriteStepView::Done(Ok(()))
    } else {
        match update_type_of(us[i].update_type) {
            None => WriteStepView::Done(Err(RpcErrorView::InvalidUpdateType)),
            Some(ty) => match us[i].entity {
                EntityView::Unsupported => WriteStepView::Done(Err(RpcErrorView::UnsupportedEntity)),
                EntityView::TableEntry(te) => if !has_table(ts, te.table_id) {
                    WriteStepView::Done(Err(RpcErrorView::TableNotFound(te.table_id)))
                } else {
                    let ti = table_index(ts, te.table_id);
                    match apply_step(ts[ti]@, ts[ti].actions(), te, ty) {
                        StepView::Call(p) => WriteStepView::Call(
                            WriteRunView { updates: us, next: i, table: ti, pending: p },
                        ),
                        StepView::Done(r) => WriteStepView::Done(
                            Err(RpcErrorView::ApplyFailed(failure_of(r))),
                        ),
                    }
                },
            },
        }
    }
}

/// A read's response messages for entities `i..`: each table entity lists its
/// table's stored entries, one message each, in store order; an unknown table
/// ends the read with an error; other entities give nothing.
pub open spec fn read_from(ts: Seq<Table>, es: Seq<EntityView>, i: int) -> Seq<
    Result<TableEntryView, RpcErrorView>,
>
    decreases es.len() - i,
{
    if i < 0 || i >= es.len() {
        Seq::empty()
    } else {
        match es[i] {
            EntityView::Unsupported => read_from(ts, es, i + 1),
            EntityView::TableEntry(te) => if has_table(ts, te.table_id) {
                ts[table_index(ts, te.table_id)]@.map_values(
                    |p: (Seq<u8>, TableEntryView)| Ok::<TableEntryView, RpcErrorView>(p.1),
                ) + read_from(ts, es, i + 1)
            } else {
                seq![Err(RpcErrorView::TableNotFound(te.table_id))]
            },
        }
    }
}

pub open spec fn message_view(m: Result<TableEntry, RpcError>) -> Result<TableEntryView, RpcErrorView> {
    match m {
        Ok(e) => Ok(e@),
        Err(e) => Err(e@),
    }
}

/// The tables of one device, each id once.
pub struct Tables {
    tables: Vec<Table>,
}

impl View for Tables {
    type V = Seq<Table>;

    closed spec fn view(&self) -> Seq<Table> {
        self.tables@
    }
}

impl Tables {
    pub open spec fn wf(&self) -> bool {
        &&& unique_tables(self@)
        &&& forall|i: int| 0 <= i < self@.len() ==> (#[trigger] self@[i]).wf()
    }

    /// Whether `run` can continue on these tables.
    pub open spec fn fits(&self, run: WriteRunView) -> bool {
        0 <= run.table < self@.len() && 0 <= run.next < run.updates.len()
    }

    /// Whether `run` can continue on these tables.
    pub fn accepts(&self, run: &WriteRun) -> (r: bool)
        ensures
            r == self.fits(run@),
    {
        run.table < self.tables.len() && run.next < run.updates.len()
    }

    /// The id of the table at position `i`.
    pub fn id_at(&self, i: usize) -> (r: u32)
        requires
            i < self@.len(),
        ensures
            r == self@[i as int].table_id(),
    {
        self.tables[i].id()
    }

    pub fn new() -> (r: Tables)
        ensures
            r.wf(),
            r@ == Seq::<Table>::empty(),
    {
        Tables { tables: Vec::new() }
    }

    pub fn len(&self) -> (r: usize)
        ensures
            r == self@.len(),
    {
        self.tables.len()
    }

    /// Where table `table_id` stands, if it is known.
    pub fn find(&self, table_id: u32) -> (r: Option<usize>)
        requires
            self.wf(),
        ensures
            match r {
                Some(i) => i < self@.len() && has_table(self@, table_id) && table_index(self@, table_id)
                    == i,
                None => !has_table(self@, table_id),
            },
    {
        let mut i: usize = 0;
        while i < self.tables.len()
            invariant
                self.wf(),
                i <= self@.len(),
                forall|j: int| 0 <= j < i ==> (#[trigger] self@[j]).table_id() != table_id,
            decreases self@.len() - i,
        {
            if self.tables[i].id() == table_id {
                proof {
                    lemma_table_index(self@, table_id, i as int);
                }
                return Some(i);
            }
            i = i + 1;
        }
        None
    }

    /// The table with id `table_id`, if it is known.
    pub fn get(&self, table_id: u32) -> (r: Option<&Table>)
        requires
            self.wf(),
        ensures
            match r {
                Some(t) => has_table(self@, table_id) && *t == self@[table_index(self@, table_id)],
                None => !has_table(self@, table_id),
            },
    {
        match self.find(table_id) {
            Some(i) => Some(&self.tables[i]),
            None => None,
        }
    }

    /// Adds `table`, replacing a table with the same id.
    pub fn insert(&mut self, table: Table)
        requires
            old(self).wf(),
            table.wf(),
        ensures
            final(self).wf(),
            final(self)@ == (if has_table(old(self)@, table.table_id()) {
                old(self)@.update(table_index(old(self)@, table.table_id()), table)
            } else {
                old(self)@.push(table)
            }),
    {
        let ghost s = self@;
        let ghost t = table;
        match self.find(table.id()) {
            Some(i) => {
                self.tables.set(i, table);
                proof {
                    assert forall|a: int, b: int|
                        0 <= a < self@.len() && 0 <= b < self@.len() && a != b implies self@[a].table_id()
                        != self@[b].table_id() by {
                        if a != i {
                            assert(self@[a] == s[a]);
                        }
                        if b != i {
                            assert(self@[b] == s[b]);
                        }
                    }
                }
            },
            None => {
                self.tables.push(table);
                proof {
                    assert forall|a: int, b: int|
                        0 <= a < self@.len() && 0 <= b < self@.len() && a != b implies self@[a].table_id()
                        != self@[b].table_id() by {
                        if a < s.len() {
                            assert(self@[a] == s[a]);
                        }
                        if b < s.len() {
                            assert(self@[b] == s[b]);
                        }
                    }
                }
            },
        }
    }

    /// Starts a write request: applies its updates in order until one needs the
    /// driver or fails.
    pub fn write(&self, updates: Vec<Update>) -> (r: WriteStep)
        requires
            self.wf(),
        ensures
            r@ == begin_at(self@, updates@.map_values(|u: Update| u@), 0),
            r matches WriteStep::Call(run) ==> self.fits(run@),
    {
        self.begin(updates, 0)
    }

    fn begin(&self, updates: Vec<Update>, i: usize) -> (r: WriteStep)
        requires
            self.wf(),
        ensures
            r@ == begin_at(self@, updates@.map_values(|u: Update| u@), i as int),
            r matches WriteStep::Call(run) ==> self.fits(run@),
    {
        let ghost us = updates@.map_values(|u: Update| u@);
        if i >= updates.len() {
            return WriteStep::Done(Ok(()));
        }
        proof {
            assert(us[i as int] == updates@[i as int]@);
        }
        let ty = match as_update_type(updates[i].update_type) {
            Some(t) => t,
            None => return WriteStep::Done(Err(RpcError::InvalidUpdateType)),
        };
        let entry = match &updates[i].entity {
            Entity::TableEntry(te) => te.copy(),
            Entity::Unsupported => return WriteStep::Done(Err(RpcError::UnsupportedEntity)),
        };
        let ti = match self.find(entry.table_id) {
            Some(ti) => ti,
            None => return WriteStep::Done(Err(RpcError::TableNotFound(entry.table_id))),
        };
        match self.tables[ti].apply(entry, ty) {
            Step::Call(pending) => {
                let run = WriteRun { updates, next: i, table: ti, pending };
                proof {
                    assert(run@.updates == us);
                }
                WriteStep::Call(run)
            },
            Step::Done(Err(e)) => WriteStep::Done(Err(RpcError::ApplyFailed(e))),
            // A first step always fails or calls the driver.
            Step::Done(Ok(())) => WriteStep::Done(
                Err(RpcError::ApplyFailed(TableError::NotSupported)),
            ),
        }
    }

    /// Continues a write with the driver's reply: the pending change goes on,
    /// fails the request, or is done and the next update starts.
    pub fn write_resume(&mut self, run: WriteRun, reply: DriverReply) -> (r: WriteStep)
        requires
            old(self).wf(),
            old(self).fits(run@),
        ensures
            final(self).wf(),
            final(self)@.len() == old(self)@.len(),
            forall|j: int|
                0 <= j < old(self)@.len() && j != run@.table ==> final(self)@[j] == old(self)@[j],
            final(self)@[run@.table].table_id() == old(self)@[run@.table].table_id(),
            final(self)@[run@.table].actions() == old(self)@[run@.table].actions(),
            ({
                let (store, step) = resume_step(
                    old(self)@[run@.table]@,
                    run@.pending,
                    reply.code,
                    reply.name@,
                    reply.action_id,
                );
                &&& final(self)@[run@.table]@ == store
                &&& r@ == match step {
                    StepView::Call(p) => WriteStepView::Call(WriteRunView { pending: p, ..run@ }),
                    StepView::Done(Err(e)) => WriteStepView::Done(Err(RpcErrorView::ApplyFailed(e))),
                    StepView::Done(Ok(_)) => begin_at(final(self)@, run@.updates, run@.next + 1),
                }
            }),
            r matches WriteStep::Call(next_run) ==> final(self).fits(next_run@),
    {
        proof {
            assert(run.next < run.updates@.len());
        }
        let WriteRun { updates, next, table, pending } = run;
        let count = updates.len();
        proof {
            assert(next < count);
        }
        let step = self.resume_table(table, pending, reply);
        match step {
            Step::Call(pending) => WriteStep::Call(WriteRun { updates, next, table, pending }),
            Step::Done(Err(e)) => WriteStep::Done(Err(RpcError::ApplyFailed(e))),
            Step::Done(Ok(())) => self.begin(updates, next + 1),
        }
    }

    /// Resumes the pending change of the table at position `i`.
    fn resume_table(&mut self, i: usize, pending: Pending, reply: DriverReply) -> (r: Step)
        requires
            old(self).wf(),
            i < old(self)@.len(),
        ensures
            final(self).wf(),
            final(self)@.len() == old(self)@.len(),
            forall|j: int| 0 <= j < old(self)@.len() && j != i ==> final(self)@[j] == old(self)@[j],
            final(self)@[i as int].table_id() == old(self)@[i as int].table_id(),
            final(self)@[i as int].actions() == old(self)@[i as int].actions(),
            (final(self)@[i as int]@, r@) == resume_step(
                old(self)@[i as int]@,
                pending@,
                reply.code,
                reply.name@,
                reply.action_id,
            ),
    {
        let ghost s = self@;
        let r = self.tables[i].resume(pending, reply);
        proof {
            assert forall|a: int, b: int|
                0 <= a < self@.len() && 0 <= b < self@.len() && a != b implies self@[a].table_id()
                != self@[b].table_id() by {
                if a != i {
                    assert(self@[a] == s[a]);
                }
                if b != i {
                    assert(self@[b] == s[b]);
                }
            }
            assert forall|j: int| 0 <= j < self@.len() implies (#[trigger] self@[j]).wf() by {
                if j != i {
                    assert(self@[j] == s[j]);
                }
            }
        }
        r
    }

    /// The response messages of a read request, in order.
    pub fn read(&self, entities: &Vec<Entity>) -> (r: Vec<Result<TableEntry, RpcError>>)
        requires
            self.wf(),
        ensures
            r@.map_values(|m: Result<TableEntry, RpcError>| message_view(m)) == read_from(
                self@,
                entities@.map_values(|e: Entity| e@),
                0,
            ),
    {
        let ghost es = entities@.map_values(|e: Entity| e@);
        let ghost ts = self@;
        let mut r: Vec<Result<TableEntry, RpcError>> = Vec::new();
        let mut i: usize = 0;
        while i < entities.len()
            invariant
                self.wf(),
                ts == self@,
                es == entities@.map_values(|e: Entity| e@),
                i <= entities@.len(),
                r@.map_values(|m: Result<TableEntry, RpcError>| message_view(m)) + read_from(
                    ts,
                    es,
                    i as int,
                ) == read_from(ts, es, 0),
            decreases entities@.len() - i,
        {
            let ghost before = r@.map_values(|m: Result<TableEntry, RpcError>| message_view(m));
            proof {
                assert(es[i as int] == entities@[i as int]@);
            }
            match &entities[i] {
                Entity::TableEntry(te) => {
                    match self.find(te.table_id) {
                        Some(ti) => {
                            let listed = self.tables[ti].entries();
                            proof {
                                assert(listed@.map_values(|e: TableEntry| e@).len() == listed@.len());
                            }
                            let ghost added = ts[ti as int]@.map_values(
                                |p: (Seq<u8>, TableEntryView)| Ok::<TableEntryView, RpcErrorView>(p.1),
                            );
                            let mut k: usize = 0;
                            while k < listed.len()
                                invariant
                                    ti < ts.len(),
                                    k <= listed@.len(),
                                    listed@.len() == added.len(),
                                    listed@.map_values(|e: TableEntry| e@) == ts[ti as int]@.map_values(
                                        |p: (Seq<u8>, TableEntryView)| p.1,
                                    ),
                                    added == ts[ti as int]@.map_values(
                                        |p: (Seq<u8>, TableEntryView)| Ok::<TableEntryView, RpcErrorView>(p.1),
                                    ),
                                    r@.map_values(|m: Result<TableEntry, RpcError>| message_view(m))
                                        == before + added.subrange(0, k as int),
                                decreases listed@.len() - k,
                            {
                                let e = listed[k].copy();
                                proof {
                                    assert(listed@.map_values(|e: TableEntry| e@)[k as int]
                                        == listed@[k as int]@);
                                    assert(ts[ti as int]@.map_values(|p: (Seq<u8>, TableEntryView)| p.1)[k as int]
                                        == ts[ti as int]@[k as int].1);
                                    assert(added[k as int] == Ok::<TableEntryView, RpcErrorView>(e@));
                                }
                                let ghost prev = r@;
                                r.push(Ok(e));
                                proof {
                                    let f = |m: Result<TableEntry, RpcError>| message_view(m);
                                    assert(r@ == prev.push(Ok(e)));
                                    assert(r@.map_values(f) =~= prev.map_values(f).push(message_view(Ok(e))));
                                    assert(message_view(Ok(e)) == Ok::<TableEntryView, RpcErrorView>(e@));
                                    assert(added.subrange(0, k + 1) =~= added.subrange(0, k as int).push(added[k as int]));
                                    assert(r@.map_values(f) =~= before + added.subrange(0, k + 1));
                                }
                                k = k + 1;
                            }
                            proof {
                                assert(added.subrange(0, k as int) =~= added);
                                assert(read_from(ts, es, i as int) == added + read_from(ts, es, i + 1));
                                assert(before + (added + read_from(ts, es, i + 1)) =~= (before + added)
                                    + read_from(ts, es, i + 1));
                            }
                        },
                        None => {
                            r.push(Err(RpcError::TableNotFound(te.table_id)));
                            proof {
                                assert(r@.map_values(|m: Result<TableEntry, RpcError>| message_view(m))
                                    =~= before + read_from(ts, es, i as int));
                            }
                            return r;
                        },
                    }
                },
                Entity::Unsupported => {},
            }
            i = i + 1;
        }
        proof {
            assert(read_from(ts, es, i as int) =~= Seq::empty());
            assert(r@.map_values(|m: Result<TableEntry, RpcError>| message_view(m)) =~= r@.map_values(
                |m: Result<TableEntry, RpcError>| message_view(m),
            ) + read_from(ts, es, i as int));
        }
        r
    }
}

} // verus!

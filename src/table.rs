//! The table mediator: one entry store per table, mutated only after the
//! pipeline-control interface has confirmed the change.
//!
//! The interface itself is outside the library. A change runs as a small state
//! machine: `apply` validates the request and names the first driver call; the
//! caller performs it and hands the reply to `resume`, which names the next call
//! or finishes.

use crate::entity::{copy_bytes, bytes_equal, TableEntry, TableEntryView, UpdateType, FieldMatchType, FieldMatchTypeView, TableAction, TableActionView};
use vstd::prelude::*;

verus! {

/// The status code with which the pipeline-control interface reports success.
pub const DRIVER_SUCCESS: u32 = 0;

/// An action that a table accepts, by numeric id and by the name the driver knows.
#[derive(Clone, Debug)]
pub struct ActionSchema {
    pub id: u32,
    pub name: String,
}

/// What the mediator knows of its table: its id, its name and its actions.
#[derive(Clone, Debug)]
pub struct TableSchema {
    pub id: u32,
    pub name: String,
    pub actions: Vec<ActionSchema>,
}

/// Why a change to a table failed.
#[derive(Clone, Debug)]
pub enum TableError {
    Driver { name: String, code: u32 },
    NotSupported,
    NotFoundAction,
    NotFoundKey,
}

pub enum TableErrorView {
    Driver { name: Seq<char>, code: u32 },
    NotSupported,
    NotFoundAction,
    NotFoundKey,
}

impl View for TableError {
    type V = TableErrorView;

    open spec fn view(&self) -> TableErrorView {
        match self {
            TableError::Driver { name, code } => TableErrorView::Driver { name: name@, code: *code },
            TableError::NotSupported => TableErrorView::NotSupported,
            TableError::NotFoundAction => TableErrorView::NotFoundAction,
            TableError::NotFoundKey => TableErrorView::NotFoundKey,
        }
    }
}

/// A stored entry under the bytes of its exact-match field.
#[derive(Clone, Debug)]
pub struct StoredEntry {
    pub key: Vec<u8>,
    pub entry: TableEntry,
}

impl View for StoredEntry {
    type V = (Seq<u8>, TableEntryView);

    open spec fn view(&self) -> (Seq<u8>, TableEntryView) {
        (self.key@, self.entry@)
    }
}

/// A call into the pipeline-control interface.
#[derive(Clone, Debug)]
pub enum DriverCall {
    GetActionId { action_name: String },
    Insert { key: Vec<u8>, action_id: u32, param: Vec<u8> },
    Delete { key: Vec<u8> },
}

/// What a driver call returned: its status code, the readable name of that code,
/// and the action id (meaningful after `GetActionId` only).
#[derive(Clone, Debug)]
pub struct DriverReply {
    pub code: u32,
    pub name: String,
    pub action_id: u32,
}

/// A change waiting for the reply to its driver call.
#[derive(Clone, Debug)]
pub enum Pending {
    ResolveAction { entry: TableEntry, key: Vec<u8>, param: Vec<u8>, action_name: String },
    Insert { entry: TableEntry, key: Vec<u8>, action_id: u32, param: Vec<u8> },
    Delete { key: Vec<u8> },
}

pub enum PendingView {
    ResolveAction {
        entry: TableEntryView,
        key: Seq<u8>,
        param: Seq<u8>,
        action_name: Seq<char>,
    },
    Insert { entry: TableEntryView, key: Seq<u8>, action_id: u32, param: Seq<u8> },
    Delete { key: Seq<u8> },
}

impl View for Pending {
    type V = PendingView;

    open spec fn view(&self) -> PendingView {
        match self {
            Pending::ResolveAction { entry, key, param, action_name } => PendingView::ResolveAction {
                entry: entry@,
                key: key@,
                param: param@,
                action_name: action_name@,
            },
            Pending::Insert { entry, key, action_id, param } => PendingView::Insert {
                entry: entry@,
                key: key@,
                action_id: *action_id,
                param: param@,
            },
            Pending::Delete { key } => PendingView::Delete { key: key@ },
        }
    }
}

pub enum DriverCallView {
    GetActionId { action_name: Seq<char> },
    Insert { key: Seq<u8>, action_id: u32, param: Seq<u8> },
    Delete { key: Seq<u8> },
}

impl View for DriverCall {
    type V = DriverCallView;

    open spec fn view(&self) -> DriverCallView {
        match self {
            DriverCall::GetActionId { action_name } => DriverCallView::GetActionId {
                action_name: action_name@,
            },
            DriverCall::Insert { key, action_id, param } => DriverCallView::Insert {
                key: key@,
                action_id: *action_id,
                param: param@,
            },
            DriverCall::Delete { key } => DriverCallView::Delete { key: key@ },
        }
    }
}

/// The driver call that a pending change waits on.
pub open spec fn call_of(p: PendingView) -> DriverCallView {
    match p {
        PendingView::ResolveAction { action_name, .. } => DriverCallView::GetActionId { action_name },
        PendingView::Insert { key, action_id, param, .. } => DriverCallView::Insert {
            key,
            action_id,
            param,
        },
        PendingView::Delete { key } => DriverCallView::Delete { key },
    }
}

impl Pending {
    /// The driver call to perform next.
    pub fn call(&self) -> (r: DriverCall)
        ensures
            r@ == call_of(self@),
    {
        match self {
            Pending::ResolveAction { action_name, .. } => DriverCall::GetActionId {
                action_name: action_name.clone(),
            },
            Pending::Insert { key, action_id, param, .. } => DriverCall::Insert {
                key: copy_bytes(key),
                action_id: *action_id,
                param: copy_bytes(param),
            },
            Pending::Delete { key } => DriverCall::Delete { key: copy_bytes(key) },
        }
    }
}

/// One step of a change: another driver call to make, or the outcome.
pub enum Step {
    Call(Pending),
    Done(Result<(), TableError>),
}

pub enum StepView {
    Call(PendingView),
    Done(Result<(), TableErrorView>),
}

impl View for Step {
    type V = StepView;

    open spec fn view(&self) -> StepView {
        match self {
            Step::Call(p) => StepView::Call(p@),
            Step::Done(Ok(())) => StepView::Done(Ok(())),
            Step::Done(Err(e)) => StepView::Done(Err(e@)),
        }
    }
}

/// Stored entries, in store order: each key with its entry.
pub type StoreView = Seq<(Seq<u8>, TableEntryView)>;

/// No key is stored twice.
pub open spec fn unique_keys(s: StoreView) -> bool {
    forall|i: int, j: int| 0 <= i < s.len() && 0 <= j < s.len() && i != j ==> s[i].0 != s[j].0
}

pub open spec fn has_key(s: StoreView, k: Seq<u8>) -> bool {
    exists|i: int| 0 <= i < s.len() && s[i].0 == k
}

/// Where key `k` stands (meaningful when it is stored).
pub open spec fn key_index(s: StoreView, k: Seq<u8>) -> int {
    choose|i: int| 0 <= i < s.len() && s[i].0 == k
}

/// The entry stored under `k`, if any.
pub open spec fn lookup(s: StoreView, k: Seq<u8>) -> Option<TableEntryView> {
    if has_key(s, k) {
        Some(s[key_index(s, k)].1)
    } else {
        None
    }
}

/// The store after recording `e` under `k`: a stored key keeps its place.
pub open spec fn store_put(s: StoreView, k: Seq<u8>, e: TableEntryView) -> StoreView {
    if has_key(s, k) {
        s.update(key_index(s, k), (k, e))
    } else {
        s.push((k, e))
    }
}

/// The store after removing `k`.
pub open spec fn store_remove(s: StoreView, k: Seq<u8>) -> StoreView {
    if has_key(s, k) {
        s.remove(key_index(s, k))
    } else {
        s
    }
}

/// The bytes of the entry's only match field, when it has exactly one and that
/// one is exact.
pub open spec fn exact_key(e: TableEntryView) -> Option<Seq<u8>> {
    if e.match_fields.len() == 1 {
        match e.match_fields[0].field_match_type {
            Some(FieldMatchTypeView::Exact { value }) => Some(value),
            _ => None,
        }
    } else {
        None
    }
}

/// The action id and the bytes of the only parameter, when the entry names a
/// direct action with exactly one parameter.
pub open spec fn single_param(e: TableEntryView) -> Option<(u32, Seq<u8>)> {
    match e.action {
        Some(TableActionView::Action(a)) => if a.params.len() == 1 {
            Some((a.action_id, a.params[0].value))
        } else {
            None
        },
        _ => None,
    }
}

/// The name under which the driver knows action `id`; the last listing wins.
pub open spec fn action_name_of(acts: Seq<(u32, Seq<char>)>, id: u32) -> Option<Seq<char>>
    decreases acts.len(),
{
    if acts.len() == 0 {
        None
    } else if acts.last().0 == id {
        Some(acts.last().1)
    } else {
        action_name_of(acts.drop_last(), id)
    }
}

/// The first step of an insert.
pub open spec fn insert_step(acts: Seq<(u32, Seq<char>)>, e: TableEntryView) -> StepView {
    match exact_key(e) {
        None => StepView::Done(Err(TableErrorView::NotSupported)),
        Some(k) => match single_param(e) {
            None => StepView::Done(Err(TableErrorView::NotSupported)),
            Some(ap) => match action_name_of(acts, ap.0) {
                None => StepView::Done(Err(TableErrorView::NotFoundAction)),
                Some(name) => StepView::Call(
                    PendingView::ResolveAction { entry: e, key: k, param: ap.1, action_name: name },
                ),
            },
        },
    }
}

/// The first step of a delete: an absent key fails before any driver call.
pub open spec fn delete_step(s: StoreView, e: TableEntryView) -> StepView {
    match exact_key(e) {
        None => StepView::Done(Err(TableErrorView::NotSupported)),
        Some(k) => if has_key(s, k) {
            StepView::Call(PendingView::Delete { key: k })
        } else {
            StepView::Done(Err(TableErrorView::NotFoundKey))
        },
    }
}

/// The first step of a change of kind `u`.
pub open spec fn apply_step(
    s: StoreView,
    acts: Seq<(u32, Seq<char>)>,
    e: TableEntryView,
    u: UpdateType,
) -> StepView {
    match u {
        UpdateType::Insert => insert_step(acts, e),
        UpdateType::Delete => delete_step(s, e),
        _ => StepView::Done(Err(TableErrorView::NotSupported)),
    }
}

/// The store and the next step once the driver has answered a pending change.
/// The store changes only on a successful insert or delete call.
pub open spec fn resume_step(
    s: StoreView,
    p: PendingView,
    code: u32,
    name: Seq<char>,
    action_id: u32,
) -> (StoreView, StepView) {
    if code != DRIVER_SUCCESS {
        (s, StepView::Done(Err(TableErrorView::Driver { name, code })))
    } else {
        match p {
            PendingView::ResolveAction { entry, key, param, .. } => (
                s,
                StepView::Call(PendingView::Insert { entry, key, action_id, param }),
            ),
            PendingView::Insert { entry, key, .. } => (
                store_put(s, key, entry),
                StepView::Done(Ok(())),
            ),
            PendingView::Delete { key } => (store_remove(s, key), StepView::Done(Ok(()))),
        }
    }
}

/// The bytes of the entry's only exact match field.
fn exact_key_of(entry: &TableEntry) -> (r: Option<Vec<u8>>)
    ensures
        match r {
            Some(k) => exact_key(entry@) == Some(k@),
            None => exact_key(entry@).is_none(),
        },
{
    if entry.match_fields.len() != 1 {
        return None;
    }
    proof {
        assert(entry@.match_fields[0] == entry.match_fields@[0]@);
    }
    match &entry.match_fields[0].field_match_type {
        Some(FieldMatchType::Exact { value }) => Some(copy_bytes(value)),
        _ => None,
    }
}

/// The action id and the only parameter's bytes of a direct action.
fn single_param_of(entry: &TableEntry) -> (r: Option<(u32, Vec<u8>)>)
    ensures
        match r {
            Some(ap) => single_param(entry@) == Some((ap.0, ap.1@)),
            None => single_param(entry@).is_none(),
        },
{
    match &entry.action {
        Some(TableAction::Action(a)) => {
            if a.params.len() != 1 {
                return None;
            }
            proof {
                assert(a@.params[0] == a.params@[0]@);
            }
            Some((a.action_id, copy_bytes(&a.params[0].value)))
        },
        _ => None,
    }
}

pub proof fn lemma_key_index(s: StoreView, k: Seq<u8>, i: int)
    requires
        unique_keys(s),
        0 <= i < s.len(),
        s[i].0 == k,
    ensures
        has_key(s, k),
        key_index(s, k) == i,
{
    assert(has_key(s, k));
    let j = key_index(s, k);
    assert(s[j].0 == k);
}

/// Recording an entry keeps keys unique and makes it what its key looks up.
pub proof fn lemma_store_put(s: StoreView, k: Seq<u8>, e: TableEntryView)
    requires
        unique_keys(s),
    ensures
        unique_keys(store_put(s, k, e)),
        lookup(store_put(s, k, e), k) == Some(e),
{
    let t = store_put(s, k, e);
    if has_key(s, k) {
        let i = key_index(s, k);
        assert forall|a: int, b: int| 0 <= a < t.len() && 0 <= b < t.len() && a != b implies t[a].0
            != t[b].0 by {
            if a != i {
                assert(t[a] == s[a]);
            }
            if b != i {
                assert(t[b] == s[b]);
            }
        }
        lemma_key_index(t, k, i);
    } else {
        let n = s.len() as int;
        assert forall|a: int, b: int| 0 <= a < t.len() && 0 <= b < t.len() && a != b implies t[a].0
            != t[b].0 by {
            if a < n {
                assert(t[a] == s[a]);
            }
            if b < n {
                assert(t[b] == s[b]);
            }
        }
        lemma_key_index(t, k, n);
    }
}

/// Removing a key keeps keys unique and leaves the key unstored.
pub proof fn lemma_store_remove(s: StoreView, k: Seq<u8>)
    requires
        unique_keys(s),
    ensures
        unique_keys(store_remove(s, k)),
        !has_key(store_remove(s, k), k),
{
    let t = store_remove(s, k);
    if has_key(s, k) {
        let i = key_index(s, k);
        assert forall|a: int, b: int| 0 <= a < t.len() && 0 <= b < t.len() && a != b implies t[a].0
            != t[b].0 by {
            let x = if a < i { a } else { a + 1 };
            let y = if b < i { b } else { b + 1 };
            assert(t[a] == s[x] && t[b] == s[y]);
        }
        if has_key(t, k) {
            let j = choose|j: int| 0 <= j < t.len() && t[j].0 == k;
            let x = if j < i { j } else { j + 1 };
            assert(t[j] == s[x]);
        }
    }
}

/// For a well-shaped entry with a known action, when the driver accepts every
/// call: the insert stores the entry under its exact-match bytes, so a read
/// finds exactly it (and of an empty table lists only it); deleting it then
/// leaves nothing under that key; and deleting it once more fails with
/// `NotFoundKey` before any driver call.
pub proof fn lemma_insert_read_delete(
    s: StoreView,
    acts: Seq<(u32, Seq<char>)>,
    e: TableEntryView,
    action_id: u32,
    status_name: Seq<char>,
)
    requires
        unique_keys(s),
        exact_key(e).is_some(),
        single_param(e).is_some(),
        action_name_of(acts, single_param(e).unwrap().0).is_some(),
    ensures
        ({
            let k = exact_key(e).unwrap();
            let param = single_param(e).unwrap().1;
            let name = action_name_of(acts, single_param(e).unwrap().0).unwrap();
            let p1 = PendingView::ResolveAction { entry: e, key: k, param, action_name: name };
            let p2 = PendingView::Insert { entry: e, key: k, action_id, param };
            let p3 = PendingView::Delete { key: k };
            let s2 = store_put(s, k, e);
            let s3 = store_remove(s2, k);
            &&& insert_step(acts, e) == StepView::Call(p1)
            &&& resume_step(s, p1, DRIVER_SUCCESS, status_name, action_id) == (
                s,
                StepView::Call(p2),
            )
            &&& resume_step(s, p2, DRIVER_SUCCESS, status_name, action_id) == (
                s2,
                StepView::Done(Ok(())),
            )
            &&& lookup(s2, k) == Some(e)
            &&& (s.len() == 0 ==> s2.map_values(|p: (Seq<u8>, TableEntryView)| p.1) == seq![e])
            &&& delete_step(s2, e) == StepView::Call(p3)
            &&& resume_step(s2, p3, DRIVER_SUCCESS, status_name, action_id) == (
                s3,
                StepView::Done(Ok(())),
            )
            &&& lookup(s3, k).is_none()
            &&& delete_step(s3, e) == StepView::Done(Err(TableErrorView::NotFoundKey))
        }),
{
    let k = exact_key(e).unwrap();
    let s2 = store_put(s, k, e);
    lemma_store_put(s, k, e);
    lemma_store_remove(s2, k);
    if s.len() == 0 {
        assert(!has_key(s, k));
        assert(s2.map_values(|p: (Seq<u8>, TableEntryView)| p.1) =~= seq![e]);
    }
}

/// One table: its schema and its entry store.
pub struct Table {
    schema: TableSchema,
    entries: Vec<StoredEntry>,
}

impl View for Table {
    type V = StoreView;

    closed spec fn view(&self) -> StoreView {
        self.entries@.map_values(|e: StoredEntry| e@)
    }
}

impl Table {
    /// The schema's actions, by id and driver name.
    pub closed spec fn actions(&self) -> Seq<(u32, Seq<char>)> {
        self.schema.actions@.map_values(|a: ActionSchema| (a.id, a.name@))
    }

    pub closed spec fn table_id(&self) -> u32 {
        self.schema.id
    }

    /// The table's numeric id.
    pub fn id(&self) -> (r: u32)
        ensures
            r == self.table_id(),
    {
        self.schema.id
    }

    /// The schema the table was made with.
    pub fn schema(&self) -> (r: &TableSchema)
        ensures
            r.id == self.table_id(),
    {
        &self.schema
    }

    pub open spec fn wf(&self) -> bool {
        unique_keys(self@)
    }

    /// A table with an empty store.
    pub fn new(schema: TableSchema) -> (r: Table)
        ensures
            r.wf(),
            r@ == Seq::<(Seq<u8>, TableEntryView)>::empty(),
            r.table_id() == schema.id,
            r.actions() == schema.actions@.map_values(|a: ActionSchema| (a.id, a.name@)),
    {
        let r = Table { schema, entries: Vec::new() };
        proof {
            assert(r@ =~= Seq::<(Seq<u8>, TableEntryView)>::empty());
        }
        r
    }

    /// The number of stored entries.
    pub fn len(&self) -> (r: usize)
        ensures
            r == self@.len(),
    {
        self.entries.len()
    }

    /// Copies of the stored entries, in store order.
    pub fn entries(&self) -> (r: Vec<TableEntry>)
        ensures
            r@.map_values(|e: TableEntry| e@) == self@.map_values(|p: (Seq<u8>, TableEntryView)| p.1),
    {
        let mut r: Vec<TableEntry> = Vec::new();
        let mut i: usize = 0;
        while i < self.entries.len()
            invariant
                i <= self.entries@.len(),
                r@.len() == i,
                forall|j: int| 0 <= j < i ==> (#[trigger] r@[j])@ == self.entries@[j].entry@,
            decreases self.entries@.len() - i,
        {
            r.push(self.entries[i].entry.copy());
            i = i + 1;
        }
        proof {
            assert(r@.map_values(|e: TableEntry| e@) =~= self@.map_values(
                |p: (Seq<u8>, TableEntryView)| p.1,
            ));
        }
        r
    }

    /// The entry stored under `key`, if any.
    pub fn get(&self, key: &Vec<u8>) -> (r: Option<TableEntry>)
        requires
            self.wf(),
        ensures
            match r {
                Some(e) => lookup(self@, key@) == Some(e@),
                None => lookup(self@, key@).is_none(),
            },
    {
        match self.find_key(key) {
            Some(i) => {
                proof {
                    lemma_key_index(self@, key@, i as int);
                }
                Some(self.entries[i].entry.copy())
            },
            None => None,
        }
    }

    /// Where `key` is stored, if it is.
    fn find_key(&self, key: &Vec<u8>) -> (r: Option<usize>)
        ensures
            match r {
                Some(i) => i < self@.len() && self@[i as int].0 == key@,
                None => !has_key(self@, key@),
            },
    {
        let mut i: usize = 0;
        while i < self.entries.len()
            invariant
                i <= self.entries@.len(),
                forall|j: int| 0 <= j < i ==> (#[trigger] self@[j]).0 != key@,
            decreases self.entries@.len() - i,
        {
            if bytes_equal(&self.entries[i].key, key) {
                return Some(i);
            }
            i = i + 1;
        }
        None
    }

    /// The driver name of action `id`.
    fn action_name(&self, id: u32) -> (r: Option<String>)
        ensures
            match r {
                Some(n) => action_name_of(self.actions(), id) == Some(n@),
                None => action_name_of(self.actions(), id).is_none(),
            },
    {
        let ghost acts = self.actions();
        let mut j: usize = self.schema.actions.len();
        proof {
            assert(acts.subrange(0, j as int) =~= acts);
        }
        while j > 0
            invariant
                j <= acts.len(),
                acts == self.actions(),
                action_name_of(acts, id) == action_name_of(acts.subrange(0, j as int), id),
            decreases j,
        {
            let ghost sub = acts.subrange(0, j as int);
            proof {
                assert(sub.drop_last() =~= acts.subrange(0, j - 1));
            }
            if self.schema.actions[j - 1].id == id {
                return Some(self.schema.actions[j - 1].name.clone());
            }
            j = j - 1;
        }
        None
    }

    /// Validates an insert and names its first driver call.
    pub fn insert(&self, entry: TableEntry) -> (r: Step)
        ensures
            r@ == insert_step(self.actions(), entry@),
    {
        let key = match exact_key_of(&entry) {
            Some(k) => k,
            None => return Step::Done(Err(TableError::NotSupported)),
        };
        let (action_id, param) = match single_param_of(&entry) {
            Some(ap) => ap,
            None => return Step::Done(Err(TableError::NotSupported)),
        };
        let action_name = match self.action_name(action_id) {
            Some(n) => n,
            None => return Step::Done(Err(TableError::NotFoundAction)),
        };
        Step::Call(Pending::ResolveAction { entry, key, param, action_name })
    }

    /// Validates a delete; a key that is not stored fails here, before any
    /// driver call.
    pub fn delete(&self, entry: TableEntry) -> (r: Step)
        ensures
            r@ == delete_step(self@, entry@),
    {
        let key = match exact_key_of(&entry) {
            Some(k) => k,
            None => return Step::Done(Err(TableError::NotSupported)),
        };
        match self.find_key(&key) {
            Some(_) => Step::Call(Pending::Delete { key }),
            None => Step::Done(Err(TableError::NotFoundKey)),
        }
    }

    /// Starts a change: inserts and deletes are validated, any other kind is
    /// not supported.
    pub fn apply(&self, entry: TableEntry, update: UpdateType) -> (r: Step)
        ensures
            r@ == apply_step(self@, self.actions(), entry@, update),
    {
        match update {
            UpdateType::Insert => self.insert(entry),
            UpdateType::Delete => self.delete(entry),
            _ => Step::Done(Err(TableError::NotSupported)),
        }
    }

    /// Continues a pending change with the driver's reply. The store is written
    /// only after a successful insert or delete call.
    pub fn resume(&mut self, pending: Pending, reply: DriverReply) -> (r: Step)
        requires
            old(self).wf(),
        ensures
            final(self).wf(),
            final(self).table_id() == old(self).table_id(),
            final(self).actions() == old(self).actions(),
            (final(self)@, r@) == resume_step(
                old(self)@,
                pending@,
                reply.code,
                reply.name@,
                reply.action_id,
            ),
    {
        if reply.code != DRIVER_SUCCESS {
            return Step::Done(Err(TableError::Driver { name: reply.name, code: reply.code }));
        }
        match pending {
            Pending::ResolveAction { entry, key, param, .. } => Step::Call(
                Pending::Insert { entry, key, action_id: reply.action_id, param },
            ),
            Pending::Insert { entry, key, .. } => {
                self.put(key, entry);
                Step::Done(Ok(()))
            },
            Pending::Delete { key } => {
                self.remove_key(&key);
                Step::Done(Ok(()))
            },
        }
    }

    /// Records `entry` under `key`.
    fn put(&mut self, key: Vec<u8>, entry: TableEntry)
        requires
            old(self).wf(),
        ensures
            final(self).wf(),
            final(self).schema == old(self).schema,
            final(self)@ == store_put(old(self)@, key@, entry@),
    {
        let ghost s = self@;
        let ghost k = key@;
        let ghost e = entry@;
        match self.find_key(&key) {
            Some(i) => {
                proof {
                    lemma_key_index(s, k, i as int);
                }
                self.entries.set(i, StoredEntry { key, entry });
                proof {
                    assert(self@ =~= s.update(i as int, (k, e)));
                }
            },
            None => {
                self.entries.push(StoredEntry { key, entry });
                proof {
                    assert(self@ =~= s.push((k, e)));
                }
            },
        }
    }

    /// Removes what is stored under `key`.
    fn remove_key(&mut self, key: &Vec<u8>)
        requires
            old(self).wf(),
        ensures
            final(self).wf(),
            final(self).schema == old(self).schema,
            final(self)@ == store_remove(old(self)@, key@),
    {
        let ghost s = self@;
        match self.find_key(key) {
            Some(i) => {
                proof {
                    lemma_key_index(s, key@, i as int);
                }
                self.entries.remove(i);
                proof {
                    assert(self@ =~= s.remove(i as int));
                }
            },
            None => {},
        }
    }
}

} // verus!

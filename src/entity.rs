//! The request data that the core reads: table entries, updates and entities,
//! each with a view over `Seq<u8>` so that contracts compare contents.

use vstd::prelude::*;

verus! {

/// Copies a byte string.
pub fn copy_bytes(b: &Vec<u8>) -> (r: Vec<u8>)
    ensures
        r@ == b@,
{
    let mut r: Vec<u8> = Vec::new();
    let mut i: usize = 0;
    while i < b.len()
        invariant
            i <= b@.len(),
            r@ == b@.subrange(0, i as int),
        decreases b@.len() - i,
    {
        r.push(b[i]);
        i = i + 1;
        proof {
            assert(r@ =~= b@.subrange(0, i as int));
        }
    }
    proof {
        assert(r@ =~= b@);
    }
    r
}

/// Compares two byte strings by contents.
pub fn bytes_equal(a: &Vec<u8>, b: &Vec<u8>) -> (r: bool)
    ensures
        r == (a@ == b@),
{
    if a.len() != b.len() {
        return false;
    }
    let mut i: usize = 0;
    while i < a.len()
        invariant
            a@.len() == b@.len(),
            i <= a@.len(),
            forall|j: int| 0 <= j < i ==> a@[j] == b@[j],
        decreases a@.len() - i,
    {
        if a[i] != b[i] {
            return false;
        }
        i = i + 1;
    }
    proof {
        assert(a@ =~= b@);
    }
    true
}

/// How one match field of an entry is matched.
#[derive(Clone, Debug)]
pub enum FieldMatchType {
    Exact { value: Vec<u8> },
    Ternary { value: Vec<u8>, mask: Vec<u8> },
    Lpm { value: Vec<u8>, prefix_len: i32 },
    Range { low: Vec<u8>, high: Vec<u8> },
    Optional { value: Vec<u8> },
}

pub enum FieldMatchTypeView {
    Exact { value: Seq<u8> },
    Ternary { value: Seq<u8>, mask: Seq<u8> },
    Lpm { value: Seq<u8>, prefix_len: i32 },
    Range { low: Seq<u8>, high: Seq<u8> },
    Optional { value: Seq<u8> },
}

impl View for FieldMatchType {
    type V = FieldMatchTypeView;

    open spec fn view(&self) -> FieldMatchTypeView {
        match self {
            FieldMatchType::Exact { value } => FieldMatchTypeView::Exact { value: value@ },
            FieldMatchType::Ternary { value, mask } => FieldMatchTypeView::Ternary {
                value: value@,
                mask: mask@,
            },
            FieldMatchType::Lpm { value, prefix_len } => FieldMatchTypeView::Lpm {
                value: value@,
                prefix_len: *prefix_len,
            },
            FieldMatchType::Range { low, high } => FieldMatchTypeView::Range {
                low: low@,
                high: high@,
            },
            FieldMatchType::Optional { value } => FieldMatchTypeView::Optional { value: value@ },
        }
    }
}

impl FieldMatchType {
    pub fn copy(&self) -> (r: Self)
        ensures
            r@ == self@,
    {
        match self {
            FieldMatchType::Exact { value } => FieldMatchType::Exact { value: copy_bytes(value) },
            FieldMatchType::Ternary { value, mask } => FieldMatchType::Ternary {
                value: copy_bytes(value),
                mask: copy_bytes(mask),
            },
            FieldMatchType::Lpm { value, prefix_len } => FieldMatchType::Lpm {
                value: copy_bytes(value),
                prefix_len: *prefix_len,
            },
            FieldMatchType::Range { low, high } => FieldMatchType::Range {
                low: copy_bytes(low),
                high: copy_bytes(high),
            },
            FieldMatchType::Optional { value } => FieldMatchType::Optional {
                value: copy_bytes(value),
            },
        }
    }
}

/// One match field of a table entry; `field_match_type` is absent when the client
/// sent none.
#[derive(Clone, Debug)]
pub struct FieldMatch {
    pub field_id: u32,
    pub field_match_type: Option<FieldMatchType>,
}

pub struct FieldMatchView {
    pub field_id: u32,
    pub field_match_type: Option<FieldMatchTypeView>,
}

impl View for FieldMatch {
    type V = FieldMatchView;

    open spec fn view(&self) -> FieldMatchView {
        FieldMatchView {
            field_id: self.field_id,
            field_match_type: match self.field_match_type {
                Some(t) => Some(t@),
                None => None,
            },
        }
    }
}

impl FieldMatch {
    pub fn copy(&self) -> (r: Self)
        ensures
            r@ == self@,
    {
        let field_match_type = match &self.field_match_type {
            Some(t) => Some(t.copy()),
            None => None,
        };
        FieldMatch { field_id: self.field_id, field_match_type }
    }
}

/// One parameter of an action.
#[derive(Clone, Debug)]
pub struct Param {
    pub param_id: u32,
    pub value: Vec<u8>,
}

pub struct ParamView {
    pub param_id: u32,
    pub value: Seq<u8>,
}

impl View for Param {
    type V = ParamView;

    open spec fn view(&self) -> ParamView {
        ParamView { param_id: self.param_id, value: self.value@ }
    }
}

impl Param {
    pub fn copy(&self) -> (r: Self)
        ensures
            r@ == self@,
    {
        Param { param_id: self.param_id, value: copy_bytes(&self.value) }
    }
}

/// An action with its parameters.
#[derive(Clone, Debug)]
pub struct Action {
    pub action_id: u32,
    pub params: Vec<Param>,
}

pub struct ActionView {
    pub action_id: u32,
    pub params: Seq<ParamView>,
}

impl View for Action {
    type V = ActionView;

    open spec fn view(&self) -> ActionView {
        ActionView { action_id: self.action_id, params: self.params@.map_values(|p: Param| p@) }
    }
}

impl Action {
    pub fn copy(&self) -> (r: Self)
        ensures
            r@ == self@,
    {
        let mut params: Vec<Param> = Vec::new();
        let mut i: usize = 0;
        while i < self.params.len()
            invariant
                i <= self.params@.len(),
                params@.len() == i,
                forall|j: int| 0 <= j < i ==> (#[trigger] params@[j])@ == self.params@[j]@,
            decreases self.params@.len() - i,
        {
            params.push(self.params[i].copy());
            i = i + 1;
        }
        proof {
            assert(params@.map_values(|p: Param| p@) =~= self.params@.map_values(|p: Param| p@));
        }
        Action { action_id: self.action_id, params }
    }
}

/// What a table entry does when it matches.
#[derive(Clone, Debug)]
pub enum TableAction {
    Action(Action),
    ActionProfileMemberId(u32),
    ActionProfileGroupId(u32),
}

pub enum TableActionView {
    Action(ActionView),
    ActionProfileMemberId(u32),
    ActionProfileGroupId(u32),
}

impl View for TableAction {
    type V = TableActionView;

    open spec fn view(&self) -> TableActionView {
        match self {
            TableAction::Action(a) => TableActionView::Action(a@),
            TableAction::ActionProfileMemberId(m) => TableActionView::ActionProfileMemberId(*m),
            TableAction::ActionProfileGroupId(g) => TableActionView::ActionProfileGroupId(*g),
        }
    }
}

impl TableAction {
    pub fn copy(&self) -> (r: Self)
        ensures
            r@ == self@,
    {
        match self {
            TableAction::Action(a) => TableAction::Action(a.copy()),
            TableAction::ActionProfileMemberId(m) => TableAction::ActionProfileMemberId(*m),
            TableAction::ActionProfileGroupId(g) => TableAction::ActionProfileGroupId(*g),
        }
    }
}

/// A table entry as a client writes or reads it.
#[derive(Clone, Debug)]
pub struct TableEntry {
    pub table_id: u32,
    pub match_fields: Vec<FieldMatch>,
    pub action: Option<TableAction>,
    pub priority: i32,
}

pub struct TableEntryView {
    pub table_id: u32,
    pub match_fields: Seq<FieldMatchView>,
    pub action: Option<TableActionView>,
    pub priority: i32,
}

impl View for TableEntry {
    type V = TableEntryView;

    open spec fn view(&self) -> TableEntryView {
        TableEntryView {
            table_id: self.table_id,
            match_fields: self.match_fields@.map_values(|m: FieldMatch| m@),
            action: match self.action {
                Some(a) => Some(a@),
                None => None,
            },
            priority: self.priority,
        }
    }
}

impl TableEntry {
    pub fn copy(&self) -> (r: Self)
        ensures
            r@ == self@,
    {
        let mut match_fields: Vec<FieldMatch> = Vec::new();
        let mut i: usize = 0;
        while i < self.match_fields.len()
            invariant
                i <= self.match_fields@.len(),
                match_fields@.len() == i,
                forall|j: int|
                    0 <= j < i ==> (#[trigger] match_fields@[j])@ == self.match_fields@[j]@,
            decreases self.match_fields@.len() - i,
        {
            match_fields.push(self.match_fields[i].copy());
            i = i + 1;
        }
        proof {
            assert(match_fields@.map_values(|m: FieldMatch| m@) =~= self.match_fields@.map_values(
                |m: FieldMatch| m@,
            ));
        }
        let action = match &self.action {
            Some(a) => Some(a.copy()),
            None => None,
        };
        TableEntry { table_id: self.table_id, match_fields, action, priority: self.priority }
    }
}

/// The kind of change that an update asks for.
#[derive(Clone, Copy, Debug, PartialEq, Eq, Structural)]
pub enum UpdateType {
    Unspecified,
    Insert,
    Modify,
    Delete,
}

/// The update kind that a wire code names, if any.
pub open spec fn update_type_of(code: i32) -> Option<UpdateType> {
    if code == 0 {
        Some(UpdateType::Unspecified)
    } else if code == 1 {
        Some(UpdateType::Insert)
    } else if code == 2 {
        Some(UpdateType::Modify)
    } else if code == 3 {
        Some(UpdateType::Delete)
    } else {
        None
    }
}

/// Decodes the wire code of an update kind.
pub fn as_update_type(code: i32) -> (r: Option<UpdateType>)
    ensures
        r == update_type_of(code),
{
    match code {
        0 => Some(UpdateType::Unspecified),
        1 => Some(UpdateType::Insert),
        2 => Some(UpdateType::Modify),
        3 => Some(UpdateType::Delete),
        _ => None,
    }
}

/// An entity of a write or read request. Every kind that the core does not
/// handle, and an absent entity, is `Unsupported`.
#[derive(Clone, Debug)]
pub enum Entity {
    TableEntry(TableEntry),
    Unsupported,
}

pub enum EntityView {
    TableEntry(TableEntryView),
    Unsupported,
}

impl View for Entity {
    type V = EntityView;

    open spec fn view(&self) -> EntityView {
        match self {
            Entity::TableEntry(e) => EntityView::TableEntry(e@),
            Entity::Unsupported => EntityView::Unsupported,
        }
    }
}

/// One update of a write request: its wire-coded kind and its entity.
#[derive(Clone, Debug)]
pub struct Update {
    pub update_type: i32,
    pub entity: Entity,
}

pub struct UpdateView {
    pub update_type: i32,
    pub entity: EntityView,
}

impl View for Update {
    type V = UpdateView;

    open spec fn view(&self) -> UpdateView {
        UpdateView { update_type: self.update_type, entity: self.entity@ }
    }
}

} // verus!

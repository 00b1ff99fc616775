use vnp4rs::entity::{
    Action, Entity, FieldMatch, FieldMatchType, Param, TableAction, TableEntry, Update, UpdateType,
};
use vnp4rs::service::{RpcError, Tables, WriteStep};
use vnp4rs::table::{
    ActionSchema, DriverCall, DriverReply, Step, Table, TableError, TableSchema, DRIVER_SUCCESS,
};

fn schema(id: u32) -> TableSchema {
    TableSchema {
        id,
        name: format!("table_{}", id),
        actions: vec![ActionSchema { id: 20, name: "forward".to_string() }],
    }
}

fn entry(table_id: u32, key: &[u8], action_id: u32, param: &[u8]) -> TableEntry {
    TableEntry {
        table_id,
        match_fields: vec![FieldMatch {
            field_id: 1,
            field_match_type: Some(FieldMatchType::Exact { value: key.to_vec() }),
        }],
        action: Some(TableAction::Action(Action {
            action_id,
            params: vec![Param { param_id: 1, value: param.to_vec() }],
        })),
        priority: 0,
    }
}

/// A pipeline-control double that answers every call with `code` and records the calls.
struct Driver {
    code: u32,
    calls: Vec<DriverCall>,
}

impl Driver {
    fn new(code: u32) -> Self {
        Driver { code, calls: Vec::new() }
    }

    fn reply(&mut self, call: DriverCall) -> DriverReply {
        self.calls.push(call);
        DriverReply { code: self.code, name: format!("status_{}", self.code), action_id: 3 }
    }

    fn run(&mut self, table: &mut Table, e: TableEntry, u: UpdateType) -> Result<(), TableError> {
        let mut step = table.apply(e, u);
        loop {
            match step {
                Step::Done(r) => return r,
                Step::Call(p) => {
                    let reply = self.reply(p.call());
                    step = table.resume(p, reply);
                }
            }
        }
    }
}

fn write(tables: &mut Tables, driver: &mut Driver, updates: Vec<Update>) -> Result<(), RpcError> {
    let mut step = tables.write(updates);
    loop {
        match step {
            WriteStep::Done(r) => return r,
            WriteStep::Call(run) => {
                let reply = driver.reply(run.call());
                step = tables.write_resume(run, reply);
            }
        }
    }
}

#[test]
fn insert_then_read_then_delete() {
    let mut t = Table::new(schema(1));
    let mut d = Driver::new(DRIVER_SUCCESS);
    d.run(&mut t, entry(1, &[10, 0, 0, 1], 20, &[7]), UpdateType::Insert).unwrap();
    assert_eq!(d.calls.len(), 2);
    match &d.calls[0] {
        DriverCall::GetActionId { action_name } => assert_eq!(action_name, "forward"),
        _ => panic!("first call resolves the action"),
    }
    match &d.calls[1] {
        DriverCall::Insert { key, action_id, param } => {
            assert_eq!(key, &vec![10, 0, 0, 1]);
            assert_eq!(*action_id, 3);
            assert_eq!(param, &vec![7]);
        }
        _ => panic!("second call inserts"),
    }
    let listed = t.entries();
    assert_eq!(listed.len(), 1);
    assert_eq!(listed[0].match_fields.len(), 1);
    assert!(t.get(&vec![10, 0, 0, 1]).is_some());
    d.run(&mut t, entry(1, &[10, 0, 0, 1], 20, &[7]), UpdateType::Delete).unwrap();
    assert!(matches!(d.calls[2], DriverCall::Delete { .. }));
    assert!(t.get(&vec![10, 0, 0, 1]).is_none());
    assert_eq!(t.len(), 0);
}

#[test]
fn delete_of_absent_key_makes_no_driver_call() {
    let mut t = Table::new(schema(1));
    let mut d = Driver::new(DRIVER_SUCCESS);
    let r = d.run(&mut t, entry(1, &[1], 20, &[7]), UpdateType::Delete);
    assert!(matches!(r, Err(TableError::NotFoundKey)));
    assert!(d.calls.is_empty());
}

#[test]
fn insert_same_key_replaces_entry() {
    let mut t = Table::new(schema(1));
    let mut d = Driver::new(DRIVER_SUCCESS);
    d.run(&mut t, entry(1, &[1], 20, &[7]), UpdateType::Insert).unwrap();
    d.run(&mut t, entry(1, &[1], 20, &[8]), UpdateType::Insert).unwrap();
    assert_eq!(t.len(), 1);
    match t.get(&vec![1]).unwrap().action {
        Some(TableAction::Action(a)) => assert_eq!(a.params[0].value, vec![8]),
        _ => panic!("stored entry has its action"),
    }
}

#[test]
fn shapes_that_are_not_supported() {
    let t = Table::new(schema(1));
    let mut two_fields = entry(1, &[1], 20, &[7]);
    two_fields.match_fields.push(two_fields.match_fields[0].clone());
    let mut ternary = entry(1, &[1], 20, &[7]);
    ternary.match_fields[0].field_match_type = Some(FieldMatchType::Ternary { value: vec![1], mask: vec![255] });
    let mut no_type = entry(1, &[1], 20, &[7]);
    no_type.match_fields[0].field_match_type = None;
    let mut no_action = entry(1, &[1], 20, &[7]);
    no_action.action = None;
    let mut member = entry(1, &[1], 20, &[7]);
    member.action = Some(TableAction::ActionProfileMemberId(4));
    let mut two_params = entry(1, &[1], 20, &[7]);
    if let Some(TableAction::Action(a)) = &mut two_params.action {
        a.params.push(Param { param_id: 2, value: vec![9] });
    }
    for e in [two_fields, ternary, no_type, no_action, member, two_params] {
        assert!(matches!(t.apply(e, UpdateType::Insert), Step::Done(Err(TableError::NotSupported))));
    }
    assert!(matches!(t.apply(entry(1, &[1], 20, &[7]), UpdateType::Modify), Step::Done(Err(TableError::NotSupported))));
    let mut lpm = entry(1, &[1], 20, &[7]);
    lpm.match_fields[0].field_match_type = Some(FieldMatchType::Lpm { value: vec![1], prefix_len: 8 });
    assert!(matches!(t.apply(lpm, UpdateType::Delete), Step::Done(Err(TableError::NotSupported))));
}

#[test]
fn unknown_action_is_not_found() {
    let t = Table::new(schema(1));
    assert!(matches!(t.apply(entry(1, &[1], 99, &[7]), UpdateType::Insert), Step::Done(Err(TableError::NotFoundAction))));
}

#[test]
fn driver_failure_leaves_store_unchanged() {
    let mut t = Table::new(schema(1));
    let mut bad = Driver::new(5);
    let r = bad.run(&mut t, entry(1, &[1], 20, &[7]), UpdateType::Insert);
    match r {
        Err(TableError::Driver { name, code }) => {
            assert_eq!(code, 5);
            assert_eq!(name, "status_5");
        }
        _ => panic!("driver error expected"),
    }
    assert_eq!(bad.calls.len(), 1);
    assert_eq!(t.len(), 0);
    let mut good = Driver::new(DRIVER_SUCCESS);
    good.run(&mut t, entry(1, &[1], 20, &[7]), UpdateType::Insert).unwrap();
    let r = bad.run(&mut t, entry(1, &[1], 20, &[7]), UpdateType::Delete);
    assert!(matches!(r, Err(TableError::Driver { code: 5, .. })));
    assert_eq!(t.len(), 1);
}

#[test]
fn resolve_failure_stops_before_insert() {
    let mut t = Table::new(schema(1));
    let step = t.apply(entry(1, &[1], 20, &[7]), UpdateType::Insert);
    let p = match step {
        Step::Call(p) => p,
        _ => panic!("a call is owed"),
    };
    let next = t.resume(p, DriverReply { code: 2, name: "bad".to_string(), action_id: 0 });
    assert!(matches!(next, Step::Done(Err(TableError::Driver { code: 2, .. }))));
    assert_eq!(t.len(), 0);
}

fn device_tables() -> Tables {
    let mut ts = Tables::new();
    ts.insert(Table::new(schema(1)));
    ts.insert(Table::new(schema(2)));
    ts
}

#[test]
fn write_stops_at_unknown_table_keeping_earlier_updates() {
    let mut ts = device_tables();
    let mut d = Driver::new(DRIVER_SUCCESS);
    let updates = vec![
        Update { update_type: 1, entity: Entity::TableEntry(entry(1, &[1], 20, &[7])) },
        Update { update_type: 1, entity: Entity::TableEntry(entry(99, &[2], 20, &[7])) },
    ];
    let r = write(&mut ts, &mut d, updates);
    assert!(matches!(r, Err(RpcError::TableNotFound(99))));
    assert!(ts.get(1).unwrap().get(&vec![1]).is_some());
}

#[test]
fn write_applies_all_updates_in_order() {
    let mut ts = device_tables();
    let mut d = Driver::new(DRIVER_SUCCESS);
    let updates = vec![
        Update { update_type: 1, entity: Entity::TableEntry(entry(1, &[1], 20, &[7])) },
        Update { update_type: 1, entity: Entity::TableEntry(entry(2, &[2], 20, &[7])) },
        Update { update_type: 3, entity: Entity::TableEntry(entry(1, &[1], 20, &[7])) },
    ];
    assert!(write(&mut ts, &mut d, updates).is_ok());
    assert_eq!(ts.get(1).unwrap().len(), 0);
    assert_eq!(ts.get(2).unwrap().len(), 1);
    assert_eq!(d.calls.len(), 5);
    assert!(write(&mut ts, &mut d, vec![]).is_ok());
}

#[test]
fn write_rejects_bad_update_type_and_entity() {
    let mut ts = device_tables();
    let mut d = Driver::new(DRIVER_SUCCESS);
    let bad_type = vec![Update { update_type: 9, entity: Entity::TableEntry(entry(1, &[1], 20, &[7])) }];
    assert!(matches!(write(&mut ts, &mut d, bad_type), Err(RpcError::InvalidUpdateType)));
    let other = vec![Update { update_type: 1, entity: Entity::Unsupported }];
    assert!(matches!(write(&mut ts, &mut d, other), Err(RpcError::UnsupportedEntity)));
    let missing = vec![Update { update_type: 3, entity: Entity::TableEntry(entry(1, &[1], 20, &[7])) }];
    assert!(matches!(write(&mut ts, &mut d, missing), Err(RpcError::ApplyFailed(TableError::NotFoundKey))));
    let failing = vec![Update { update_type: 1, entity: Entity::TableEntry(entry(1, &[1], 20, &[7])) }];
    let mut bad = Driver::new(4);
    assert!(matches!(write(&mut ts, &mut bad, failing), Err(RpcError::ApplyFailed(TableError::Driver { code: 4, .. }))));
    assert!(d.calls.is_empty());
}

#[test]
fn read_lists_three_entries_one_per_message() {
    let mut ts = device_tables();
    let mut d = Driver::new(DRIVER_SUCCESS);
    let updates = (1u8..=3)
        .map(|k| Update { update_type: 1, entity: Entity::TableEntry(entry(1, &[k], 20, &[k])) })
        .collect();
    write(&mut ts, &mut d, updates).unwrap();
    let msgs = ts.read(&vec![Entity::TableEntry(entry(1, &[], 0, &[]))]);
    assert_eq!(msgs.len(), 3);
    let mut keys: Vec<Vec<u8>> = msgs
        .into_iter()
        .map(|m| match m.unwrap().match_fields[0].field_match_type.clone() {
            Some(FieldMatchType::Exact { value }) => value,
            _ => panic!("exact match expected"),
        })
        .collect();
    keys.sort();
    assert_eq!(keys, vec![vec![1], vec![2], vec![3]]);
}

#[test]
fn read_stops_at_unknown_table_and_skips_other_entities() {
    let mut ts = device_tables();
    let mut d = Driver::new(DRIVER_SUCCESS);
    write(&mut ts, &mut d, vec![Update { update_type: 1, entity: Entity::TableEntry(entry(2, &[5], 20, &[1])) }]).unwrap();
    let msgs = ts.read(&vec![
        Entity::Unsupported,
        Entity::TableEntry(entry(2, &[], 0, &[])),
        Entity::TableEntry(entry(42, &[], 0, &[])),
        Entity::TableEntry(entry(2, &[], 0, &[])),
    ]);
    assert_eq!(msgs.len(), 2);
    assert!(msgs[0].is_ok());
    assert!(matches!(msgs[1], Err(RpcError::TableNotFound(42))));
    assert!(ts.read(&vec![]).is_empty());
}

#[test]
fn tables_replace_same_id() {
    let mut ts = device_tables();
    assert_eq!(ts.len(), 2);
    ts.insert(Table::new(schema(2)));
    assert_eq!(ts.len(), 2);
    assert_eq!(ts.find(2), Some(1));
    assert!(ts.get(3).is_none());
    assert_eq!(ts.get(1).unwrap().id(), 1);
    assert_eq!(ts.get(1).unwrap().schema().name, "table_1");
}

use cql_model::binder::{bind_single, BindError};
use cql_model::descriptor::{DescriptorError, FieldDef, ModelDescriptor};
use cql_model::facade::{DriverError, DriverResult, MapperError, Statement};
use cql_model::hydrator::HydrationError;
use cql_model::registry::{RegisterError, Registry};
use cql_model::value::{find_entry, Entry, FieldKind, Record, Row, Timespec, Value};

fn field(name: &str, kind: FieldKind) -> FieldDef {
    FieldDef { name: name.to_string(), kind }
}

fn user_fields() -> Vec<FieldDef> {
    vec![
        field("id", FieldKind::Int),
        field("name", FieldKind::Text),
        field("active", FieldKind::Bool),
        field("updated_at", FieldKind::Timestamp),
    ]
}

fn users() -> ModelDescriptor {
    ModelDescriptor::new("users".to_string(), user_fields()).unwrap()
}

fn entry(name: &str, value: Value) -> Entry {
    Entry { name: name.to_string(), value }
}

fn text(s: &str) -> Value {
    Value::Text(s.to_string())
}

fn user(id: i64, name: &str, active: bool) -> Record {
    Record {
        entries: vec![
            entry("id", Value::Int(id)),
            entry("name", text(name)),
            entry("active", Value::Bool(active)),
            entry("updated_at", Value::Timestamp(Timespec { sec: 0, nsec: 0 })),
        ],
    }
}

fn get(r: &Record, name: &str) -> Option<Value> {
    find_entry(&r.entries, &name.to_string())
}

/// A store that keeps rows in memory and runs the statements the library builds.
struct MemoryStore {
    rows: Vec<Row>,
}

impl MemoryStore {
    fn new() -> MemoryStore {
        MemoryStore { rows: Vec::new() }
    }

    fn execute(&mut self, d: &ModelDescriptor, st: &Statement) -> DriverResult {
        let q = st.query.as_str();
        if q.starts_with("INSERT") {
            let entries: Vec<Entry> = d
                .fields()
                .iter()
                .zip(st.params.iter())
                .map(|(f, v)| Entry { name: f.name.clone(), value: v.clone() })
                .collect();
            let id = entries.iter().find(|e| e.name == "id").unwrap().value.clone();
            self.rows.retain(|r| find_entry(&r.entries, &"id".to_string()) != Some(id.clone()));
            self.rows.push(Row { entries });
            Ok(None)
        } else if q.starts_with("DELETE") {
            let id = st.params[0].clone();
            self.rows.retain(|r| find_entry(&r.entries, &"id".to_string()) != Some(id.clone()));
            Ok(None)
        } else if q.starts_with("SELECT") {
            let after = &q[q.find(" WHERE ").unwrap() + 7..];
            let column = after[..after.find(" = ?").unwrap()].to_string();
            let want = st.params[0].clone();
            let found: Vec<Row> = self
                .rows
                .iter()
                .filter(|r| find_entry(&r.entries, &column) == Some(want.clone()))
                .cloned()
                .collect();
            Ok(Some(found))
        } else {
            Err(DriverError { message: "unknown statement".to_string() })
        }
    }

    fn save(&mut self, d: &ModelDescriptor, r: Record, now: Timespec) -> Result<(), MapperError> {
        let st = d.save_statement(r, now)?;
        let res = self.execute(d, &st);
        d.finish_write(res)
    }

    fn delete(&mut self, d: &ModelDescriptor, r: &Record) -> Result<(), MapperError> {
        let st = d.delete_statement(r)?;
        let res = self.execute(d, &st);
        d.finish_write(res)
    }

    fn find_by_id(&mut self, d: &ModelDescriptor, id: Value) -> Result<Option<Record>, MapperError> {
        let st = d.find_by_id_statement(id);
        let res = self.execute(d, &st);
        d.finish_find_by_id(res)
    }

    fn find_by_column(&mut self, d: &ModelDescriptor, c: &str, v: Value) -> Result<Vec<Record>, MapperError> {
        let st = d.find_by_column_statement(&c.to_string(), v)?;
        let res = self.execute(d, &st);
        d.finish_find_by_column(res)
    }
}

#[test]
fn templates_have_the_exact_grammar() {
    let d = users();
    let t = d.templates();
    assert_eq!(t.find_by_id, "SELECT * FROM users WHERE id = ? ALLOW FILTERING;");
    assert_eq!(t.find_by_column, "SELECT * FROM users WHERE {} = ? ALLOW FILTERING;");
    assert_eq!(t.insert, "INSERT INTO users (id, name, active, updated_at) VALUES (?, ?, ?, ?);");
    assert_eq!(t.delete, "DELETE FROM users WHERE id = ?;");
    assert_eq!(
        t.render_find_by_column(&"name".to_string()),
        "SELECT * FROM users WHERE name = ? ALLOW FILTERING;"
    );
}

#[test]
fn insert_template_of_a_single_field_table() {
    let d = ModelDescriptor::new(
        "stamps".to_string(),
        vec![field("updated_at", FieldKind::Timestamp), field("id", FieldKind::Text)],
    )
    .unwrap();
    assert_eq!(d.templates().insert, "INSERT INTO stamps (updated_at, id) VALUES (?, ?);");
    assert_eq!(d.table_name(), "stamps");
    assert_eq!(d.fields().len(), 2);
}

#[test]
fn descriptor_errors() {
    let e = |fields: Vec<FieldDef>| ModelDescriptor::new("t".to_string(), fields).unwrap_err();
    assert_eq!(e(vec![]), DescriptorError::NoFields);
    assert_eq!(
        e(vec![field("id", FieldKind::Int), field("id", FieldKind::Text)]),
        DescriptorError::DuplicateField
    );
    assert_eq!(
        e(vec![field("key", FieldKind::Int), field("updated_at", FieldKind::Timestamp)]),
        DescriptorError::MissingId
    );
    assert_eq!(e(vec![field("id", FieldKind::Int)]), DescriptorError::MissingUpdatedAt);
    assert_eq!(
        e(vec![field("id", FieldKind::Int), field("updated_at", FieldKind::Int)]),
        DescriptorError::MissingUpdatedAt
    );
}

#[test]
fn round_trip_save_then_find() {
    let d = users();
    let mut store = MemoryStore::new();
    let now = Timespec { sec: 1_700_000_000, nsec: 250 };
    store.save(&d, user(7, "ada", true), now).unwrap();
    let found = store.find_by_id(&d, Value::Int(7)).unwrap().unwrap();
    assert_eq!(get(&found, "id"), Some(Value::Int(7)));
    assert_eq!(get(&found, "name"), Some(text("ada")));
    assert_eq!(get(&found, "active"), Some(Value::Bool(true)));
    assert_eq!(get(&found, "updated_at"), Some(Value::Timestamp(now)));
    match get(&found, "updated_at") {
        Some(Value::Timestamp(t)) => assert!((t.sec, t.nsec) >= (now.sec, now.nsec)),
        other => panic!("no timestamp: {:?}", other),
    }
}

#[test]
fn save_overwrites_updated_at_and_upserts() {
    let d = users();
    let mut store = MemoryStore::new();
    store.save(&d, user(1, "a", true), Timespec { sec: 10, nsec: 0 }).unwrap();
    store.save(&d, user(1, "b", false), Timespec { sec: 20, nsec: 5 }).unwrap();
    assert_eq!(store.rows.len(), 1);
    let found = store.find_by_id(&d, Value::Int(1)).unwrap().unwrap();
    assert_eq!(get(&found, "name"), Some(text("b")));
    assert_eq!(get(&found, "updated_at"), Some(Value::Timestamp(Timespec { sec: 20, nsec: 5 })));
}

#[test]
fn delete_then_find_gives_none() {
    let d = users();
    let mut store = MemoryStore::new();
    let r = user(3, "x", false);
    store.save(&d, r.clone(), Timespec { sec: 1, nsec: 0 }).unwrap();
    store.delete(&d, &r).unwrap();
    assert_eq!(store.find_by_id(&d, Value::Int(3)).unwrap(), None);
}

#[test]
fn find_by_column_returns_all_matches() {
    let d = users();
    let mut store = MemoryStore::new();
    let now = Timespec { sec: 5, nsec: 0 };
    store.save(&d, user(1, "same", true), now).unwrap();
    store.save(&d, user(2, "other", true), now).unwrap();
    store.save(&d, user(3, "same", false), now).unwrap();
    store.save(&d, user(4, "same", true), now).unwrap();
    let found = store.find_by_column(&d, "name", text("same")).unwrap();
    let mut ids: Vec<i64> = found
        .iter()
        .map(|r| match get(r, "id") {
            Some(Value::Int(i)) => i,
            _ => panic!("no id"),
        })
        .collect();
    ids.sort();
    assert_eq!(ids, vec![1, 3, 4]);
}

#[test]
fn empty_results_are_not_errors() {
    let d = users();
    let mut store = MemoryStore::new();
    assert_eq!(store.find_by_id(&d, Value::Int(99)).unwrap(), None);
    assert_eq!(store.find_by_column(&d, "name", text("nobody")).unwrap(), vec![]);
    assert_eq!(d.finish_find_by_id(Ok(None)).unwrap(), None);
    assert_eq!(d.finish_find_by_id(Ok(Some(vec![]))).unwrap(), None);
    assert_eq!(d.finish_find_by_column(Ok(None)).unwrap(), vec![]);
    assert_eq!(d.from_rows(None).unwrap(), vec![]);
}

#[test]
fn insert_params_follow_descriptor_order() {
    let d = users();
    let shuffled = Record {
        entries: vec![
            entry("updated_at", Value::Timestamp(Timespec { sec: 0, nsec: 0 })),
            entry("active", Value::Bool(false)),
            entry("name", text("c")),
            entry("id", Value::Int(42)),
        ],
    };
    let params = d.bind_for_insert(&shuffled).unwrap();
    assert_eq!(
        params,
        vec![
            Value::Int(42),
            text("c"),
            Value::Bool(false),
            Value::Timestamp(Timespec { sec: 0, nsec: 0 })
        ]
    );
    let now = Timespec { sec: 9, nsec: 1 };
    let st = d.save_statement(shuffled, now).unwrap();
    assert_eq!(st.query, "INSERT INTO users (id, name, active, updated_at) VALUES (?, ?, ?, ?);");
    assert_eq!(st.params, vec![Value::Int(42), text("c"), Value::Bool(false), Value::Timestamp(now)]);
}

#[test]
fn bind_errors() {
    let d = users();
    let missing = Record { entries: vec![entry("id", Value::Int(1)), entry("name", text("n"))] };
    assert_eq!(d.bind_for_insert(&missing), Err(BindError::MissingField("active".to_string())));
    let wrong = Record {
        entries: vec![
            entry("id", Value::Int(1)),
            entry("name", Value::Int(2)),
            entry("active", Value::Bool(true)),
            entry("updated_at", Value::Timestamp(Timespec { sec: 0, nsec: 0 })),
        ],
    };
    assert_eq!(d.bind_for_insert(&wrong), Err(BindError::TypeMismatch("name".to_string())));
    let no_id = Record { entries: vec![entry("name", text("n"))] };
    assert_eq!(
        d.delete_statement(&no_id),
        Err(MapperError::Bind(BindError::MissingField("id".to_string())))
    );
    assert_eq!(
        d.save_statement(missing, Timespec { sec: 1, nsec: 0 }),
        Err(MapperError::Bind(BindError::MissingField("active".to_string())))
    );
}

#[test]
fn statements_bind_one_value() {
    let d = users();
    let st = d.find_by_id_statement(Value::Int(5));
    assert_eq!(st.query, "SELECT * FROM users WHERE id = ? ALLOW FILTERING;");
    assert_eq!(st.params, vec![Value::Int(5)]);
    let st = d.delete_statement(&user(5, "q", true)).unwrap();
    assert_eq!(st.query, "DELETE FROM users WHERE id = ?;");
    assert_eq!(st.params, vec![Value::Int(5)]);
    assert_eq!(bind_single(text("v")), vec![text("v")]);
}

#[test]
fn find_by_column_rejects_unknown_column() {
    let d = users();
    let r = d.find_by_column_statement(&"name; DROP TABLE users".to_string(), text("x"));
    assert_eq!(r, Err(MapperError::UnknownColumn("name; DROP TABLE users".to_string())));
    let st = d.find_by_column_statement(&"active".to_string(), Value::Bool(true)).unwrap();
    assert_eq!(st.query, "SELECT * FROM users WHERE active = ? ALLOW FILTERING;");
    assert_eq!(st.params, vec![Value::Bool(true)]);
}

#[test]
fn missing_column_fails_hydration() {
    let d = users();
    let partial = Row { entries: vec![entry("id", Value::Int(1)), entry("name", text("n"))] };
    let full = Row {
        entries: vec![
            entry("id", Value::Int(2)),
            entry("name", text("m")),
            entry("active", Value::Bool(true)),
            entry("updated_at", Value::Timestamp(Timespec { sec: 0, nsec: 0 })),
        ],
    };
    let expected = MapperError::Hydration(HydrationError::MissingColumn("active".to_string()));
    assert_eq!(d.finish_find_by_id(Ok(Some(vec![partial.clone()]))), Err(expected.clone()));
    assert_eq!(d.finish_find_by_column(Ok(Some(vec![full.clone(), partial.clone()]))), Err(expected));
    assert_eq!(
        d.from_rows(Some(vec![full.clone(), partial])),
        Err(HydrationError::MissingColumn("active".to_string()))
    );
    assert_eq!(d.from_rows(Some(vec![full.clone(), full])).unwrap().len(), 2);
}

#[test]
fn hydration_type_mismatch() {
    let d = users();
    let row = Row {
        entries: vec![
            entry("id", Value::Int(2)),
            entry("name", text("m")),
            entry("active", text("yes")),
            entry("updated_at", Value::Timestamp(Timespec { sec: 0, nsec: 0 })),
        ],
    };
    assert_eq!(d.hydrate(&row), Err(HydrationError::TypeMismatch("active".to_string())));
}

#[test]
fn hydration_keeps_declaration_order_and_ignores_extra_columns() {
    let d = users();
    let row = Row {
        entries: vec![
            entry("extra", Value::Int(0)),
            entry("updated_at", Value::Timestamp(Timespec { sec: 3, nsec: 4 })),
            entry("active", Value::Bool(false)),
            entry("name", text("z")),
            entry("id", Value::Int(8)),
        ],
    };
    let rec = d.hydrate(&row).unwrap();
    let names: Vec<String> = rec.entries.iter().map(|e| e.name.clone()).collect();
    assert_eq!(names, vec!["id", "name", "active", "updated_at"]);
    assert_eq!(get(&rec, "id"), Some(Value::Int(8)));
}

#[test]
fn driver_errors_pass_through() {
    let d = users();
    let err = DriverError { message: "timeout".to_string() };
    assert_eq!(d.finish_find_by_id(Err(err.clone())), Err(MapperError::Driver(err.clone())));
    assert_eq!(d.finish_find_by_column(Err(err.clone())), Err(MapperError::Driver(err.clone())));
    assert_eq!(d.finish_write(Err(err.clone())), Err(MapperError::Driver(err)));
    assert_eq!(d.finish_write(Ok(None)), Ok(()));
}

#[test]
fn stamp_sets_updated_at() {
    let d = users();
    let mut r = user(1, "s", true);
    let now = Timespec { sec: 77, nsec: 8 };
    d.stamp(&mut r, now);
    assert_eq!(get(&r, "updated_at"), Some(Value::Timestamp(now)));
    assert_eq!(get(&r, "name"), Some(text("s")));
    assert_eq!(r.entries.len(), 4);
    assert_eq!(r.entries[3], entry("updated_at", Value::Timestamp(now)));
    let mut bare = Record { entries: vec![entry("id", Value::Int(2))] };
    d.stamp(&mut bare, now);
    assert_eq!(bare.entries, vec![entry("id", Value::Int(2)), entry("updated_at", Value::Timestamp(now))]);
}

#[test]
fn reregistration_keeps_the_first_definition() {
    let mut reg = Registry::new();
    assert!(reg.get(&"User".to_string()).is_none());
    reg.register("User".to_string(), "users".to_string(), user_fields()).unwrap();
    assert_eq!(reg.register("User".to_string(), "users".to_string(), user_fields()), Ok(()));
    let mut other = user_fields();
    other.pop();
    other.push(field("updated_at", FieldKind::Timestamp));
    other.push(field("email", FieldKind::Text));
    assert_eq!(
        reg.register("User".to_string(), "users".to_string(), other),
        Err(RegisterError::Conflict("User".to_string()))
    );
    assert_eq!(
        reg.register("User".to_string(), "people".to_string(), user_fields()),
        Err(RegisterError::Conflict("User".to_string()))
    );
    let d = reg.get(&"User".to_string()).unwrap();
    assert_eq!(d.fields().len(), 4);
    assert_eq!(d.table_name(), "users");
    assert_eq!(
        reg.register("Empty".to_string(), "e".to_string(), vec![]),
        Err(RegisterError::Descriptor(DescriptorError::NoFields))
    );
    assert!(reg.get(&"Empty".to_string()).is_none());
}

#[test]
fn value_kinds() {
    assert!(Value::Int(1).is_of_kind(FieldKind::Int));
    assert!(!Value::Int(1).is_of_kind(FieldKind::Text));
    assert!(text("a").is_of_kind(FieldKind::Text));
    assert!(Value::Bool(true).is_of_kind(FieldKind::Bool));
    assert!(Value::Timestamp(Timespec { sec: 0, nsec: 0 }).is_of_kind(FieldKind::Timestamp));
    assert_eq!(text("a").duplicate(), text("a"));
    let e = entry("k", Value::Int(3));
    assert_eq!(e.duplicate(), e);
    assert_eq!(find_entry(&vec![entry("k", Value::Int(1)), entry("k", Value::Int(2))], &"k".to_string()), Some(Value::Int(1)));
}

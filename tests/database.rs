use lit::{
    setup_db, ColumnType, ModelField, ModelSchema, OrmError, QuerySet, Record, Registry, SaveStep,
    Statement, StorageValue,
};
use rusqlite::types::Value;
use rusqlite::{params_from_iter, Connection};

fn to_sql(v: &StorageValue) -> Value {
    match v {
        StorageValue::Text(s) => Value::Text(s.clone()),
        StorageValue::Integer(i) => Value::Integer(*i),
        StorageValue::Real(bits) => Value::Real(f64::from_bits(*bits)),
    }
}

fn from_sql(v: Value) -> StorageValue {
    match v {
        Value::Text(s) => StorageValue::Text(s),
        Value::Integer(i) => StorageValue::Integer(i),
        Value::Real(x) => StorageValue::Real(x.to_bits()),
        other => panic!("unexpected column value {other:?}"),
    }
}

fn execute(conn: &Connection, st: &Statement) -> usize {
    conn.execute(&st.sql, params_from_iter(st.params.iter().map(to_sql))).unwrap()
}

fn query(conn: &Connection, st: &Statement) -> Vec<Vec<StorageValue>> {
    let mut stmt = conn.prepare(&st.sql).unwrap();
    let n = stmt.column_count();
    let mut rows = stmt.query(params_from_iter(st.params.iter().map(to_sql))).unwrap();
    let mut out = Vec::new();
    while let Some(row) = rows.next().unwrap() {
        out.push((0..n).map(|i| from_sql(row.get::<_, Value>(i).unwrap())).collect());
    }
    out
}

fn insert(conn: &Connection, q: &QuerySet, r: &Record) -> Result<Record, OrmError> {
    let st = q.insert(r)?;
    execute(conn, &st);
    let id = conn.last_insert_rowid();
    q.get_result(&query(conn, &q.select_by_id(id)))
}

fn save(conn: &Connection, q: &QuerySet, r: &mut Record) -> Result<(), OrmError> {
    match q.save(r)? {
        SaveStep::Insert(st) => {
            execute(conn, &st);
            let id = conn.last_insert_rowid();
            *r = q.get_result(&query(conn, &q.select_by_id(id)))?;
        }
        SaveStep::Update(st) => {
            execute(conn, &st);
        }
    }
    Ok(())
}

fn get(conn: &Connection, q: &QuerySet, id: i64) -> Result<Record, OrmError> {
    q.get_result(&query(conn, &q.select_by_id(id)))
}

fn select(
    conn: &Connection,
    q: &QuerySet,
    condition: &str,
    params: Vec<StorageValue>,
) -> Result<Vec<Record>, OrmError> {
    q.decode_rows(&query(conn, &q.select(condition, params)))
}

fn person_schema() -> ModelSchema {
    let fields = vec![
        ModelField::new("first_name", ColumnType::Text),
        ModelField::new("last_name", ColumnType::Text),
        ModelField::new("is_staff", ColumnType::Integer),
        ModelField::new("x", ColumnType::Real),
    ];
    ModelSchema::new("Person", fields).unwrap()
}

fn open() -> (Connection, QuerySet) {
    let schema = person_schema();
    let mut registry = Registry::new();
    registry.register(&schema);
    let conn = Connection::open_in_memory().unwrap();
    for stmt in setup_db(&mut registry, ":memory:") {
        conn.execute(&stmt, ()).unwrap();
    }
    (conn, QuerySet::new(schema))
}

fn person(first: &str, last: &str, is_staff: bool, x: f64) -> Record {
    Record {
        id: None,
        values: vec![
            StorageValue::from_text(first.to_string()),
            StorageValue::from_text(last.to_string()),
            StorageValue::from_bool(is_staff),
            StorageValue::from_real_bits(x.to_bits()),
        ],
    }
}

#[test]
fn person_scenario() {
    let (conn, q) = open();
    let mut yolo = person("Yolo", "Swag", false, 0.99);
    assert!(yolo.id.is_none());
    let values = yolo.values.clone();
    save(&conn, &q, &mut yolo).unwrap();
    let id = yolo.id.unwrap();
    assert_ne!(id, 0);
    assert_eq!(yolo.values, values);
    yolo.values[1] = StorageValue::from_text("Swaggins".to_string());
    save(&conn, &q, &mut yolo).unwrap();
    let fetched = get(&conn, &q, id).unwrap();
    assert_eq!(fetched.values[1].as_text(), Some("Swaggins".to_string()));
    let yolos = select(&conn, &q, "first_name=?", vec![StorageValue::from_text("Yolo".to_string())])
        .unwrap();
    assert_eq!(yolos, vec![yolo]);
}

#[test]
fn inserted_record_is_fetched_back_unchanged() {
    let (conn, q) = open();
    for r in [person("", "", true, -2.5), person("A", "B", false, f64::MAX), person("C", "D", true, -1.5)] {
        let stored = insert(&conn, &q, &r).unwrap();
        let id = stored.id.unwrap();
        assert_ne!(id, 0);
        assert_eq!(stored.values, r.values);
        assert_eq!(get(&conn, &q, id).unwrap(), stored);
    }
}

#[test]
fn inserting_twice_makes_two_identities() {
    let (conn, q) = open();
    let r = person("Twin", "One", false, 1.0);
    let a = insert(&conn, &q, &r).unwrap();
    let b = insert(&conn, &q, &r).unwrap();
    assert_ne!(a.id, b.id);
    assert_eq!(insert(&conn, &q, &a), Err(OrmError::State(a.id.unwrap())));
    let twins = select(&conn, &q, "first_name=?", vec![StorageValue::from_text("Twin".to_string())])
        .unwrap();
    assert_eq!(twins.len(), 2);
}

#[test]
fn upsert_twice_keeps_one_row_with_last_values() {
    let (conn, q) = open();
    let mut r = person("Up", "First", false, 2.0);
    r.id = Some(40);
    execute(&conn, &q.upsert(&r).unwrap());
    r.values[1] = StorageValue::from_text("Second".to_string());
    r.values[2] = StorageValue::from_bool(true);
    execute(&conn, &q.upsert(&r).unwrap());
    let rows = select(&conn, &q, "id=?", vec![StorageValue::Integer(40)]).unwrap();
    assert_eq!(rows, vec![r]);
}

#[test]
fn select_filters_in_table_order() {
    let (conn, q) = open();
    let a = insert(&conn, &q, &person("Ann", "X", false, 0.0)).unwrap();
    insert(&conn, &q, &person("Bob", "Y", false, 0.0)).unwrap();
    let c = insert(&conn, &q, &person("Ann", "Z", true, 0.5)).unwrap();
    let anns = select(&conn, &q, "first_name=?", vec![StorageValue::from_text("Ann".to_string())])
        .unwrap();
    assert_eq!(anns, vec![a, c]);
    let none = select(&conn, &q, "first_name=?", vec![StorageValue::from_text("Zed".to_string())])
        .unwrap();
    assert!(none.is_empty());
}

#[test]
fn missing_identity_is_absent_for_find_and_not_found_for_get() {
    let (conn, q) = open();
    insert(&conn, &q, &person("Only", "One", false, 0.0)).unwrap();
    let rows = query(&conn, &q.select_by_id(999));
    assert_eq!(q.find_by_id_result(&rows), Ok(None));
    assert_eq!(q.get_result(&rows), Err(OrmError::NotFound));
}

#[test]
fn test_simple_model() {
    let person_fields = vec![
        ModelField::new("first_name", ColumnType::Text),
        ModelField::new("last_name", ColumnType::Text),
        ModelField::new("is_staff", ColumnType::Integer),
        ModelField::new("company_id", ColumnType::Integer),
    ];
    let persons = ModelSchema::new("Person", person_fields).unwrap();
    let companies =
        ModelSchema::new("Company", vec![ModelField::new("name", ColumnType::Text)]).unwrap();
    let mut registry = Registry::new();
    registry.register(&persons);
    registry.register(&companies);
    let conn = Connection::open_in_memory().unwrap();
    for stmt in setup_db(&mut registry, "./out/test.sqlite") {
        conn.execute(&stmt, ()).unwrap();
    }
    assert_eq!(persons.table_name, "persons");
    let person_q = QuerySet::new(persons);
    let company_q = QuerySet::new(companies);

    let mut yolo = Record {
        id: None,
        values: vec![
            StorageValue::from_text("Yolo".to_string()),
            StorageValue::from_text("Swag".to_string()),
            StorageValue::from_bool(false),
            StorageValue::from_integer(0),
        ],
    };
    assert!(yolo.id.is_none());
    save(&conn, &person_q, &mut yolo).unwrap();
    assert!(yolo.id.is_some());
    yolo.values[1] = StorageValue::from_text("Swaggins".to_string());
    save(&conn, &person_q, &mut yolo).unwrap();
    let yolos = select(
        &conn,
        &person_q,
        "first_name=?",
        vec![StorageValue::from_text("Yolo".to_string())],
    )
    .unwrap();
    assert_eq!(yolos, vec![yolo.clone()]);

    let mut yolocorp =
        Record { id: None, values: vec![StorageValue::from_text("Yolocorp".to_string())] };
    save(&conn, &company_q, &mut yolocorp).unwrap();
    yolo.values[3] = StorageValue::from_integer(yolocorp.id.unwrap());
    let key = yolo.values[3].as_integer().unwrap();
    let st = company_q.foreign_key_lookup(key).unwrap();
    let company = company_q.find_by_id_result(&query(&conn, &st)).unwrap().unwrap();
    assert_eq!(&company.values[0], &yolocorp.values[0]);
}

use lit::{
    ColumnType, DecodeError, ModelField, ModelSchema, OrmError, QuerySet, Record, SaveStep,
    StorageValue,
};

fn person() -> QuerySet {
    let fields = vec![
        ModelField::new("first_name", ColumnType::Text),
        ModelField::new("last_name", ColumnType::Text),
        ModelField::new("is_staff", ColumnType::Integer),
        ModelField::new("x", ColumnType::Real),
    ];
    QuerySet::new(ModelSchema::new("Person", fields).unwrap())
}

fn yolo(id: Option<i64>) -> Record {
    Record {
        id,
        values: vec![
            StorageValue::from_text("Yolo".to_string()),
            StorageValue::from_text("Swag".to_string()),
            StorageValue::from_bool(false),
            StorageValue::from_real_bits(0.99f64.to_bits()),
        ],
    }
}

#[test]
fn decompose_puts_identity_first() {
    let row = yolo(Some(7)).decompose();
    assert_eq!(row.len(), 5);
    assert_eq!(row[0], StorageValue::Integer(7));
    assert_eq!(row[1..].to_vec(), yolo(Some(7)).values);
    assert_eq!(yolo(None).decompose()[0], StorageValue::Integer(0));
}

#[test]
fn reconstruct_reverses_decompose() {
    let q = person();
    for id in [None, Some(1), Some(-5)] {
        let r = yolo(id);
        assert_eq!(Record::reconstruct(&q.schema.fields, &r.decompose()), Ok(r));
    }
}

#[test]
fn wrong_column_count_is_a_decode_error() {
    let q = person();
    let mut row = yolo(Some(1)).decompose();
    row.pop();
    assert_eq!(
        Record::reconstruct(&q.schema.fields, &row),
        Err(DecodeError::ColumnCount { fields: 4, found: 4 })
    );
    assert_eq!(
        Record::reconstruct(&q.schema.fields, &vec![]),
        Err(DecodeError::ColumnCount { fields: 4, found: 0 })
    );
}

#[test]
fn wrong_column_kind_is_a_decode_error() {
    let q = person();
    let mut row = yolo(Some(1)).decompose();
    row[3] = StorageValue::Text("no".to_string());
    assert_eq!(Record::reconstruct(&q.schema.fields, &row), Err(DecodeError::ColumnType(3)));
    let mut row = yolo(Some(1)).decompose();
    row[0] = StorageValue::Text("1".to_string());
    assert_eq!(Record::reconstruct(&q.schema.fields, &row), Err(DecodeError::ColumnType(0)));
}

#[test]
fn insert_refuses_a_record_with_identity() {
    let q = person();
    assert_eq!(q.insert(&yolo(Some(3))), Err(OrmError::State(3)));
}

#[test]
fn insert_binds_field_values_only() {
    let q = person();
    let st = q.insert(&yolo(None)).unwrap();
    assert_eq!(st.sql, q.schema.insert_sql());
    assert_eq!(st.params, yolo(None).values);
}

#[test]
fn records_that_do_not_fit_are_refused() {
    let q = person();
    let mut short = yolo(None);
    short.values.pop();
    assert_eq!(q.insert(&short), Err(OrmError::NotConforming));
    let mut wrong = yolo(Some(2));
    wrong.values[2] = StorageValue::Real(0);
    assert_eq!(q.upsert(&wrong), Err(OrmError::NotConforming));
    assert_eq!(q.upsert(&yolo(Some(0))), Err(OrmError::NotConforming));
    assert_eq!(q.save(&short), Err(OrmError::NotConforming));
}

#[test]
fn upsert_binds_the_whole_row() {
    let q = person();
    let st = q.upsert(&yolo(Some(9))).unwrap();
    assert_eq!(st.sql, q.schema.upsert_sql());
    assert_eq!(st.params, yolo(Some(9)).decompose());
}

#[test]
fn save_inserts_new_and_updates_persisted() {
    let q = person();
    match q.save(&yolo(None)).unwrap() {
        SaveStep::Insert(st) => assert_eq!(st, q.insert(&yolo(None)).unwrap()),
        SaveStep::Update(_) => panic!("a new record is inserted"),
    }
    match q.save(&yolo(Some(4))).unwrap() {
        SaveStep::Update(st) => assert_eq!(st, q.upsert(&yolo(Some(4))).unwrap()),
        SaveStep::Insert(_) => panic!("a persisted record is updated"),
    }
}

#[test]
fn select_by_id_binds_the_identity() {
    let q = person();
    let st = q.select_by_id(12);
    assert_eq!(st.sql, "SELECT * FROM persons WHERE id=? LIMIT 500;");
    assert_eq!(st.params, vec![StorageValue::Integer(12)]);
}

#[test]
fn no_rows_is_absence_for_find_and_not_found_for_get() {
    let q = person();
    let rows: Vec<Vec<StorageValue>> = vec![];
    assert_eq!(q.decode_rows(&rows), Ok(vec![]));
    assert_eq!(q.find_by_id_result(&rows), Ok(None));
    assert_eq!(q.get_result(&rows), Err(OrmError::NotFound));
}

#[test]
fn decode_rows_keeps_order_and_fails_on_a_bad_row() {
    let q = person();
    let rows = vec![yolo(Some(1)).decompose(), yolo(Some(2)).decompose()];
    assert_eq!(q.decode_rows(&rows), Ok(vec![yolo(Some(1)), yolo(Some(2))]));
    assert_eq!(q.get_result(&rows), Ok(yolo(Some(1))));
    assert_eq!(q.find_by_id_result(&rows), Ok(Some(yolo(Some(1)))));
    let mut bad = rows.clone();
    bad.push(vec![StorageValue::Integer(3)]);
    assert_eq!(
        q.decode_rows(&bad),
        Err(OrmError::Decode { row: 2, error: DecodeError::ColumnCount { fields: 4, found: 1 } })
    );
    assert_eq!(
        q.get_result(&bad),
        Err(OrmError::Decode { row: 2, error: DecodeError::ColumnCount { fields: 4, found: 1 } })
    );
}

#[test]
fn foreign_key_zero_refers_to_nothing() {
    let q = person();
    assert_eq!(q.foreign_key_lookup(0), None);
    assert_eq!(q.foreign_key_lookup(5), Some(q.select_by_id(5)));
}

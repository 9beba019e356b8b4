use ankikaji::sql::{upsert_plan, ConflictPolicy, SqlValue};
use ankikaji::{CardMetadata, FieldSpec, FieldType};
use rusqlite::types::Value;
use rusqlite::{params_from_iter, Connection};

fn s(x: &str) -> String {
    x.to_string()
}

fn strings(xs: &[&str]) -> Vec<String> {
    xs.iter().map(|x| s(x)).collect()
}

fn field(name: &str, field_type: FieldType, tags: &[&str]) -> FieldSpec {
    FieldSpec {
        name: s(name),
        field_type,
        metadata: tags.iter().map(|k| (s(k), s(""))).collect(),
    }
}

fn bind(values: &[SqlValue]) -> Vec<Value> {
    values
        .iter()
        .map(|v| match v {
            SqlValue::Text(t) => Value::Text(t.clone()),
            SqlValue::Integer(i) => Value::Integer(*i),
            SqlValue::Boolean(b) => Value::Integer(*b as i64),
        })
        .collect()
}

fn schema() -> CardMetadata {
    CardMetadata {
        name: s("jp"),
        fields: vec![
            field("id", FieldType::Integer, &["Primary Key", "Auto Increment", "Not Null"]),
            field("word", FieldType::String, &["Key", "Not Null", "Unique"]),
            field("definition", FieldType::Text, &[]),
            field("kanji", FieldType::Boolean, &[]),
        ],
    }
}

fn open(m: &CardMetadata) -> Connection {
    let conn = Connection::open_in_memory().unwrap();
    conn.execute(&m.create_table_sql("cards"), []).unwrap();
    conn
}

fn upsert(conn: &Connection, m: &CardMetadata, cols: &[&str], vals: &[&str], policy: ConflictPolicy) {
    let (sql, params) =
        m.upsert_card_sql("cards", &s("word"), &strings(cols), &strings(vals), policy);
    conn.execute(&sql, params_from_iter(bind(&params))).unwrap();
}

fn definition_of(conn: &Connection, word: &str) -> Option<String> {
    conn.query_row(
        "SELECT definition FROM cards WHERE word = ?1",
        [word],
        |row| row.get::<_, Option<String>>(0),
    )
    .unwrap()
}

fn unexported_words(conn: &Connection, m: &CardMetadata) -> Vec<String> {
    let (sql, params) = m.get_unexported_cards_sql("cards");
    assert!(matches!(params[..], [SqlValue::Boolean(false)]));
    let mut stmt = conn.prepare(&sql).unwrap();
    let rows = stmt
        .query_map(params_from_iter(bind(&params)), |row| row.get::<_, String>(1))
        .unwrap();
    rows.map(|r| r.unwrap()).collect()
}

#[test]
fn create_table_is_idempotent() {
    let m = schema();
    let conn = open(&m);
    conn.execute(&m.create_table_sql("cards"), []).unwrap();
    let sql = m.create_table_sql("cards");
    assert!(sql.starts_with("CREATE TABLE IF NOT EXISTS"));
    assert!(sql.contains("\"Export\""));
}

#[test]
fn upsert_plan_columns_values_and_updates() {
    let plan = upsert_plan(
        &s("word"),
        &strings(&["word", "definition"]),
        &strings(&["猫", "cat"]),
        ConflictPolicy::Overwrite,
    );
    assert_eq!(plan.columns, strings(&["word", "definition", "Export"]));
    assert_eq!(plan.values.len(), 3);
    assert!(matches!(&plan.values[0], SqlValue::Text(t) if t == "猫"));
    assert!(matches!(&plan.values[1], SqlValue::Text(t) if t == "cat"));
    assert!(matches!(&plan.values[2], SqlValue::Integer(0)));
    let c = plan.conflict.unwrap();
    assert_eq!(c.key, "word");
    assert_eq!(c.updates, strings(&["definition", "Export"]));
    assert_eq!(c.policy, ConflictPolicy::Overwrite);
}

#[test]
fn create_table_declares_types_and_constraints() {
    let sql = schema().create_table_sql("cards");
    assert!(sql.contains("\"id\" integer"));
    assert!(sql.contains("\"word\" varchar"));
    assert!(sql.contains("\"definition\" text"));
    assert!(sql.contains("\"kanji\" boolean"));
    assert!(sql.contains("PRIMARY KEY"));
    assert!(sql.contains("UNIQUE"));
    assert!(sql.ends_with("\"Export\" boolean DEFAULT 0 )"));
}

#[test]
fn upsert_text_follows_policy() {
    let m = schema();
    let cols = strings(&["word", "definition"]);
    let vals = strings(&["猫", "cat"]);
    let (over, p) = m.upsert_card_sql("cards", &s("word"), &cols, &vals, ConflictPolicy::Overwrite);
    let (coal, _) = m.upsert_card_sql("cards", &s("word"), &cols, &vals, ConflictPolicy::Coalesce);
    assert!(over.contains("ON CONFLICT (\"word\") DO UPDATE SET"));
    assert!(!over.contains("IFNULL"));
    assert!(coal.contains("IFNULL"));
    assert_eq!(p.len(), 3);
    assert!(matches!(p[2], SqlValue::Integer(0)));
}

#[test]
fn overwrite_replaces_stored_definition() {
    let m = schema();
    let conn = open(&m);
    upsert(&conn, &m, &["word", "definition"], &["猫", "cat"], ConflictPolicy::Overwrite);
    upsert(&conn, &m, &["word", "definition"], &["猫", "feline"], ConflictPolicy::Overwrite);
    assert_eq!(definition_of(&conn, "猫"), Some(s("feline")));
    let n: i64 = conn.query_row("SELECT COUNT(*) FROM cards", [], |r| r.get(0)).unwrap();
    assert_eq!(n, 1);
}

#[test]
fn coalescing_keeps_stored_definition() {
    let m = schema();
    let conn = open(&m);
    upsert(&conn, &m, &["word", "definition"], &["猫", "cat"], ConflictPolicy::Coalesce);
    upsert(&conn, &m, &["word", "kanji"], &["猫", "1"], ConflictPolicy::Coalesce);
    assert_eq!(definition_of(&conn, "猫"), Some(s("cat")));
    upsert(&conn, &m, &["word", "definition"], &["猫", "feline"], ConflictPolicy::Coalesce);
    assert_eq!(definition_of(&conn, "猫"), Some(s("feline")));
}

#[test]
fn with_fields_sql_overwrites() {
    let m = schema();
    let conn = open(&m);
    for def in ["cat", "feline"] {
        let (sql, params) = m.insert_or_update_card_with_fields_sql(
            "cards",
            &s("word"),
            &strings(&["word", "definition"]),
            &strings(&["猫", def]),
        );
        conn.execute(&sql, params_from_iter(bind(&params))).unwrap();
    }
    assert_eq!(definition_of(&conn, "猫"), Some(s("feline")));
}

#[test]
fn export_round_trip() {
    let m = schema();
    let conn = open(&m);
    upsert(&conn, &m, &["word"], &["猫"], ConflictPolicy::Overwrite);
    upsert(&conn, &m, &["word"], &["犬"], ConflictPolicy::Overwrite);
    let words = unexported_words(&conn, &m);
    assert_eq!(words, strings(&["猫", "犬"]));
    let tx = m.mark_unexported_cards_tx("cards", &s("word"), &words);
    assert_eq!(tx.len(), 2);
    assert!(matches!(&tx[1].1[..], [SqlValue::Boolean(true), SqlValue::Text(w)] if w == "犬"));
    for (sql, params) in tx {
        conn.execute(&sql, params_from_iter(bind(&params))).unwrap();
    }
    assert!(unexported_words(&conn, &m).is_empty());
    upsert(&conn, &m, &["word", "definition"], &["猫", "cat"], ConflictPolicy::Overwrite);
    assert_eq!(unexported_words(&conn, &m), strings(&["猫"]));
}

#[test]
fn unexported_plan_reads_fields_and_flag() {
    let m = schema();
    let p = m.unexported_cards_plan();
    assert_eq!(p.columns, strings(&["id", "word", "definition", "kanji", "Export"]));
    assert_eq!(p.filter_column, "Export");
    assert!(matches!(p.filter_value, SqlValue::Boolean(false)));
}

#[test]
fn mark_plan_one_update_per_word() {
    let m = schema();
    let plans = m.mark_exported_plan(&s("word"), &strings(&["猫", "犬"]));
    assert_eq!(plans.len(), 2);
    for (p, w) in plans.iter().zip(["猫", "犬"]) {
        assert_eq!(p.set_column, "Export");
        assert!(matches!(p.set_value, SqlValue::Boolean(true)));
        assert_eq!(p.key_column, "word");
        assert!(matches!(&p.key_value, SqlValue::Text(t) if t == w));
    }
}

#[test]
fn insert_card_plan_binds_every_field() {
    let m = schema();
    let p = m.insert_card_plan(&strings(&["1", "猫", "cat", "1"]));
    assert_eq!(p.columns, strings(&["id", "word", "definition", "kanji"]));
    assert_eq!(p.values.len(), 4);
    assert!(p.conflict.is_none());
    let conn = open(&m);
    let (sql, params) = m.insert_card_sql("cards", &strings(&["1", "猫", "cat", "1"]));
    conn.execute(&sql, params_from_iter(bind(&params))).unwrap();
    assert_eq!(definition_of(&conn, "猫"), Some(s("cat")));
}

#[test]
fn full_row_upsert_overwrites() {
    let m = schema();
    let conn = open(&m);
    for def in ["cat", "feline"] {
        let (sql, params) =
            m.insert_or_update_card_sql("cards", &s("word"), &strings(&["1", "猫", def, "0"]));
        conn.execute(&sql, params_from_iter(bind(&params))).unwrap();
    }
    assert_eq!(definition_of(&conn, "猫"), Some(s("feline")));
}

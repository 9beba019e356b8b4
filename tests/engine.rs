use ankikaji::models::SimpleFormat;
use ankikaji::text::cell_text;
use ankikaji::{CardMetadata, FieldSpec, FieldType};

fn s(x: &str) -> String {
    x.to_string()
}

fn field(name: &str, tags: &[(&str, &str)]) -> FieldSpec {
    FieldSpec {
        name: s(name),
        field_type: FieldType::String,
        metadata: tags.iter().map(|(k, v)| (s(k), s(v))).collect(),
    }
}

fn record(entries: &[(&str, &str)]) -> Vec<(String, String)> {
    entries.iter().map(|(k, v)| (s(k), s(v))).collect()
}

fn strings(xs: &[&str]) -> Vec<String> {
    xs.iter().map(|x| s(x)).collect()
}

fn scenario_schema() -> CardMetadata {
    CardMetadata {
        name: s("jp"),
        fields: vec![
            field("word", &[("Key", ""), ("Not Null", ""), ("Unique", "")]),
            field("word_with_reading", &[("Autoruby", "word")]),
            field("kanji", &[("True If Exists", "word_with_reading")]),
        ],
    }
}

#[test]
fn trait_flags_follow_metadata() {
    let f = field(
        "id",
        &[("Primary Key", ""), ("Auto Increment", ""), ("Not Null", "")],
    );
    assert!(f.is_primary_key());
    assert!(f.is_auto_increment());
    assert!(f.is_not_null());
    assert!(!f.is_key());
    assert!(!f.is_unique());
    assert!(!f.is_image());
    assert_eq!(f.autoruby(), None);
    assert_eq!(f.true_if_exists(), None);
    let g = field("reading", &[("Autoruby", "word"), ("True If Exists", "image")]);
    assert_eq!(g.autoruby(), Some(s("word")));
    assert_eq!(g.true_if_exists(), Some(s("image")));
}

#[test]
fn field_type_defaults_to_string() {
    assert_eq!(FieldType::default(), FieldType::String);
}

#[test]
fn main_key_is_first_key_field() {
    let m = scenario_schema();
    assert_eq!(m.get_main_key().name, "word");
}

#[test]
fn simple_format_brackets_reading() {
    assert_eq!(SimpleFormat.format("猫", "ねこ"), " 猫[ねこ] ");
}

#[test]
fn extract_keeps_declaration_order_and_key() {
    let m = CardMetadata {
        name: s("jp"),
        fields: vec![
            field("id", &[("Primary Key", ""), ("Auto Increment", ""), ("Not Null", "")]),
            field("word", &[("Key", ""), ("Not Null", "")]),
            field("definition", &[]),
            field("image", &[]),
        ],
    };
    let r = record(&[("image", "cat.png"), ("word", "猫"), ("extra", "x")]);
    let (cols, vals, key) = m.get_data_from_record(&r).unwrap();
    assert_eq!(cols, strings(&["word", "image"]));
    assert_eq!(vals, strings(&["猫", "cat.png"]));
    assert_eq!(key, "word");
}

#[test]
fn extract_key_is_natural_key_field() {
    let m = scenario_schema();
    let r = record(&[("word", "犬"), ("kanji", "1")]);
    let (_, _, key) = m.get_data_from_record(&r).unwrap();
    assert_eq!(key, "word");
}

#[test]
fn extract_rejects_missing_required_field() {
    let m = CardMetadata {
        name: s("jp"),
        fields: vec![
            field("word", &[("Key", ""), ("Not Null", "")]),
            field("definition", &[("Not Null", "")]),
        ],
    };
    assert!(m.get_data_from_record(&record(&[("word", "猫")])).is_none());
    assert!(m.get_data_from_record(&record(&[("definition", "cat")])).is_none());
}

#[test]
fn extract_rejects_without_natural_key() {
    let m = CardMetadata {
        name: s("jp"),
        fields: vec![field("word", &[("Key", "")]), field("definition", &[])],
    };
    assert!(m.get_data_from_record(&record(&[("definition", "cat")])).is_none());
    let empty = CardMetadata { name: s("jp"), fields: vec![] };
    assert!(empty.get_data_from_record(&record(&[("word", "猫")])).is_none());
}

#[test]
fn image_wrapped_exactly_once() {
    let m = CardMetadata {
        name: s("jp"),
        fields: vec![field("word", &[("Key", "")]), field("image", &[("Image", "")])],
    };
    let (cols, vals) = m
        .preprocess_data(&strings(&["word", "image"]), &strings(&["猫", "cat.png"]), &vec![])
        .unwrap();
    assert_eq!(cols, strings(&["word", "image"]));
    assert_eq!(vals, strings(&["猫", "<img src=\"cat.png\">"]));
}

#[test]
fn absent_image_field_is_not_made_up() {
    let m = CardMetadata {
        name: s("jp"),
        fields: vec![field("word", &[("Key", "")]), field("image", &[("Image", "")])],
    };
    let (cols, vals) = m
        .preprocess_data(&strings(&["word"]), &strings(&["猫"]), &vec![])
        .unwrap();
    assert_eq!(cols, strings(&["word"]));
    assert_eq!(vals, strings(&["猫"]));
}

#[test]
fn annotation_appended_when_it_adds_a_reading() {
    let m = CardMetadata {
        name: s("jp"),
        fields: vec![
            field("word", &[("Key", "")]),
            field("word_with_reading", &[("Autoruby", "word")]),
        ],
    };
    let table = record(&[("猫", "猫[neko]"), ("cat", "cat")]);
    let (cols, vals) = m
        .preprocess_data(&strings(&["word"]), &strings(&["猫"]), &table)
        .unwrap();
    assert_eq!(cols, strings(&["word", "word_with_reading"]));
    assert_eq!(vals, strings(&["猫", "猫[neko]"]));
    let (cols, vals) = m
        .preprocess_data(&strings(&["word"]), &strings(&["cat"]), &table)
        .unwrap();
    assert_eq!(cols, strings(&["word"]));
    assert_eq!(vals, strings(&["cat"]));
}

#[test]
fn explicit_value_wins_over_annotation() {
    let m = scenario_schema();
    let table = record(&[("猫", "猫[neko]")]);
    let (cols, vals) = m
        .preprocess_data(
            &strings(&["word", "word_with_reading"]),
            &strings(&["猫", "mine"]),
            &table,
        )
        .unwrap();
    assert_eq!(cols, strings(&["word", "word_with_reading", "kanji"]));
    assert_eq!(vals, strings(&["猫", "mine", "1"]));
}

#[test]
fn unavailable_annotation_is_skipped_and_reported() {
    let m = scenario_schema();
    let cols = strings(&["word"]);
    let vals = strings(&["猫"]);
    assert_eq!(m.pending_annotation(&cols, &vals, &vec![]), Some(s("猫")));
    let (c, v) = m.preprocess_data(&cols, &vals, &vec![]).unwrap();
    assert_eq!(c, strings(&["word"]));
    assert_eq!(v, strings(&["猫"]));
    let table = record(&[("猫", "猫[neko]")]);
    assert_eq!(m.pending_annotation(&cols, &vals, &table), None);
}

#[test]
fn presence_flag_derivation() {
    let m = CardMetadata {
        name: s("jp"),
        fields: vec![
            field("word", &[("Key", "")]),
            field("image", &[]),
            field("has_image", &[("True If Exists", "image")]),
        ],
    };
    let (cols, vals) = m
        .preprocess_data(&strings(&["word", "image"]), &strings(&["猫", "cat.png"]), &vec![])
        .unwrap();
    assert_eq!(cols, strings(&["word", "image", "has_image"]));
    assert_eq!(vals, strings(&["猫", "cat.png", "1"]));
    let (cols, _) = m
        .preprocess_data(&strings(&["word", "image"]), &strings(&["猫", ""]), &vec![])
        .unwrap();
    assert_eq!(cols, strings(&["word", "image"]));
    let (cols, _) = m
        .preprocess_data(&strings(&["word"]), &strings(&["猫"]), &vec![])
        .unwrap();
    assert_eq!(cols, strings(&["word"]));
}

#[test]
fn derive_twice_is_derive_once() {
    let m = scenario_schema();
    let table = record(&[("猫", "猫[neko]")]);
    let (c1, v1) = m
        .preprocess_data(&strings(&["word"]), &strings(&["猫"]), &table)
        .unwrap();
    let (c2, v2) = m.preprocess_data(&c1, &v1, &table).unwrap();
    assert_eq!(c1, c2);
    assert_eq!(v1, v2);
}

#[test]
fn derive_none_only_when_empty() {
    let empty = CardMetadata { name: s("jp"), fields: vec![] };
    let (cols, vals) = empty
        .preprocess_data(&strings(&["word"]), &strings(&["猫"]), &vec![])
        .unwrap();
    assert_eq!(cols, strings(&["word"]));
    assert_eq!(vals, strings(&["猫"]));
    let m = scenario_schema();
    assert!(m.preprocess_data(&vec![], &vec![], &vec![]).is_none());
}

#[test]
fn end_to_end_word_reading_and_flag() {
    let m = scenario_schema();
    let (cols, vals, key) = m.get_data_from_record(&record(&[("word", "猫")])).unwrap();
    assert_eq!(key, "word");
    let table = record(&[("猫", "猫[neko]")]);
    let (cols, vals) = m.preprocess_data(&cols, &vals, &table).unwrap();
    assert_eq!(cols, strings(&["word", "word_with_reading", "kanji"]));
    assert_eq!(vals, strings(&["猫", "猫[neko]", "1"]));
}

#[test]
fn export_record_fills_missing_cells() {
    let m = scenario_schema();
    let row = record(&[("kanji", "1"), ("word", "猫")]);
    assert_eq!(m.export_record(&row), strings(&["猫", "", "1"]));
}

#[test]
fn cell_text_marks_line_breaks() {
    assert_eq!(cell_text("a\nb\n\n"), "a<br>b");
    assert_eq!(cell_text("x<br><br>"), "x");
    assert_eq!(cell_text("plain"), "plain");
    assert_eq!(cell_text(""), "");
}

#[test]
fn validate_accepts_scenario_schema() {
    assert!(scenario_schema().validate());
}

#[test]
fn validate_rejects_configuration_errors() {
    let no_key = CardMetadata { name: s("jp"), fields: vec![field("word", &[])] };
    assert!(!no_key.validate());
    let two_keys = CardMetadata {
        name: s("jp"),
        fields: vec![field("word", &[("Key", "")]), field("reading", &[("Key", "")])],
    };
    assert!(!two_keys.validate());
    let duplicate = CardMetadata {
        name: s("jp"),
        fields: vec![field("word", &[("Key", "")]), field("word", &[])],
    };
    assert!(!duplicate.validate());
    let unknown_source = CardMetadata {
        name: s("jp"),
        fields: vec![field("word", &[("Key", "")]), field("flag", &[("True If Exists", "image")])],
    };
    assert!(!unknown_source.validate());
}

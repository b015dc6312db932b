use dmdr::extract::rebuild;
use dmdr::index::{get_model_by, IndexError, UuidIndexes};
use dmdr::render::{dump_er_dot, RenderError};
use dmdr::report::{enumerate, show_meta_data, show_model};
use dmdr::schema::{CodeLocation, Field, MetaData, MyModel, Relation, RelationType, Structure};

fn meta(uuid: &str, line: u64) -> MetaData {
    MetaData {
        uuid: uuid.to_string(),
        code: CodeLocation { source_file: "app/models.py".to_string(), line_number: line },
    }
}

fn field(name: &str, uuid: &str) -> Field {
    Field { name: name.to_string(), meta_data: meta(uuid, 7) }
}

fn model(name: &str, uuid: &str, fields: Vec<Field>) -> MyModel {
    MyModel {
        model_name: name.to_lowercase(),
        object_name: name.to_string(),
        app_label: "shop".to_string(),
        db_table: format!("shop_{}", name.to_lowercase()),
        fields,
        meta_data: meta(uuid, 42),
    }
}

fn relation(src: &str, target: &str, kind: RelationType) -> Relation {
    Relation { src_field: src.to_string(), target_model: target.to_string(), relation_type: kind }
}

/// Models A (uuid 1) with field f1 (uuid 10) and B (uuid 2); f1 points at B.
fn sample() -> Structure {
    Structure {
        models: vec![model("A", "1", vec![field("f1", "10")]), model("B", "2", vec![])],
        relations: vec![relation("10", "2", RelationType::ManyToOne)],
    }
}

fn sample_index() -> UuidIndexes {
    UuidIndexes::new(sample()).unwrap()
}

#[test]
fn render_whole_store() {
    let idx = sample_index();
    let dot = dump_er_dot(&idx, None).unwrap();
    assert_eq!(
        dot,
        "digraph ER {\n  \"1\" [label=\"A\"];\n  \"2\" [label=\"B\"];\n  \"1\" -> \"2\" [label=\"ManyToOne\"];\n}\n"
    );
}

#[test]
fn render_focus_filters_nodes_only() {
    let idx = sample_index();
    let dot = dump_er_dot(&idx, Some("2".to_string())).unwrap();
    assert_eq!(
        dot,
        "digraph ER {\n  \"2\" [label=\"B\"];\n  \"1\" -> \"2\" [label=\"ManyToOne\"];\n}\n"
    );
}

#[test]
fn render_twice_is_identical() {
    let idx = sample_index();
    let a = dump_er_dot(&idx, None).unwrap();
    let b = dump_er_dot(&idx, None).unwrap();
    assert_eq!(a.as_bytes(), b.as_bytes());
}

#[test]
fn render_unknown_source_field() {
    let data = Structure {
        models: vec![model("A", "1", vec![])],
        relations: vec![relation("99", "1", RelationType::OneToOne)],
    };
    let idx = UuidIndexes::new(data).unwrap();
    match dump_er_dot(&idx, None) {
        Err(RenderError::UnknownSourceField(f)) => assert_eq!(f, "99"),
        other => panic!("unexpected {:?}", other),
    }
}

#[test]
fn render_relation_labels() {
    let data = Structure {
        models: vec![model("A", "1", vec![field("a", "10"), field("b", "11"), field("c", "12")])],
        relations: vec![
            relation("10", "1", RelationType::OneToOne),
            relation("11", "1", RelationType::OneToMany),
            relation("12", "1", RelationType::ManyToMany),
        ],
    };
    let idx = UuidIndexes::new(data).unwrap();
    let dot = dump_er_dot(&idx, None).unwrap();
    assert!(dot.contains("  \"1\" -> \"1\" [label=\"OneToOne\"];\n"));
    assert!(dot.contains("  \"1\" -> \"1\" [label=\"OneToMany\"];\n"));
    assert!(dot.contains("  \"1\" -> \"1\" [label=\"ManyToMany\"];\n"));
}

#[test]
fn enumerate_with_uuids() {
    let data = sample();
    assert_eq!(enumerate(&data, true), vec!["[M] 1: A", "[F] 10: f1", "[M] 2: B"]);
}

#[test]
fn enumerate_without_uuids() {
    let data = sample();
    assert_eq!(enumerate(&data, false), vec!["[M] A", "[F] f1", "[M] B"]);
}

#[test]
fn enumerate_empty_store() {
    let data = Structure { models: vec![], relations: vec![] };
    assert!(enumerate(&data, true).is_empty());
}

#[test]
fn lookup_by_name_or_uuid() {
    let idx = sample_index();
    assert_eq!(get_model_by(&idx, "A").unwrap().meta_data.uuid, "1");
    assert_eq!(get_model_by(&idx, "1").unwrap().meta_data.uuid, "1");
    assert!(get_model_by(&idx, "nonexistent").is_none());
}

#[test]
fn lookup_prefers_name_over_uuid() {
    // the second model is named "1", which is also the UUID of model A
    let data = Structure {
        models: vec![model("A", "1", vec![]), model("1", "5", vec![])],
        relations: vec![],
    };
    let idx = UuidIndexes::new(data).unwrap();
    assert_eq!(get_model_by(&idx, "1").unwrap().meta_data.uuid, "5");
}

#[test]
fn index_knows_exactly_the_model_uuids() {
    let idx = sample_index();
    assert!(idx.has_model("1"));
    assert!(idx.has_model("2"));
    assert!(!idx.has_model("10"));
    assert!(!idx.has_model("A"));
    assert_eq!(idx.get_model("2").unwrap().object_name, "B");
    assert!(idx.get_model("3").is_none());
    assert!(idx.has_model_name("B"));
    assert!(!idx.has_model_name("2"));
    assert_eq!(idx.get_model_by_name("A").unwrap().meta_data.uuid, "1");
    assert!(idx.get_model_by_name("C").is_none());
}

#[test]
fn field_resolves_to_owner() {
    let data = Structure {
        models: vec![
            model("A", "1", vec![field("f1", "10"), field("f2", "11")]),
            model("B", "2", vec![field("g1", "20")]),
        ],
        relations: vec![],
    };
    let idx = UuidIndexes::new(data).unwrap();
    assert_eq!(idx.get_model_from_field("10").unwrap(), "1");
    assert_eq!(idx.get_model_from_field("11").unwrap(), "1");
    assert_eq!(idx.get_model_from_field("20").unwrap(), "2");
    assert!(idx.get_model_from_field("1").is_none());
}

#[test]
fn duplicate_model_uuid_is_refused() {
    let data = Structure {
        models: vec![model("A", "1", vec![]), model("B", "1", vec![])],
        relations: vec![],
    };
    match UuidIndexes::new(data) {
        Err(IndexError::DuplicateModelUuid(u)) => assert_eq!(u, "1"),
        _ => panic!("expected a duplicate model uuid"),
    }
}

#[test]
fn duplicate_model_name_is_refused() {
    let data = Structure {
        models: vec![model("A", "1", vec![]), model("A", "2", vec![])],
        relations: vec![],
    };
    match UuidIndexes::new(data) {
        Err(IndexError::DuplicateModelName(n)) => assert_eq!(n, "A"),
        _ => panic!("expected a duplicate model name"),
    }
}

#[test]
fn duplicate_field_uuid_is_refused() {
    let data = Structure {
        models: vec![model("A", "1", vec![field("f", "10")]), model("B", "2", vec![field("g", "10")])],
        relations: vec![],
    };
    match UuidIndexes::new(data) {
        Err(IndexError::DuplicateFieldUuid(f)) => assert_eq!(f, "10"),
        _ => panic!("expected a duplicate field uuid"),
    }
}

#[test]
fn extract_around_target_keeps_dangling_source() {
    let idx = sample_index();
    let narrowed = rebuild(&idx, "2").unwrap();
    let data = narrowed.data();
    assert_eq!(data.models.len(), 1);
    assert_eq!(data.models[0].object_name, "B");
    assert_eq!(data.relations.len(), 1);
    assert_eq!(data.relations[0].src_field, "10");
    assert_eq!(data.relations[0].target_model, "2");
    assert_eq!(data.relations[0].relation_type, RelationType::ManyToOne);
    assert!(narrowed.has_model("2"));
    assert!(!narrowed.has_model("1"));
    assert!(narrowed.get_model_from_field("10").is_none());
}

#[test]
fn extract_around_source_model_drops_relations() {
    let idx = sample_index();
    let narrowed = rebuild(&idx, "1").unwrap();
    let data = narrowed.data();
    assert_eq!(data.models.len(), 1);
    assert_eq!(data.models[0].object_name, "A");
    assert_eq!(data.models[0].fields.len(), 1);
    assert!(data.relations.is_empty());
    assert_eq!(narrowed.get_model_from_field("10").unwrap(), "1");
}

#[test]
fn extract_unknown_model() {
    let idx = sample_index();
    assert!(rebuild(&idx, "7").is_none());
}

#[test]
fn extract_twice_is_stable() {
    let data = Structure {
        models: vec![
            model("A", "1", vec![field("f1", "10")]),
            model("B", "2", vec![field("g1", "20")]),
            model("C", "3", vec![field("h1", "30")]),
        ],
        relations: vec![
            relation("10", "2", RelationType::ManyToOne),
            relation("20", "3", RelationType::OneToOne),
            relation("30", "2", RelationType::ManyToMany),
        ],
    };
    let idx = UuidIndexes::new(data).unwrap();
    let once = rebuild(&idx, "2").unwrap();
    let twice = rebuild(&once, "2").unwrap();
    assert_eq!(enumerate(once.data(), true), enumerate(twice.data(), true));
    let a = &once.data().relations;
    let b = &twice.data().relations;
    assert_eq!(a.len(), 2);
    assert_eq!(b.len(), 2);
    for k in 0..2 {
        assert_eq!(a[k].src_field, b[k].src_field);
        assert_eq!(a[k].target_model, b[k].target_model);
        assert_eq!(a[k].relation_type, b[k].relation_type);
    }
    assert_eq!(a[0].src_field, "10");
    assert_eq!(a[1].src_field, "30");
}

#[test]
fn model_report_without_meta() {
    let m = model("Order", "1", vec![field("a", "10"), field("b", "11")]);
    assert_eq!(
        show_model(&m, false),
        "model name: order\nobject name: Order\napp label: shop\ndb table: shop_order\nfields: 2\n"
    );
}

#[test]
fn model_report_with_meta() {
    let mut m = model("Order", "1", vec![]);
    m.meta_data.code.line_number = 1207;
    assert_eq!(
        show_model(&m, true),
        "model name: order\nobject name: Order\napp label: shop\ndb table: shop_order\nfields: 0\n\
         uuid: 1\nsource file: app/models.py\nsource line: 1207\n"
    );
}

#[test]
fn meta_report_largest_line() {
    let d = meta("abc", u64::MAX);
    assert_eq!(
        show_meta_data(&d),
        "uuid: abc\nsource file: app/models.py\nsource line: 18446744073709551615\n"
    );
}

#[test]
fn write_appends_bytes() {
    let mut out: Vec<u8> = b"ab".to_vec();
    dmdr::sink::write(&mut out, b"cde");
    assert_eq!(out, b"abcde".to_vec());
    dmdr::sink::write(&mut out, b"");
    assert_eq!(out, b"abcde".to_vec());
}

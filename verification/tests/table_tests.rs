use syscall_trace::table::{
    ArgKind, ArgumentDetail, DescriptorField, DescriptorRow, MetadataTable, RowDefect,
};

fn row(fields: Vec<DescriptorField>) -> DescriptorRow {
    DescriptorRow { fields }
}

fn typed(t: &str) -> DescriptorField {
    DescriptorField::TypedObject(t.to_string())
}

fn open_row() -> DescriptorRow {
    row(vec![
        DescriptorField::Integer(2),
        DescriptorField::Text("open".to_string()),
        DescriptorField::Other,
        typed("const char __user * filename"),
        typed("int flags"),
        typed("umode_t mode"),
    ])
}

#[test]
fn build_classifies_string_pointers() {
    let rows = vec![open_row()];
    let table = MetadataTable::build(&rows, ArgumentDetail::Typed).unwrap();
    let d = table.lookup(2).unwrap();
    assert_eq!(d.number, 2);
    assert_eq!(d.name, "open");
    assert_eq!(
        d.args,
        vec![ArgKind::StringPointer, ArgKind::Opaque, ArgKind::Opaque]
    );
}

#[test]
fn build_classifies_mutable_char_pointer() {
    let rows = vec![row(vec![
        DescriptorField::Integer(0),
        DescriptorField::Text("read".to_string()),
        DescriptorField::Other,
        typed("unsigned int fd"),
        typed("char __user * buf"),
        typed("size_t count"),
    ])];
    let table = MetadataTable::build(&rows, ArgumentDetail::Typed).unwrap();
    let d = table.lookup(0).unwrap();
    assert_eq!(
        d.args,
        vec![ArgKind::Opaque, ArgKind::StringPointer, ArgKind::Opaque]
    );
}

#[test]
fn count_only_degrades_every_argument_to_opaque() {
    let rows = vec![open_row()];
    let table = MetadataTable::build(&rows, ArgumentDetail::CountOnly).unwrap();
    let d = table.lookup(2).unwrap();
    assert_eq!(d.args, vec![ArgKind::Opaque, ArgKind::Opaque, ArgKind::Opaque]);
}

#[test]
fn build_skips_objects_without_a_type() {
    let rows = vec![row(vec![
        DescriptorField::Integer(39),
        DescriptorField::Text("getpid".to_string()),
        DescriptorField::Other,
        DescriptorField::UntypedObject,
        typed("const char __user * p"),
    ])];
    let table = MetadataTable::build(&rows, ArgumentDetail::Typed).unwrap();
    let d = table.lookup(39).unwrap();
    assert_eq!(d.args, vec![ArgKind::StringPointer]);
}

#[test]
fn build_takes_at_most_six_argument_fields() {
    let mut fields = vec![
        DescriptorField::Integer(7),
        DescriptorField::Text("many".to_string()),
        DescriptorField::Other,
    ];
    for _ in 0..8 {
        fields.push(typed("int x"));
    }
    let rows = vec![row(fields)];
    let table = MetadataTable::build(&rows, ArgumentDetail::Typed).unwrap();
    let d = table.lookup(7).unwrap();
    assert_eq!(d.args.len(), 6);
}

#[test]
fn every_descriptor_arity_is_at_most_six() {
    let rows = vec![
        open_row(),
        row(vec![
            DescriptorField::Integer(60),
            DescriptorField::Text("exit".to_string()),
        ]),
    ];
    let table = MetadataTable::build(&rows, ArgumentDetail::Typed).unwrap();
    for n in [2u64, 60] {
        let d = table.lookup(n).unwrap();
        assert!(d.args.len() <= 6);
    }
}

#[test]
fn lookup_of_absent_number_is_none() {
    let rows = vec![open_row()];
    let table = MetadataTable::build(&rows, ArgumentDetail::Typed).unwrap();
    assert!(table.lookup(999).is_none());
}

#[test]
fn build_rejects_a_row_that_is_too_short() {
    let rows = vec![row(vec![DescriptorField::Integer(1)])];
    let e = MetadataTable::build(&rows, ArgumentDetail::Typed).unwrap_err();
    assert_eq!(e.row, 0);
    assert_eq!(e.defect, RowDefect::TooShort);
}

#[test]
fn build_rejects_a_non_integer_number() {
    let rows = vec![
        open_row(),
        row(vec![
            DescriptorField::Text("oops".to_string()),
            DescriptorField::Text("bad".to_string()),
        ]),
    ];
    let e = MetadataTable::build(&rows, ArgumentDetail::Typed).unwrap_err();
    assert_eq!(e.row, 1);
    assert_eq!(e.defect, RowDefect::NumberNotInteger);
}

#[test]
fn build_rejects_a_non_text_name() {
    let rows = vec![row(vec![
        DescriptorField::Integer(1),
        DescriptorField::Integer(2),
    ])];
    let e = MetadataTable::build(&rows, ArgumentDetail::Typed).unwrap_err();
    assert_eq!(e.defect, RowDefect::NameNotText);
}

#[test]
fn build_rejects_a_non_object_argument_field() {
    let rows = vec![row(vec![
        DescriptorField::Integer(1),
        DescriptorField::Text("write".to_string()),
        DescriptorField::Other,
        DescriptorField::Integer(5),
    ])];
    let e = MetadataTable::build(&rows, ArgumentDetail::Typed).unwrap_err();
    assert_eq!(e.defect, RowDefect::ArgumentNotObject);
}

#[test]
fn later_row_overrides_earlier_row_with_same_number() {
    let rows = vec![
        row(vec![
            DescriptorField::Integer(2),
            DescriptorField::Text("old_name".to_string()),
        ]),
        row(vec![
            DescriptorField::Integer(2),
            DescriptorField::Text("open".to_string()),
        ]),
    ];
    let table = MetadataTable::build(&rows, ArgumentDetail::Typed).unwrap();
    assert_eq!(table.lookup(2).unwrap().name, "open");
}

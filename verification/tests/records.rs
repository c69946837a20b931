use nom_schema::attr::{parse_nom_attribute, MetaAttr, MetaAttrType, RawEntry};
use nom_schema::config::Config;
use nom_schema::decl::{Data, DeriveInput, Field, Fields};
use nom_schema::error::{ParseError, SynthesisError};
use nom_schema::expr::Relation;
use nom_schema::number::{ByteOrder, IntKind};
use nom_schema::parsertree::{Framing, Operand, ParserTree, Predicate, Primitive};
use nom_schema::run::{run_steps, steps_run, FieldValue};
use nom_schema::structs::{
    byte_order, get_pre_post_exec, impl_nom_structs, is_user_type, parse_fields, prefix_decoder,
    resolve_field, RecordRoutine,
};

fn entry(keyword: &str, argument: Option<&str>) -> RawEntry {
    RawEntry { keyword: keyword.to_string(), argument: argument.map(|a| a.to_string()) }
}

fn field(name: &str, ty: &str, attrs: Vec<RawEntry>) -> Field {
    Field { name: name.to_string(), ty: ty.to_string(), attrs }
}

fn record(attrs: Vec<RawEntry>, items: Vec<Field>) -> DeriveInput {
    DeriveInput {
        ident: "Record".to_string(),
        attrs: Vec::new(),
        nom_attrs: attrs,
        data: Data::Struct(Fields { unnamed: false, items }),
    }
}

fn routine(attrs: Vec<RawEntry>, items: Vec<Field>) -> RecordRoutine {
    impl_nom_structs(&record(attrs, items), &Config::default()).unwrap()
}

fn int_base(tree: &ParserTree) -> (IntKind, ByteOrder) {
    match &tree.base {
        Primitive::Int { kind, order } => (*kind, *order),
        other => panic!("not an integer decoder: {:?}", other),
    }
}

#[test]
fn a_record_of_two_integers_is_read_in_order() {
    let r = routine(Vec::new(), vec![field("a", "u8", vec![]), field("b", "u16", vec![])]);
    let input = [0x01u8, 0x02, 0x03];
    let (rest, values) = r.parse(&input).unwrap().unwrap();
    assert_eq!(values, vec![FieldValue::Single(1), FieldValue::Single(515)]);
    assert!(rest.is_empty());
    assert_eq!(r.struct_def.parsers[0].name, "a");
    assert_eq!(r.struct_def.parsers[1].name, "b");
}

#[test]
fn swapping_two_fields_changes_which_bytes_they_read() {
    let ab = routine(Vec::new(), vec![field("a", "u8", vec![]), field("b", "u16", vec![])]);
    let ba = routine(Vec::new(), vec![field("b", "u16", vec![]), field("a", "u8", vec![])]);
    let input = [0x01u8, 0x02, 0x03];
    let (_, first) = ab.parse(&input).unwrap().unwrap();
    let (_, second) = ba.parse(&input).unwrap().unwrap();
    assert_eq!(first, vec![FieldValue::Single(0x01), FieldValue::Single(0x0203)]);
    assert_eq!(second, vec![FieldValue::Single(0x0102), FieldValue::Single(0x03)]);
}

#[test]
fn what_is_not_read_is_left() {
    let r = routine(Vec::new(), vec![field("a", "u8", vec![])]);
    let input = [9u8, 8, 7];
    let (rest, values) = r.parse(&input).unwrap().unwrap();
    assert_eq!(values, vec![FieldValue::Single(9)]);
    assert_eq!(rest, &[8u8, 7][..]);
}

#[test]
fn a_record_without_fields_reads_nothing() {
    let r = routine(Vec::new(), Vec::new());
    let input = [1u8, 2];
    let (rest, values) = r.parse(&input).unwrap().unwrap();
    assert!(values.is_empty());
    assert_eq!(rest, &input[..]);
}

#[test]
fn the_first_failure_ends_the_record() {
    let r = routine(
        Vec::new(),
        vec![field("a", "u8", vec![]), field("b", "u32", vec![]), field("c", "u8", vec![])],
    );
    assert_eq!(r.parse(&[1, 2, 3]).unwrap(), Err(ParseError::Incomplete { needed: 2 }));
    assert_eq!(r.parse(&[]).unwrap(), Err(ParseError::Incomplete { needed: 1 }));
}

#[test]
fn a_verified_field_fails_where_its_predicate_does_not_hold() {
    let r = routine(
        Vec::new(),
        vec![field("a", "u8", vec![entry("Verify", Some("value > 0"))])],
    );
    assert_eq!(r.parse(&[0]).unwrap(), Err(ParseError::Verify));
    let input = [5u8];
    let (rest, values) = r.parse(&input).unwrap().unwrap();
    assert_eq!(values, vec![FieldValue::Single(5)]);
    assert!(rest.is_empty());
}

#[test]
fn a_predicate_may_name_its_own_field_and_earlier_ones() {
    let r = routine(
        Vec::new(),
        vec![
            field("max", "u8", vec![]),
            field("a", "u8", vec![entry("Verify", Some("a <= max"))]),
        ],
    );
    let check = r.struct_def.parsers[1].parser.verify.as_ref().unwrap();
    assert_eq!(check.text, "a <= max");
    assert_eq!(
        check.predicate,
        Some(Predicate {
            lhs: Operand::Current,
            relation: Relation::LessEqual,
            rhs: Operand::Field(0),
        })
    );
    assert!(r.parse(&[4, 4]).unwrap().is_ok());
    assert_eq!(r.parse(&[4, 5]).unwrap(), Err(ParseError::Verify));
}

#[test]
fn a_conditional_field_is_absent_where_its_condition_fails() {
    let r = routine(
        Vec::new(),
        vec![
            field("flag", "u8", vec![]),
            field("extra", "u16", vec![entry("Cond", Some("flag == 1"))]),
            field("last", "u8", vec![]),
        ],
    );
    let with = [1u8, 0, 7, 9];
    let (rest, values) = r.parse(&with).unwrap().unwrap();
    assert_eq!(
        values,
        vec![FieldValue::Single(1), FieldValue::Single(7), FieldValue::Single(9)]
    );
    assert!(rest.is_empty());
    let without = [0u8, 9, 5];
    let (rest, values) = r.parse(&without).unwrap().unwrap();
    assert_eq!(values, vec![FieldValue::Single(0), FieldValue::Absent, FieldValue::Single(9)]);
    assert_eq!(rest, &[5u8][..]);
}

#[test]
fn a_counted_field_reads_as_many_values_as_named() {
    let r = routine(
        Vec::new(),
        vec![
            field("n", "u8", vec![]),
            field("items", "u16", vec![entry("Count", Some("n"))]),
            field("pair", "u8", vec![entry("Count", Some("2"))]),
        ],
    );
    let input = [2u8, 0, 1, 0, 2, 7, 8, 9];
    let (rest, values) = r.parse(&input).unwrap().unwrap();
    assert_eq!(
        values,
        vec![FieldValue::Single(2), FieldValue::Many(vec![1, 2]), FieldValue::Many(vec![7, 8])]
    );
    assert_eq!(rest, &[9u8][..]);
    assert_eq!(r.parse(&[3, 0, 1, 0]).unwrap(), Err(ParseError::Incomplete { needed: 1 }));
    let empty = [0u8, 5, 6];
    let (_, values) = r.parse(&empty).unwrap().unwrap();
    assert_eq!(values[1], FieldValue::Many(Vec::new()));
}

#[test]
fn each_counted_value_is_verified() {
    let r = routine(
        Vec::new(),
        vec![field(
            "items",
            "u8",
            vec![entry("Count", Some("3")), entry("Verify", Some("value != 0"))],
        )],
    );
    assert!(r.parse(&[1, 2, 3]).unwrap().is_ok());
    assert_eq!(r.parse(&[1, 0, 3]).unwrap(), Err(ParseError::Verify));
}

#[test]
fn a_length_prefix_is_read_before_the_values() {
    let r = routine(
        Vec::new(),
        vec![field("items", "u8", vec![entry("LengthCount", Some("be_u16"))])],
    );
    let input = [0u8, 2, 7, 8, 9];
    let (rest, values) = r.parse(&input).unwrap().unwrap();
    assert_eq!(values, vec![FieldValue::Many(vec![7, 8])]);
    assert_eq!(rest, &[9u8][..]);
    assert_eq!(r.parse(&[0]).unwrap(), Err(ParseError::Incomplete { needed: 1 }));
}

#[test]
fn count_is_taken_before_length_count() {
    let r = routine(
        Vec::new(),
        vec![field(
            "items",
            "u8",
            vec![entry("LengthCount", Some("u8")), entry("Count", Some("1"))],
        )],
    );
    match &r.struct_def.parsers[0].parser.framing {
        Framing::Count { text, source } => {
            assert_eq!(text, "1");
            assert_eq!(*source, Some(Operand::Literal(1)));
        }
        other => panic!("{:?}", other),
    }
}

#[test]
fn prefix_decoders_are_unsigned_integers() {
    assert_eq!(prefix_decoder("u8", ByteOrder::Little), Some((IntKind::U8, ByteOrder::Little)));
    assert_eq!(prefix_decoder("be_u32", ByteOrder::Little), Some((IntKind::U32, ByteOrder::Big)));
    assert_eq!(prefix_decoder("le_u24", ByteOrder::Big), Some((IntKind::U24, ByteOrder::Little)));
    assert_eq!(prefix_decoder("be_i16", ByteOrder::Big), None);
    assert_eq!(prefix_decoder("be_", ByteOrder::Big), None);
    assert_eq!(prefix_decoder("my_len", ByteOrder::Big), None);
    assert_eq!(prefix_decoder("", ByteOrder::Big), None);
}

#[test]
fn byte_order_is_the_fields_then_the_types_then_the_default() {
    let big = parse_nom_attribute(&vec![entry("BigEndian", None)]).unwrap();
    let little = parse_nom_attribute(&vec![entry("LittleEndian", None)]).unwrap();
    let both = parse_nom_attribute(&vec![entry("LittleEndian", None), entry("BigEndian", None)])
        .unwrap();
    let none: Vec<MetaAttr> = Vec::new();
    assert_eq!(byte_order(&none, &none, true), ByteOrder::Big);
    assert_eq!(byte_order(&none, &none, false), ByteOrder::Little);
    assert_eq!(byte_order(&none, &little, true), ByteOrder::Little);
    assert_eq!(byte_order(&none, &big, false), ByteOrder::Big);
    assert_eq!(byte_order(&big, &little, false), ByteOrder::Big);
    assert_eq!(byte_order(&little, &big, true), ByteOrder::Little);
    assert_eq!(byte_order(&both, &none, false), ByteOrder::Big);
}

#[test]
fn byte_order_reaches_the_decoders() {
    let r = routine(
        vec![entry("LittleEndian", None)],
        vec![
            field("a", "u16", vec![]),
            field("b", "u16", vec![entry("BigEndian", None)]),
        ],
    );
    assert_eq!(int_base(&r.struct_def.parsers[0].parser), (IntKind::U16, ByteOrder::Little));
    assert_eq!(int_base(&r.struct_def.parsers[1].parser), (IntKind::U16, ByteOrder::Big));
    let input = [1u8, 0, 0, 1];
    let (_, values) = r.parse(&input).unwrap().unwrap();
    assert_eq!(values, vec![FieldValue::Single(1), FieldValue::Single(1)]);
    let mut config = Config::default();
    config.big_endian = false;
    let r = impl_nom_structs(&record(vec![], vec![field("a", "u16", vec![])]), &config).unwrap();
    assert_eq!(int_base(&r.struct_def.parsers[0].parser), (IntKind::U16, ByteOrder::Little));
}

#[test]
fn an_override_is_taken_as_it_is_written() {
    let r = routine(
        Vec::new(),
        vec![field("a", "[u8; 4]", vec![entry("Parse", Some("take_four"))])],
    );
    match &r.struct_def.parsers[0].parser.base {
        Primitive::Raw(text) => assert_eq!(text, "take_four"),
        other => panic!("{:?}", other),
    }
    assert!(!r.runs());
    assert!(r.parse(&[1, 2, 3, 4]).is_none());
}

#[test]
fn a_user_type_is_read_by_its_own_routine() {
    let r = routine(Vec::new(), vec![field("inner", "wire::Header", vec![])]);
    match &r.struct_def.parsers[0].parser.base {
        Primitive::Nested(name) => assert_eq!(name, "wire::Header"),
        other => panic!("{:?}", other),
    }
    assert!(r.parse(&[]).is_none());
}

#[test]
fn which_types_are_user_types() {
    assert!(is_user_type("Header"));
    assert!(is_user_type("_h2"));
    assert!(is_user_type("a::b::C"));
    assert!(!is_user_type(""));
    assert!(!is_user_type("2fast"));
    assert!(!is_user_type("Vec<u8>"));
    assert!(!is_user_type("[u8; 4]"));
    assert!(!is_user_type("&str"));
    assert!(!is_user_type("f32"));
    assert!(!is_user_type("f64"));
    assert!(!is_user_type("bool"));
    assert!(!is_user_type("usize"));
    assert!(!is_user_type("u128"));
}

#[test]
fn an_unsupported_type_without_override_fails_synthesis() {
    let ast = record(
        Vec::new(),
        vec![field("a", "u8", vec![]), field("b", "(u8, u8)", vec![])],
    );
    assert_eq!(
        impl_nom_structs(&ast, &Config::default()).unwrap_err(),
        SynthesisError::UnsupportedType { field: 1 }
    );
}

#[test]
fn a_bad_annotation_on_a_field_fails_synthesis() {
    let ast = record(
        Vec::new(),
        vec![field("a", "u8", vec![entry("BigEndian", None), entry("Verify", None)])],
    );
    assert_eq!(
        impl_nom_structs(&ast, &Config::default()).unwrap_err(),
        SynthesisError::AttributeSyntax { index: 1 }
    );
}

#[test]
fn a_bad_annotation_on_the_type_fails_synthesis() {
    let ast = record(vec![entry("Bogus", None)], vec![field("a", "u8", vec![])]);
    assert_eq!(
        impl_nom_structs(&ast, &Config::default()).unwrap_err(),
        SynthesisError::AttributeSyntax { index: 0 }
    );
}

#[test]
fn a_union_is_no_record() {
    let ast = DeriveInput {
        ident: "E".to_string(),
        attrs: Vec::new(),
        nom_attrs: Vec::new(),
        data: Data::Enum(Vec::new()),
    };
    assert_eq!(
        impl_nom_structs(&ast, &Config::default()).unwrap_err(),
        SynthesisError::UnexpectedShape
    );
}

#[test]
fn hooks_are_the_first_of_their_kind() {
    let list = parse_nom_attribute(&vec![
        entry("PostExec", Some("done();")),
        entry("PreExec", Some("start();")),
        entry("PreExec", Some("again();")),
    ])
    .unwrap();
    let (pre, post) = get_pre_post_exec(&list);
    assert_eq!(pre, Some("start();".to_string()));
    assert_eq!(post, Some("done();".to_string()));
    let none: Vec<MetaAttr> = Vec::new();
    assert_eq!(get_pre_post_exec(&none), (None, None));
}

#[test]
fn a_routine_with_a_hook_is_for_the_host() {
    let r = routine(vec![entry("PreExec", Some("let n = 1;"))], vec![field("a", "u8", vec![])]);
    assert_eq!(r.pre_exec, Some("let n = 1;".to_string()));
    assert_eq!(r.post_exec, None);
    assert!(!r.runs());
    assert!(r.parse(&[1]).is_none());
}

#[test]
fn a_predicate_of_the_host_stays_text() {
    let r = routine(
        Vec::new(),
        vec![field("a", "u8", vec![entry("Verify", Some("a.is_power_of_two()"))])],
    );
    let check = r.struct_def.parsers[0].parser.verify.as_ref().unwrap();
    assert_eq!(check.text, "a.is_power_of_two()");
    assert_eq!(check.predicate, None);
    assert!(!steps_run(&r.struct_def.parsers));
    assert!(r.parse(&[2]).is_none());
}

#[test]
fn names_resolve_to_fields_that_hold_one_integer() {
    let items = vec![
        field("n", "i8", vec![]),
        field("list", "u8", vec![entry("Count", Some("2"))]),
        field("a", "u8", vec![entry("Verify", Some("a > list"))]),
        field("b", "u8", vec![entry("Count", Some("n"))]),
        field("c", "u8", vec![entry("Cond", Some("value == 1"))]),
        field("d", "u8", vec![entry("Cond", Some("n >= unknown"))]),
    ];
    let tree = parse_fields(
        &Fields { unnamed: true, items },
        &Vec::<MetaAttr>::new(),
        &Config::default(),
    )
    .unwrap();
    assert!(tree.unnamed);
    assert_eq!(tree.parsers[2].parser.verify.as_ref().unwrap().predicate, None);
    match &tree.parsers[3].parser.framing {
        Framing::Count { source, .. } => assert_eq!(*source, None),
        other => panic!("{:?}", other),
    }
    assert_eq!(tree.parsers[4].parser.cond.as_ref().unwrap().predicate, None);
    assert_eq!(tree.parsers[5].parser.cond.as_ref().unwrap().predicate, None);
    assert!(!steps_run(&tree.parsers));
}

#[test]
fn the_nearest_earlier_field_of_a_name_is_meant() {
    let scope_items = vec![field("a", "u8", vec![]), field("a", "u16", vec![])];
    let tree = parse_fields(
        &Fields { unnamed: false, items: scope_items },
        &Vec::<MetaAttr>::new(),
        &Config::default(),
    )
    .unwrap();
    let next = field("b", "u8", vec![entry("Cond", Some("a == 0"))]);
    let parser =
        resolve_field(&next, 2, &tree.parsers, &Vec::<MetaAttr>::new(), &Config::default())
            .unwrap();
    assert_eq!(parser.cond.unwrap().predicate.unwrap().lhs, Operand::Field(1));
}

#[test]
fn steps_can_be_run_without_a_routine() {
    let steps = vec![
        nom_schema::structs::StructParser {
            name: "x".to_string(),
            parser: ParserTree::integer(IntKind::I16, ByteOrder::Big),
        },
    ];
    assert!(steps_run(&steps));
    assert_eq!(steps[0].parser.scalar_kind(), Some(IntKind::I16));
    let input = [0xffu8, 0xfe];
    let (rest, values) = run_steps(&steps, &input).unwrap().unwrap();
    assert_eq!(values, vec![FieldValue::Single(-2)]);
    assert!(rest.is_empty());
}

#[test]
fn a_step_that_names_a_later_field_cannot_be_run() {
    let mut parser = ParserTree::integer(IntKind::U8, ByteOrder::Big);
    parser.framing = Framing::Count { text: "n".to_string(), source: Some(Operand::Field(1)) };
    let steps = vec![
        nom_schema::structs::StructParser { name: "items".to_string(), parser },
        nom_schema::structs::StructParser {
            name: "n".to_string(),
            parser: ParserTree::integer(IntKind::U8, ByteOrder::Big),
        },
    ];
    assert!(!steps_run(&steps));
    assert!(run_steps(&steps, &[1, 2]).is_none());
}

#[test]
fn the_routine_carries_the_settings() {
    let config = Config { input_name: "input".to_string(), big_endian: true, debug_derive: true };
    let r = impl_nom_structs(&record(vec![], vec![field("a", "u8", vec![])]), &config).unwrap();
    assert_eq!(r.name, "Record");
    assert_eq!(r.input_name, "input");
    assert_eq!(r.orig_input_name, "orig_input");
    assert!(r.debug_derive);
    let d = Config::default();
    assert_eq!(d.input_name, "i");
    assert!(d.big_endian);
    assert!(!d.debug_derive);
    assert_eq!(d.orig_input_name(), "orig_i");
    assert_eq!(MetaAttrType::BigEndian.takes_argument(), false);
    assert_eq!(MetaAttrType::PreExec.takes_argument(), true);
}

use nom_schema::attr::{parse_nom_attribute, MetaAttr, RawEntry};
use nom_schema::config::Config;
use nom_schema::decl::{
    Attribute, Data, DeriveInput, Discriminant, Field, Fields, Meta, NestedMeta, Variant,
};
use nom_schema::driver::{synthesize_type, GeneratedRoutine};
use nom_schema::enums::{
    check_selectors, get_repr, impl_nom_enums, impl_nom_fieldless_enums, is_input_fieldless_enum,
    order_arms, parse_variant, EnumRoutine, FieldlessRoutine, SelectorRoutine, VariantParserTree,
};
use nom_schema::error::{ParseError, SynthesisError};
use nom_schema::number::{ByteOrder, IntKind};
use nom_schema::run::{pattern_of, Branch, FieldValue, Pattern};
use nom_schema::structs::StructParserTree;

fn entry(keyword: &str, argument: Option<&str>) -> RawEntry {
    RawEntry { keyword: keyword.to_string(), argument: argument.map(|a| a.to_string()) }
}

fn field(name: &str, ty: &str) -> Field {
    Field { name: name.to_string(), ty: ty.to_string(), attrs: Vec::new() }
}

fn variant(ident: &str, selector: Option<&str>, items: Vec<Field>) -> Variant {
    Variant {
        ident: ident.to_string(),
        attrs: match selector {
            Some(s) => vec![entry("Selector", Some(s))],
            None => Vec::new(),
        },
        fields: Fields { unnamed: false, items },
        discriminant: Discriminant::Implicit,
    }
}

fn unit(ident: &str, discriminant: Discriminant) -> Variant {
    Variant {
        ident: ident.to_string(),
        attrs: Vec::new(),
        fields: Fields { unnamed: false, items: Vec::new() },
        discriminant,
    }
}

fn repr(word: &str) -> Attribute {
    Attribute {
        meta: Some(Meta::List {
            ident: Some("repr".to_string()),
            nested: vec![NestedMeta::Word(word.to_string())],
        }),
    }
}

fn union(attrs: Vec<Attribute>, nom_attrs: Vec<RawEntry>, variants: Vec<Variant>) -> DeriveInput {
    DeriveInput { ident: "U".to_string(), attrs, nom_attrs, data: Data::Enum(variants) }
}

fn selector_routine(ast: &DeriveInput) -> SelectorRoutine {
    match impl_nom_enums(ast, &Config::default()).unwrap() {
        EnumRoutine::Selector(r) => r,
        other => panic!("{:?}", other),
    }
}

fn fieldless_routine(ast: &DeriveInput) -> FieldlessRoutine {
    match impl_nom_enums(ast, &Config::default()).unwrap() {
        EnumRoutine::Fieldless(r) => r,
        other => panic!("{:?}", other),
    }
}

fn abc() -> DeriveInput {
    union(
        Vec::new(),
        vec![entry("Selector", Some("u8"))],
        vec![
            variant("A", Some("1"), vec![field("x", "u8")]),
            variant("B", Some("2"), Vec::new()),
            variant("C", Some("_"), Vec::new()),
        ],
    )
}

fn arm(index: usize, selector: &str) -> VariantParserTree {
    VariantParserTree {
        index,
        ident: format!("V{}", index),
        selector: selector.to_string(),
        struct_def: StructParserTree { unnamed: false, parsers: Vec::new() },
    }
}

fn order_of(arms: &[VariantParserTree]) -> Vec<usize> {
    arms.iter().map(|a| a.index).collect()
}

#[test]
fn the_selector_chooses_the_variant() {
    let r = selector_routine(&abc());
    assert_eq!(r.selector_type, "u8");
    assert!(r.default_case_handled);
    let (rest, value) = r.parse(&[], 9).unwrap().unwrap();
    assert_eq!(value, Branch { variant: 2, fields: Vec::new() });
    assert!(rest.is_empty());
    let input = [0x07u8];
    let (rest, value) = r.parse(&input, 1).unwrap().unwrap();
    assert_eq!(value, Branch { variant: 0, fields: vec![FieldValue::Single(7)] });
    assert!(rest.is_empty());
    let (rest, value) = r.parse(&input, 2).unwrap().unwrap();
    assert_eq!(value, Branch { variant: 1, fields: Vec::new() });
    assert_eq!(rest, &input[..]);
}

#[test]
fn a_variant_fails_as_its_fields_fail() {
    let r = selector_routine(&abc());
    assert_eq!(r.parse(&[], 1).unwrap(), Err(ParseError::Incomplete { needed: 1 }));
}

#[test]
fn the_default_is_tried_last_wherever_it_is_declared() {
    let ast = union(
        Vec::new(),
        vec![entry("Selector", Some("u8"))],
        vec![
            variant("C", Some("_"), Vec::new()),
            variant("A", Some("1"), vec![field("x", "u8")]),
            variant("B", Some("2"), Vec::new()),
        ],
    );
    let r = selector_routine(&ast);
    assert_eq!(order_of(&r.arms), vec![1, 2, 0]);
    assert_eq!(r.arms[2].selector, "_");
    assert_eq!(r.arms[2].ident, "C");
    let input = [0x07u8];
    let (_, value) = r.parse(&input, 1).unwrap().unwrap();
    assert_eq!(value, Branch { variant: 1, fields: vec![FieldValue::Single(7)] });
    let (_, value) = r.parse(&input, 2).unwrap().unwrap();
    assert_eq!(value.variant, 2);
    let (_, value) = r.parse(&input, 3).unwrap().unwrap();
    assert_eq!(value.variant, 0);
}

#[test]
fn arms_keep_their_order_but_for_the_defaults() {
    let (arms, has_default) =
        order_arms(vec![arm(0, "1"), arm(1, "_"), arm(2, "2"), arm(3, "_"), arm(4, "3")]);
    assert!(has_default);
    assert_eq!(order_of(&arms), vec![0, 2, 4, 1, 3]);
    let (arms, has_default) = order_arms(vec![arm(0, "2"), arm(1, "1")]);
    assert!(!has_default);
    assert_eq!(order_of(&arms), vec![0, 1]);
    let (arms, has_default) = order_arms(Vec::new());
    assert!(!has_default);
    assert!(arms.is_empty());
    let (arms, has_default) = order_arms(vec![arm(0, "_")]);
    assert!(has_default);
    assert_eq!(order_of(&arms), vec![0]);
}

#[test]
fn without_a_default_an_unmatched_selector_is_a_switch_failure() {
    let ast = union(
        Vec::new(),
        vec![entry("Selector", Some("u8"))],
        vec![variant("A", Some("1"), Vec::new()), variant("B", Some("-2"), Vec::new())],
    );
    let r = selector_routine(&ast);
    assert!(!r.default_case_handled);
    assert_eq!(r.parse(&[1, 2], 9).unwrap(), Err(ParseError::Switch));
    assert_eq!(r.parse(&[], -2).unwrap().unwrap().1.variant, 1);
}

#[test]
fn the_first_of_two_equal_patterns_wins() {
    let ast = union(
        Vec::new(),
        vec![entry("Selector", Some("u8"))],
        vec![variant("A", Some("1"), Vec::new()), variant("B", Some("1"), Vec::new())],
    );
    let r = selector_routine(&ast);
    assert_eq!(r.parse(&[], 1).unwrap().unwrap().1.variant, 0);
}

#[test]
fn a_pattern_of_the_host_stays_text() {
    let ast = union(
        Vec::new(),
        vec![entry("Selector", Some("Kind"))],
        vec![
            variant("A", Some("Kind::A"), Vec::new()),
            variant("B", Some("2..=5"), Vec::new()),
        ],
    );
    let r = selector_routine(&ast);
    assert_eq!(r.arms[0].selector, "Kind::A");
    assert!(!r.runs());
    assert!(r.parse(&[], 2).is_none());
    assert_eq!(pattern_of("_"), Pattern::Default);
    assert_eq!(pattern_of(" 12 "), Pattern::Number(12));
    assert_eq!(pattern_of("Kind::A"), Pattern::Opaque);
    assert_eq!(pattern_of("x"), Pattern::Opaque);
    assert!(Pattern::Default.matches(5));
    assert!(Pattern::Number(5).matches(5));
    assert!(!Pattern::Number(5).matches(6));
    assert!(!Pattern::Opaque.matches(5));
}

#[test]
fn a_union_with_fields_requires_a_selector() {
    let ast = union(
        vec![repr("u8")],
        Vec::new(),
        vec![variant("A", Some("1"), vec![field("x", "u8")]), variant("B", Some("2"), Vec::new())],
    );
    let e = impl_nom_enums(&ast, &Config::default()).unwrap_err();
    assert_eq!(e, SynthesisError::MissingSelector);
    assert!(e.message().starts_with("selector required"));
}

#[test]
fn each_variant_must_name_its_pattern() {
    let ast = union(
        Vec::new(),
        vec![entry("Selector", Some("u8"))],
        vec![variant("A", Some("1"), Vec::new()), variant("B", None, Vec::new())],
    );
    assert_eq!(
        impl_nom_enums(&ast, &Config::default()).unwrap_err(),
        SynthesisError::MissingVariantSelector { variant: 1 }
    );
}

#[test]
fn a_pattern_must_be_a_sequence_of_tokens() {
    let ast = union(
        Vec::new(),
        vec![entry("Selector", Some("u8"))],
        vec![
            variant("A", Some("Some(1)"), Vec::new()),
            variant("B", Some("(1, 2"), Vec::new()),
            variant("C", Some("]"), Vec::new()),
        ],
    );
    assert_eq!(
        impl_nom_enums(&ast, &Config::default()).unwrap_err(),
        SynthesisError::InvalidSelector { variant: 1 }
    );
}

#[test]
fn the_selector_type_must_be_a_sequence_of_tokens() {
    let ast = union(
        Vec::new(),
        vec![entry("Selector", Some("Option<"))],
        vec![variant("A", Some("1"), Vec::new())],
    );
    assert!(impl_nom_enums(&ast, &Config::default()).is_ok());
    let ast = union(
        Vec::new(),
        vec![entry("Selector", Some("(u8"))],
        vec![variant("A", Some("(1"), Vec::new())],
    );
    assert_eq!(
        impl_nom_enums(&ast, &Config::default()).unwrap_err(),
        SynthesisError::InvalidSelectorType
    );
}

#[test]
fn verdicts_are_held_to_account_in_order() {
    assert_eq!(check_selectors(true, &[]), Ok(()));
    assert_eq!(check_selectors(true, &[true, true]), Ok(()));
    assert_eq!(check_selectors(false, &[true, false]), Err(SynthesisError::InvalidSelectorType));
    assert_eq!(
        check_selectors(true, &[true, false, false]),
        Err(SynthesisError::InvalidSelector { variant: 1 })
    );
}

#[test]
fn a_field_of_a_variant_must_resolve() {
    let ast = union(
        Vec::new(),
        vec![entry("Selector", Some("u8"))],
        vec![
            variant("A", Some("1"), vec![field("x", "u8")]),
            variant("B", Some("2"), vec![field("x", "u8"), field("y", "&[u8]")]),
        ],
    );
    assert_eq!(
        impl_nom_enums(&ast, &Config::default()).unwrap_err(),
        SynthesisError::UnsupportedType { field: 1 }
    );
}

#[test]
fn a_record_with_a_selector_is_no_union() {
    let ast = DeriveInput {
        ident: "S".to_string(),
        attrs: Vec::new(),
        nom_attrs: vec![entry("Selector", Some("u8"))],
        data: Data::Struct(Fields { unnamed: false, items: Vec::new() }),
    };
    assert_eq!(
        impl_nom_enums(&ast, &Config::default()).unwrap_err(),
        SynthesisError::UnexpectedShape
    );
}

#[test]
fn one_variant_is_read_with_the_byte_order_of_the_type() {
    let container = parse_nom_attribute(&vec![entry("LittleEndian", None)]).unwrap();
    let v = variant("A", Some("0x10"), vec![field("x", "u16")]);
    let def = parse_variant(&v, 4, &container, &Config::default()).unwrap();
    assert_eq!(def.index, 4);
    assert_eq!(def.ident, "A");
    assert_eq!(def.selector, "0x10");
    assert_eq!(def.struct_def.parsers.len(), 1);
    assert_eq!(
        def.struct_def.parsers[0].parser.scalar_kind(),
        Some(IntKind::U16)
    );
    let bad = Variant {
        ident: "B".to_string(),
        attrs: vec![entry("Selector", None)],
        fields: Fields { unnamed: false, items: Vec::new() },
        discriminant: Discriminant::Implicit,
    };
    assert_eq!(
        parse_variant(&bad, 0, &container, &Config::default()).unwrap_err(),
        SynthesisError::AttributeSyntax { index: 0 }
    );
}

#[test]
fn a_union_without_fields_is_read_by_its_discriminant() {
    let ast = union(
        vec![repr("u16")],
        Vec::new(),
        vec![
            unit("A", Discriminant::Implicit),
            unit("B", Discriminant::Literal(0x0203)),
            unit("C", Discriminant::Implicit),
        ],
    );
    let r = fieldless_routine(&ast);
    assert_eq!(r.repr, IntKind::U16);
    assert_eq!(r.order, ByteOrder::Big);
    assert_eq!(r.name, "U");
    assert_eq!(r.input_name, "i");
    assert_eq!(r.orig_input_name, "orig_i");
    let discriminants: Vec<Option<i128>> = r.variants.iter().map(|v| v.discriminant).collect();
    assert_eq!(discriminants, vec![Some(0), Some(0x0203), Some(0x0204)]);
    let input = [0x02u8, 0x03, 0xaa];
    assert_eq!(r.parse(&input).unwrap(), Ok((&[0xaau8][..], 1)));
    assert_eq!(r.parse(&[0, 0]).unwrap(), Ok((&[][..], 0)));
    assert_eq!(r.parse(&[2, 4]).unwrap(), Ok((&[][..], 2)));
    assert_eq!(r.parse(&[2, 5]).unwrap(), Err(ParseError::Switch));
    assert_eq!(r.parse(&[2]).unwrap(), Err(ParseError::Incomplete { needed: 1 }));
}

#[test]
fn every_discriminant_reads_as_its_variant_and_nothing_else_does() {
    let ast = union(
        vec![repr("i8")],
        Vec::new(),
        vec![
            unit("Minus", Discriminant::Literal(-1)),
            unit("Zero", Discriminant::Implicit),
            unit("Ten", Discriminant::Literal(10)),
            unit("Low", Discriminant::Literal(-128)),
        ],
    );
    let r = fieldless_routine(&ast);
    let expected = [(-1i8, 0usize), (0, 1), (10, 2), (-128, 3)];
    for byte in 0..=255u8 {
        let value = byte as i8;
        let input = [byte];
        let verdict = r.parse(&input).unwrap();
        match expected.iter().find(|(d, _)| *d == value) {
            Some((_, place)) => assert_eq!(verdict, Ok((&[][..], *place))),
            None => assert_eq!(verdict, Err(ParseError::Switch)),
        }
    }
}

#[test]
fn discriminants_are_cast_to_the_representation() {
    let ast = union(
        vec![repr("u8")],
        vec![entry("LittleEndian", None), entry("PreExec", Some("trace();"))],
        vec![unit("A", Discriminant::Literal(257)), unit("B", Discriminant::Literal(-1))],
    );
    let r = fieldless_routine(&ast);
    assert_eq!(r.order, ByteOrder::Little);
    assert_eq!(r.pre_exec, Some("trace();".to_string()));
    assert_eq!(r.variants[0].discriminant, Some(1));
    assert_eq!(r.variants[1].discriminant, Some(255));
    assert!(!r.runs());
    assert!(r.parse(&[1]).is_none());
}

#[test]
fn a_discriminant_of_the_host_is_not_known() {
    let ast = union(
        vec![repr("u8")],
        Vec::new(),
        vec![
            unit("A", Discriminant::Literal(3)),
            unit("B", Discriminant::Opaque),
            unit("C", Discriminant::Implicit),
            unit("D", Discriminant::Literal(9)),
            unit("E", Discriminant::Literal(i128::MAX)),
            unit("F", Discriminant::Implicit),
        ],
    );
    let r = fieldless_routine(&ast);
    let discriminants: Vec<Option<i128>> = r.variants.iter().map(|v| v.discriminant).collect();
    assert_eq!(discriminants, vec![Some(3), None, None, Some(9), Some(255), None]);
    assert!(r.parse(&[3]).is_none());
}

#[test]
fn a_union_without_fields_must_declare_its_representation() {
    let ast = union(Vec::new(), Vec::new(), vec![unit("A", Discriminant::Implicit)]);
    assert_eq!(impl_nom_enums(&ast, &Config::default()).unwrap_err(), SynthesisError::MissingRepr);
    let ast = union(vec![repr("C")], Vec::new(), vec![unit("A", Discriminant::Implicit)]);
    assert_eq!(
        impl_nom_enums(&ast, &Config::default()).unwrap_err(),
        SynthesisError::UnsupportedRepr
    );
    let ast = union(vec![repr("u128")], Vec::new(), Vec::new());
    assert_eq!(
        impl_nom_enums(&ast, &Config::default()).unwrap_err(),
        SynthesisError::UnsupportedRepr
    );
}

#[test]
fn the_representation_is_the_first_word_of_the_first_repr() {
    let attrs = vec![
        Attribute { meta: None },
        Attribute { meta: Some(Meta::Path) },
        Attribute { meta: Some(Meta::NameValue) },
        Attribute {
            meta: Some(Meta::List {
                ident: Some("derive".to_string()),
                nested: vec![NestedMeta::Word("Debug".to_string())],
            }),
        },
        Attribute { meta: Some(Meta::List { ident: None, nested: vec![NestedMeta::Lit] }) },
        Attribute { meta: Some(Meta::List { ident: Some("repr".to_string()), nested: vec![] }) },
        Attribute {
            meta: Some(Meta::List {
                ident: Some("repr".to_string()),
                nested: vec![NestedMeta::Word("u8".to_string()), NestedMeta::Lit],
            }),
        },
        repr("u16"),
    ];
    assert_eq!(get_repr(&attrs), Ok(Some("u8".to_string())));
    assert_eq!(get_repr(&attrs[..6]), Ok(None));
    assert_eq!(get_repr(&[]), Ok(None));
}

#[test]
fn a_repr_that_is_no_word_fails_synthesis() {
    let lit = Attribute {
        meta: Some(Meta::List { ident: Some("repr".to_string()), nested: vec![NestedMeta::Lit] }),
    };
    let meta = Attribute {
        meta: Some(Meta::List {
            ident: Some("repr".to_string()),
            nested: vec![NestedMeta::Meta, NestedMeta::Word("u8".to_string())],
        }),
    };
    assert_eq!(get_repr(&[lit]), Err(SynthesisError::MalformedRepr));
    assert_eq!(get_repr(&[meta, repr("u8")]), Err(SynthesisError::MalformedRepr));
    let ast = union(
        vec![Attribute {
            meta: Some(Meta::List {
                ident: Some("repr".to_string()),
                nested: vec![NestedMeta::Lit],
            }),
        }],
        Vec::new(),
        vec![unit("A", Discriminant::Implicit)],
    );
    assert_eq!(
        impl_nom_enums(&ast, &Config::default()).unwrap_err(),
        SynthesisError::MalformedRepr
    );
}

#[test]
fn which_declarations_are_unions_without_fields() {
    assert!(is_input_fieldless_enum(&union(vec![], vec![], vec![])));
    assert!(is_input_fieldless_enum(&union(
        vec![],
        vec![],
        vec![unit("A", Discriminant::Implicit), unit("B", Discriminant::Implicit)]
    )));
    assert!(!is_input_fieldless_enum(&abc()));
    let record = DeriveInput {
        ident: "S".to_string(),
        attrs: Vec::new(),
        nom_attrs: Vec::new(),
        data: Data::Struct(Fields { unnamed: false, items: Vec::new() }),
    };
    assert!(!is_input_fieldless_enum(&record));
}

#[test]
fn the_fieldless_routine_is_for_unions_without_fields_only() {
    let none: Vec<MetaAttr> = Vec::new();
    let config = Config::default();
    assert_eq!(
        impl_nom_fieldless_enums(&abc(), "u8".to_string(), &none, &config).unwrap_err(),
        SynthesisError::UnexpectedShape
    );
    assert_eq!(
        impl_nom_fieldless_enums(&abc(), "u7".to_string(), &none, &config).unwrap_err(),
        SynthesisError::UnsupportedRepr
    );
    let record = DeriveInput {
        ident: "S".to_string(),
        attrs: Vec::new(),
        nom_attrs: Vec::new(),
        data: Data::Struct(Fields { unnamed: false, items: Vec::new() }),
    };
    assert_eq!(
        impl_nom_fieldless_enums(&record, "u8".to_string(), &none, &config).unwrap_err(),
        SynthesisError::UnexpectedShape
    );
    let mut little = Config::default();
    little.big_endian = false;
    let ast = union(vec![], vec![], vec![unit("A", Discriminant::Literal(0x0102))]);
    let r = impl_nom_fieldless_enums(&ast, "u16".to_string(), &none, &little).unwrap();
    assert_eq!(r.order, ByteOrder::Little);
    assert_eq!(r.parse(&[2, 1]).unwrap(), Ok((&[][..], 0)));
}

#[test]
fn a_bad_annotation_on_the_union_fails_first() {
    let ast = union(vec![], vec![entry("Selector", None)], vec![unit("A", Discriminant::Implicit)]);
    assert_eq!(
        impl_nom_enums(&ast, &Config::default()).unwrap_err(),
        SynthesisError::AttributeSyntax { index: 0 }
    );
}

#[test]
fn a_type_gets_the_routine_of_its_shape() {
    let config = Config::default();
    let record = DeriveInput {
        ident: "S".to_string(),
        attrs: Vec::new(),
        nom_attrs: Vec::new(),
        data: Data::Struct(Fields { unnamed: true, items: vec![field("_0", "u8")] }),
    };
    match synthesize_type(&record, &config).unwrap() {
        GeneratedRoutine::Record(r) => {
            assert!(r.struct_def.unnamed);
            assert_eq!(r.parse(&[4]).unwrap().unwrap().1, vec![FieldValue::Single(4)]);
        }
        other => panic!("{:?}", other),
    }
    assert!(matches!(
        synthesize_type(&abc(), &config).unwrap(),
        GeneratedRoutine::Union(EnumRoutine::Selector(_))
    ));
    let fieldless = union(vec![repr("u8")], vec![], vec![unit("A", Discriminant::Implicit)]);
    assert!(matches!(
        synthesize_type(&fieldless, &config).unwrap(),
        GeneratedRoutine::Union(EnumRoutine::Fieldless(_))
    ));
    let bare = union(vec![repr("u8")], vec![], vec![variant("A", None, vec![field("x", "u8")])]);
    assert_eq!(synthesize_type(&bare, &config).unwrap_err(), SynthesisError::MissingSelector);
}

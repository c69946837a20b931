use nom_schema::attr::{
    find_first, get_selector, has_kind, kind_of, parse_entry, parse_nom_attribute, MetaAttr,
    MetaAttrType, RawEntry,
};
use nom_schema::error::SynthesisError;

fn entry(keyword: &str, argument: Option<&str>) -> RawEntry {
    RawEntry { keyword: keyword.to_string(), argument: argument.map(|a| a.to_string()) }
}

#[test]
fn every_keyword_names_its_kind() {
    assert_eq!(kind_of("Selector"), Some(MetaAttrType::Selector));
    assert_eq!(kind_of("BigEndian"), Some(MetaAttrType::BigEndian));
    assert_eq!(kind_of("LittleEndian"), Some(MetaAttrType::LittleEndian));
    assert_eq!(kind_of("Verify"), Some(MetaAttrType::Verify));
    assert_eq!(kind_of("PreExec"), Some(MetaAttrType::PreExec));
    assert_eq!(kind_of("PostExec"), Some(MetaAttrType::PostExec));
    assert_eq!(kind_of("Count"), Some(MetaAttrType::Count));
    assert_eq!(kind_of("LengthCount"), Some(MetaAttrType::LengthCount));
    assert_eq!(kind_of("Cond"), Some(MetaAttrType::Cond));
    assert_eq!(kind_of("Parse"), Some(MetaAttrType::Parse));
    assert_eq!(kind_of("selector"), None);
    assert_eq!(kind_of(""), None);
}

#[test]
fn entries_keep_their_order_and_arguments() {
    let raw = vec![
        entry("BigEndian", None),
        entry("Verify", Some("value > 0")),
        entry("PreExec", Some("let x = 1;")),
    ];
    let list = parse_nom_attribute(&raw).unwrap();
    assert_eq!(list.len(), 3);
    assert_eq!(list[0].attr_type, MetaAttrType::BigEndian);
    assert_eq!(list[0].arg0, None);
    assert_eq!(list[1].attr_type, MetaAttrType::Verify);
    assert_eq!(list[1].arg(), Some(&"value > 0".to_string()));
    assert_eq!(list[2].attr_type, MetaAttrType::PreExec);
    assert!(list[2].is_type(MetaAttrType::PreExec));
    assert!(!list[2].is_type(MetaAttrType::PostExec));
}

#[test]
fn no_entries_give_no_annotations() {
    let list = parse_nom_attribute(&Vec::new()).unwrap();
    assert!(list.is_empty());
    assert_eq!(get_selector(&list), None);
}

#[test]
fn unknown_keyword_is_rejected_by_its_place() {
    let raw = vec![entry("BigEndian", None), entry("Sideways", None)];
    assert_eq!(
        parse_nom_attribute(&raw).unwrap_err(),
        SynthesisError::AttributeSyntax { index: 1 }
    );
}

#[test]
fn missing_argument_is_rejected() {
    let raw = vec![entry("Selector", None)];
    assert_eq!(
        parse_nom_attribute(&raw).unwrap_err(),
        SynthesisError::AttributeSyntax { index: 0 }
    );
    assert!(parse_entry(&entry("Verify", None)).is_none());
}

#[test]
fn argument_on_a_bare_kind_is_rejected() {
    let raw = vec![entry("Selector", Some("u8")), entry("LittleEndian", Some("yes"))];
    assert_eq!(
        parse_nom_attribute(&raw).unwrap_err(),
        SynthesisError::AttributeSyntax { index: 1 }
    );
}

#[test]
fn the_first_bad_entry_is_reported() {
    let raw = vec![entry("Nope", None), entry("AlsoNope", None)];
    assert_eq!(
        parse_nom_attribute(&raw).unwrap_err(),
        SynthesisError::AttributeSyntax { index: 0 }
    );
}

#[test]
fn selector_is_the_first_of_its_kind() {
    let raw = vec![
        entry("BigEndian", None),
        entry("Selector", Some("u8")),
        entry("Selector", Some("u16")),
    ];
    let list = parse_nom_attribute(&raw).unwrap();
    assert_eq!(get_selector(&list), Some("u8".to_string()));
    assert_eq!(find_first(&list, MetaAttrType::Selector), Some("u8".to_string()));
}

#[test]
fn selector_is_absent_without_a_selector_entry() {
    let raw = vec![entry("BigEndian", None), entry("Verify", Some("a == 1"))];
    let list = parse_nom_attribute(&raw).unwrap();
    assert_eq!(get_selector(&list), None);
}

#[test]
fn kinds_are_found_wherever_they_stand() {
    let list = vec![
        MetaAttr { attr_type: MetaAttrType::Count, arg0: Some("3".to_string()) },
        MetaAttr { attr_type: MetaAttrType::LittleEndian, arg0: None },
    ];
    assert!(has_kind(&list, MetaAttrType::LittleEndian));
    assert!(has_kind(&list, MetaAttrType::Count));
    assert!(!has_kind(&list, MetaAttrType::BigEndian));
    assert_eq!(find_first(&list, MetaAttrType::Count), Some("3".to_string()));
    assert_eq!(find_first(&list, MetaAttrType::LittleEndian), None);
    assert_eq!(find_first(&list, MetaAttrType::Verify), None);
}

#[test]
fn every_error_has_its_message() {
    assert_eq!(
        SynthesisError::MissingSelector.message(),
        "selector required: a tagged union with fields must name its 'Selector' type"
    );
    assert_eq!(
        SynthesisError::AttributeSyntax { index: 2 }.message(),
        "malformed or unrecognized annotation"
    );
    assert_eq!(
        SynthesisError::MissingVariantSelector { variant: 0 }.message(),
        "the 'Selector' annotation must give the pattern of each variant"
    );
    assert_eq!(
        SynthesisError::MissingRepr.message(),
        "a fieldless union must have a 'repr' attribute"
    );
    assert_eq!(SynthesisError::MalformedRepr.message(), "unsupported item in 'repr'");
    assert_eq!(SynthesisError::UnsupportedRepr.message(), "cannot parse 'repr' content");
    assert_eq!(
        SynthesisError::UnsupportedType { field: 1 }.message(),
        "unsupported field type without a 'Parse' annotation"
    );
    assert_eq!(SynthesisError::InvalidSelectorType.message(), "invalid selector type");
    assert_eq!(SynthesisError::InvalidSelector { variant: 3 }.message(), "invalid selector value");
    assert_eq!(
        SynthesisError::UnexpectedShape.message(),
        "the declaration has not the expected shape"
    );
}

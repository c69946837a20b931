use nom_schema::expr::{parse_comparison, parse_term, CharClass, Relation, Term};

fn name(text: &str) -> Term {
    Term::Name(text.to_string())
}

fn same(a: &Term, b: &Term) -> bool {
    match (a, b) {
        (Term::Name(x), Term::Name(y)) => x == y,
        (Term::Number(x), Term::Number(y)) => x == y,
        _ => false,
    }
}

#[test]
fn a_comparison_has_two_terms_and_a_relation() {
    let c = parse_comparison("value > 0").unwrap();
    assert!(same(&c.lhs, &name("value")));
    assert_eq!(c.relation, Relation::Greater);
    assert!(same(&c.rhs, &Term::Number(0)));
}

#[test]
fn every_relation_is_read() {
    let cases = [
        ("a==1", Relation::Equal),
        ("a != 1", Relation::NotEqual),
        ("a<1", Relation::Less),
        ("a <=1", Relation::LessEqual),
        ("a> 1", Relation::Greater),
        ("  a >= 1  ", Relation::GreaterEqual),
    ];
    for (text, relation) in cases {
        let c = parse_comparison(text).unwrap();
        assert_eq!(c.relation, relation);
        assert!(same(&c.lhs, &name("a")));
        assert!(same(&c.rhs, &Term::Number(1)));
    }
}

#[test]
fn numbers_may_be_negative_and_stand_on_either_side() {
    let c = parse_comparison("-12 <= _len2").unwrap();
    assert!(same(&c.lhs, &Term::Number(-12)));
    assert!(same(&c.rhs, &name("_len2")));
    let c = parse_comparison("x < -1").unwrap();
    assert!(same(&c.rhs, &Term::Number(-1)));
}

#[test]
fn numbers_have_at_most_eighteen_digits() {
    let c = parse_comparison("a == 999999999999999999").unwrap();
    assert!(same(&c.rhs, &Term::Number(999_999_999_999_999_999)));
    assert!(parse_comparison("a == 1000000000000000000").is_none());
    assert!(same(&parse_term("000000000000000007").unwrap(), &Term::Number(7)));
}

#[test]
fn other_text_is_no_comparison() {
    for text in [
        "",
        "a",
        "a >",
        "> 1",
        "a = 1",
        "a == 1 extra",
        "a == b == c",
        "*a == 1",
        "a.len() > 0",
        "a > 0 && b > 0",
        "a == -",
        "a == 1x",
        "a\t== 1",
    ] {
        assert!(parse_comparison(text).is_none(), "{:?}", text);
    }
}

#[test]
fn a_lone_term_is_a_name_or_a_number() {
    assert!(same(&parse_term(" count ").unwrap(), &name("count")));
    assert!(same(&parse_term("3").unwrap(), &Term::Number(3)));
    assert!(same(&parse_term("-3").unwrap(), &Term::Number(-3)));
    assert!(parse_term("").is_none());
    assert!(parse_term("a b").is_none());
    assert!(parse_term("a+1").is_none());
    assert!(parse_term("3u8").is_none());
}

#[test]
fn relations_compare_integers() {
    assert!(Relation::Equal.holds(2, 2));
    assert!(!Relation::Equal.holds(2, 3));
    assert!(Relation::NotEqual.holds(2, 3));
    assert!(Relation::Less.holds(-1, 0));
    assert!(!Relation::Less.holds(0, 0));
    assert!(Relation::LessEqual.holds(0, 0));
    assert!(Relation::Greater.holds(5, 0));
    assert!(!Relation::Greater.holds(0, 0));
    assert!(Relation::GreaterEqual.holds(0, 0));
    assert!(!Relation::GreaterEqual.holds(-1, 0));
}

#[test]
fn character_classes() {
    assert!(CharClass::Space.admits(' '));
    assert!(!CharClass::Space.admits('\t'));
    assert!(CharClass::Name.admits('_'));
    assert!(CharClass::Name.admits('Z'));
    assert!(CharClass::Name.admits('7'));
    assert!(!CharClass::Name.admits(':'));
    assert!(CharClass::Digit.admits('0'));
    assert!(!CharClass::Digit.admits('a'));
    assert!(CharClass::Path.admits(':'));
    assert!(!CharClass::Path.admits('<'));
}

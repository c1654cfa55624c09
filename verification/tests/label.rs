use proto_derive::directive::{Lit, MetaItem};
use proto_derive::error::Describe;
use proto_derive::label::Label;

#[test]
fn label_words_round_trip() {
    for label in Label::variants() {
        assert!(Label::parse(&label.to_string()) == Some(label));
        assert!(Label::parse(label.as_str()) == Some(label));
    }
}

#[test]
fn label_variants_come_in_declaration_order() {
    let all = Label::variants();
    assert!(all.len() == 3);
    assert!(all[0] == Label::Optional);
    assert!(all[1] == Label::Required);
    assert!(all[2] == Label::Repeated);
}

#[test]
fn label_words_are_lower_case() {
    assert_eq!(Label::Optional.as_str(), "optional");
    assert_eq!(Label::Required.as_str(), "required");
    assert_eq!(Label::Repeated.as_str(), "repeated");
}

#[test]
fn label_display_and_debug_are_the_same_text() {
    for label in Label::variants() {
        assert_eq!(label.to_string(), label.as_str());
        assert_eq!(label.debug(), label.as_str());
        assert_eq!(label.describe(), label.as_str());
    }
}

#[test]
fn label_parse_is_exact() {
    assert!(Label::parse("Optional").is_none());
    assert!(Label::parse("OPTIONAL").is_none());
    assert!(Label::parse("optional ").is_none());
    assert!(Label::parse("").is_none());
    assert!(Label::parse("option").is_none());
    assert!(Label::parse("optional") == Some(Label::Optional));
    assert!(Label::parse("required") == Some(Label::Required));
    assert!(Label::parse("repeated") == Some(Label::Repeated));
}

#[test]
fn label_from_attr_takes_bare_words_only() {
    assert!(Label::from_attr(&MetaItem::Word("repeated".to_string())) == Some(Label::Repeated));
    assert!(Label::from_attr(&MetaItem::Word("tag".to_string())).is_none());
    assert!(Label::from_attr(&MetaItem::List("optional".to_string(), vec![])).is_none());
    assert!(Label::from_attr(&MetaItem::NameValue("optional".to_string(), Lit::Bool(true)))
        .is_none());
}

use proto_derive::directive::{directives, Attribute, Lit, MetaItem, NestedMetaItem};
use proto_derive::error::{Describe, ErrorKind};

fn word(name: &str) -> MetaItem {
    MetaItem::Word(name.to_string())
}

fn proto(entries: Vec<NestedMetaItem>) -> Attribute {
    Attribute { value: MetaItem::List("proto".to_string(), entries) }
}

fn named(item: MetaItem) -> NestedMetaItem {
    NestedMetaItem::MetaItem(item)
}

#[test]
fn directives_keep_source_order_across_lists() {
    let attrs = vec![
        proto(vec![named(word("int32")), named(word("optional"))]),
        proto(vec![named(MetaItem::NameValue("tag".to_string(), Lit::Str("1".to_string())))]),
    ];
    let items = directives(attrs).unwrap();
    assert_eq!(
        items,
        vec![
            word("int32"),
            word("optional"),
            MetaItem::NameValue("tag".to_string(), Lit::Str("1".to_string())),
        ]
    );
}

#[test]
fn directives_pass_over_other_annotations() {
    let attrs = vec![
        Attribute { value: word("proto") },
        Attribute { value: MetaItem::List("derive".to_string(), vec![named(word("Clone"))]) },
        Attribute {
            value: MetaItem::NameValue("doc".to_string(), Lit::Str("a field".to_string())),
        },
        Attribute { value: MetaItem::NameValue("proto".to_string(), Lit::Int(1)) },
        Attribute {
            value: MetaItem::List("serde".to_string(), vec![NestedMetaItem::Literal(Lit::Int(3))]),
        },
        proto(vec![named(word("bool"))]),
    ];
    assert_eq!(directives(attrs).unwrap(), vec![word("bool")]);
}

#[test]
fn directives_of_nothing_are_none() {
    assert_eq!(directives(vec![]).unwrap(), vec![]);
    assert_eq!(directives(vec![proto(vec![])]).unwrap(), vec![]);
}

#[test]
fn directives_reject_a_bare_literal() {
    let attrs = vec![
        proto(vec![named(word("int32")), NestedMetaItem::Literal(Lit::Int(7))]),
        proto(vec![NestedMetaItem::Literal(Lit::Bool(true))]),
    ];
    let error = directives(attrs).unwrap_err();
    assert_eq!(error.kind, ErrorKind::UnexpectedLiteral);
    assert_eq!(error.message, "invalid proto attribute: 7");
    assert_eq!(error.to_string(), "invalid proto attribute: 7");
}

#[test]
fn directives_name_the_first_literal() {
    let attrs = vec![
        proto(vec![named(word("int32"))]),
        proto(vec![
            NestedMetaItem::Literal(Lit::Str("first".to_string())),
            NestedMetaItem::Literal(Lit::Str("second".to_string())),
        ]),
    ];
    let error = directives(attrs).unwrap_err();
    assert_eq!(error.message, "invalid proto attribute: \"first\"");
}

#[test]
fn literals_are_described_by_kind() {
    assert_eq!(Lit::Str("a b".to_string()).describe(), "\"a b\"");
    assert_eq!(Lit::Int(18446744073709551615).describe(), "18446744073709551615");
    assert_eq!(Lit::Bool(false).describe(), "false");
    assert_eq!(Lit::Other("b'x'".to_string()).describe(), "b'x'");
}

#[test]
fn meta_item_name_is_that_of_every_shape() {
    assert_eq!(word("tag").name(), "tag");
    assert_eq!(MetaItem::List("tags".to_string(), vec![]).name(), "tags");
    assert_eq!(MetaItem::NameValue("default".to_string(), Lit::Bool(true)).name(), "default");
}

use proto_derive::attr::{
    bool_attr, path_attr, set_bool, set_option, tag_attr, tags_attr, word_attr,
};
use proto_derive::directive::{Lit, MetaItem, NestedMetaItem};
use proto_derive::error::{Describe, ErrorKind};
use proto_derive::label::Label;

fn word(name: &str) -> MetaItem {
    MetaItem::Word(name.to_string())
}

fn list(name: &str, entries: Vec<NestedMetaItem>) -> MetaItem {
    MetaItem::List(name.to_string(), entries)
}

fn pair(name: &str, lit: Lit) -> MetaItem {
    MetaItem::NameValue(name.to_string(), lit)
}

fn text(s: &str) -> Lit {
    Lit::Str(s.to_string())
}

fn number(n: u64) -> NestedMetaItem {
    NestedMetaItem::Literal(Lit::Int(n))
}

#[test]
fn set_option_stores_once() {
    let mut slot: Option<u32> = None;
    assert!(set_option(&mut slot, 1, "duplicate tag attributes").is_ok());
    assert_eq!(slot, Some(1));
}

#[test]
fn set_option_names_both_values_on_the_second_time() {
    let mut slot: Option<u32> = None;
    set_option(&mut slot, 1, "duplicate tag attributes").unwrap();
    let error = set_option(&mut slot, 2, "duplicate tag attributes").unwrap_err();
    assert_eq!(error.kind, ErrorKind::DuplicateAssignment);
    assert_eq!(error.message, "duplicate tag attributes: 1 and 2");
    assert_eq!(slot, Some(1));
}

#[test]
fn set_option_shows_values_of_every_type() {
    let mut label = Some(Label::Optional);
    let error = set_option(&mut label, Label::Repeated, "duplicate label attributes")
        .err()
        .unwrap();
    assert_eq!(error.message, "duplicate label attributes: optional and repeated");
    let mut flag = Some(true);
    let error = set_option(&mut flag, false, "twice").unwrap_err();
    assert_eq!(error.message, "twice: true and false");
    let mut name = Some("a".to_string());
    let error = set_option(&mut name, "b".to_string(), "twice").unwrap_err();
    assert_eq!(error.message, "twice: a and b");
    let mut tags = Some(vec![1u32, 2]);
    let error = set_option(&mut tags, vec![3u32], "twice").unwrap_err();
    assert_eq!(error.message, "twice: [1, 2] and [3]");
    let mut none = Some(Vec::<u32>::new());
    let error = set_option(&mut none, vec![10u32, 20, 30], "twice").unwrap_err();
    assert_eq!(error.message, "twice: [] and [10, 20, 30]");
}

#[test]
fn set_option_shows_strings_as_they_are() {
    let mut slot = Some(String::from("a"));
    let error = set_option(&mut slot, String::from("b"), "dup").unwrap_err();
    assert_eq!(error.kind, ErrorKind::DuplicateAssignment);
    assert_eq!(error.message, "dup: a and b");
    assert_eq!(slot, Some(String::from("a")));
}

#[test]
fn describe_spells_plain_values() {
    assert_eq!(7u32.describe(), "7");
    assert_eq!(70000000000u64.describe(), "70000000000");
    assert_eq!(true.describe(), "true");
    assert_eq!("x".to_string().describe(), "x");
    assert_eq!(vec![4u32, 5].describe(), "[4, 5]");
}

#[test]
fn set_bool_raises_once() {
    let mut flag = false;
    assert!(set_bool(&mut flag, "duplicate message attribute").is_ok());
    assert!(flag);
    let error = set_bool(&mut flag, "duplicate message attribute").unwrap_err();
    assert_eq!(error.kind, ErrorKind::DuplicateAssignment);
    assert_eq!(error.message, "duplicate message attribute");
    assert!(flag);
}

#[test]
fn word_attr_matches_bare_words_only() {
    assert!(word_attr("message", &word("message")));
    assert!(!word_attr("message", &word("Message")));
    assert!(!word_attr("message", &word("messages")));
    assert!(!word_attr("message", &list("message", vec![])));
    assert!(!word_attr("message", &pair("message", Lit::Bool(true))));
}

#[test]
fn bool_attr_accepts_four_shapes() {
    assert_eq!(bool_attr("packed", &word("packed")).unwrap(), Some(true));
    assert_eq!(
        bool_attr("packed", &list("packed", vec![NestedMetaItem::Literal(Lit::Bool(false))]))
            .unwrap(),
        Some(false)
    );
    assert_eq!(bool_attr("packed", &pair("packed", text("true"))).unwrap(), Some(true));
    assert_eq!(bool_attr("packed", &pair("packed", text("false"))).unwrap(), Some(false));
    assert_eq!(bool_attr("packed", &pair("packed", Lit::Bool(false))).unwrap(), Some(false));
}

#[test]
fn bool_attr_is_no_match_on_another_name() {
    assert_eq!(bool_attr("packed", &word("boxed")).unwrap(), None);
    assert_eq!(bool_attr("packed", &pair("tag", text("nonsense"))).unwrap(), None);
    assert_eq!(bool_attr("packed", &list("tags", vec![])).unwrap(), None);
}

#[test]
fn bool_attr_fails_on_other_shapes() {
    let bad = vec![
        list("packed", vec![]),
        list("packed", vec![number(1)]),
        list(
            "packed",
            vec![NestedMetaItem::Literal(Lit::Bool(true)), NestedMetaItem::Literal(Lit::Bool(true))],
        ),
        list("packed", vec![NestedMetaItem::MetaItem(word("true"))]),
        pair("packed", text("yes")),
        pair("packed", text("True")),
        pair("packed", Lit::Int(1)),
        pair("packed", Lit::Other("'t'".to_string())),
    ];
    for attr in &bad {
        let error = bool_attr("packed", attr).unwrap_err();
        assert_eq!(error.kind, ErrorKind::MalformedDirective);
        assert_eq!(error.message, "invalid packed attribute");
    }
}

#[test]
fn tag_attr_reads_all_spellings_alike() {
    assert_eq!(tag_attr(&list("tag", vec![number(5)])).unwrap(), Some(5));
    assert_eq!(tag_attr(&pair("tag", text("5"))).unwrap(), Some(5));
    assert_eq!(tag_attr(&pair("tag", Lit::Int(5))).unwrap(), Some(5));
}

#[test]
fn tag_attr_rejects_bad_strings() {
    for bad in ["-1", "abc", "", " 5", "5 ", "4294967296", "1.5"] {
        let error = tag_attr(&pair("tag", text(bad))).unwrap_err();
        assert_eq!(error.kind, ErrorKind::MalformedDirective, "on {:?}", bad);
        assert_eq!(error.message, "invalid tag attribute");
    }
}

#[test]
fn tag_attr_rejects_other_shapes() {
    let bad = vec![
        word("tag"),
        list("tag", vec![]),
        list("tag", vec![number(1), number(2)]),
        list("tag", vec![NestedMetaItem::Literal(text("1"))]),
        list("tag", vec![NestedMetaItem::MetaItem(word("one"))]),
        pair("tag", Lit::Bool(true)),
        pair("tag", Lit::Other("1.0".to_string())),
    ];
    for attr in &bad {
        let error = tag_attr(attr).unwrap_err();
        assert_eq!(error.kind, ErrorKind::MalformedDirective);
    }
}

#[test]
fn tag_attr_rejects_literals_beyond_32_bits() {
    assert_eq!(tag_attr(&list("tag", vec![number(4294967295)])).unwrap(), Some(4294967295));
    assert!(tag_attr(&list("tag", vec![number(4294967296)])).is_err());
    assert!(tag_attr(&pair("tag", Lit::Int(4294967297))).is_err());
}

#[test]
fn tag_attr_is_no_match_on_another_name() {
    assert_eq!(tag_attr(&word("int32")).unwrap(), None);
    assert_eq!(tag_attr(&pair("tags", text("x"))).unwrap(), None);
    assert_eq!(tag_attr(&list("Tag", vec![number(1)])).unwrap(), None);
}

#[test]
fn tags_attr_reads_a_string_of_numbers() {
    assert_eq!(tags_attr(&pair("tags", text("1, 2, 3"))).unwrap(), Some(vec![1, 2, 3]));
    assert_eq!(tags_attr(&pair("tags", text("9"))).unwrap(), Some(vec![9]));
}

#[test]
fn tags_attr_reads_each_list_entry_by_itself() {
    assert_eq!(
        tags_attr(&list("tags", vec![number(4), number(5), number(6)])).unwrap(),
        Some(vec![4, 5, 6])
    );
    assert_eq!(tags_attr(&list("tags", vec![number(3), number(1)])).unwrap(), Some(vec![3, 1]));
}

#[test]
fn tags_attr_fails_on_empty_or_bad_segments() {
    for bad in ["", "1, two", "1,,3", "1;2", "-1"] {
        let error = tags_attr(&pair("tags", text(bad))).unwrap_err();
        assert_eq!(error.kind, ErrorKind::MalformedDirective, "on {:?}", bad);
        assert_eq!(error.message, "invalid tags attribute");
    }
}

#[test]
fn tags_attr_fails_on_other_shapes() {
    let bad = vec![
        word("tags"),
        list("tags", vec![]),
        list("tags", vec![number(1), NestedMetaItem::Literal(text("2"))]),
        list("tags", vec![NestedMetaItem::Literal(Lit::Bool(true)), number(2)]),
        list("tags", vec![number(1), number(4294967296)]),
        pair("tags", Lit::Int(1)),
    ];
    for attr in &bad {
        assert!(tags_attr(attr).is_err());
    }
}

#[test]
fn tags_attr_is_no_match_on_another_name() {
    assert_eq!(tags_attr(&pair("tag", text("1"))).unwrap(), None);
    assert_eq!(tags_attr(&word("oneof")).unwrap(), None);
}

#[test]
fn probing_a_list_for_an_absent_name_is_no_failure() {
    let attrs = vec![word("int32"), pair("default", text("abc")), list("other", vec![number(1)])];
    for attr in &attrs {
        assert_eq!(tag_attr(attr).unwrap(), None);
        assert_eq!(tags_attr(attr).unwrap(), None);
        assert_eq!(bool_attr("packed", attr).unwrap(), None);
        assert!(!word_attr("packed", attr));
    }
    assert!(tag_attr(&word("tag")).is_err());
}

#[test]
fn path_attr_reads_a_string_or_one_word() {
    assert_eq!(path_attr(&pair("oneof", text("a::B"))), Some("a::B".to_string()));
    assert_eq!(
        path_attr(&list("oneof", vec![NestedMetaItem::MetaItem(word("B"))])),
        Some("B".to_string())
    );
    assert_eq!(path_attr(&word("oneof")), None);
    assert_eq!(path_attr(&list("oneof", vec![])), None);
    assert_eq!(path_attr(&list("oneof", vec![number(1)])), None);
    assert_eq!(path_attr(&pair("oneof", Lit::Int(1))), None);
}

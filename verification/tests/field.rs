use proto_derive::directive::{Attribute, Lit, MetaItem, NestedMetaItem};
use proto_derive::error::ErrorKind;
use proto_derive::field::Field;
use proto_derive::label::Label;
use proto_derive::scalar::{Kind, Ty};
use proto_derive::tokens::{
    ambient_default, encode_call, encoded_len_call, merge_call, Fragment,
};

fn word(name: &str) -> MetaItem {
    MetaItem::Word(name.to_string())
}

fn list(name: &str, entries: Vec<NestedMetaItem>) -> MetaItem {
    MetaItem::List(name.to_string(), entries)
}

fn pair(name: &str, lit: Lit) -> MetaItem {
    MetaItem::NameValue(name.to_string(), lit)
}

fn text(s: &str) -> Lit {
    Lit::Str(s.to_string())
}

fn tag(n: u64) -> MetaItem {
    list("tag", vec![NestedMetaItem::Literal(Lit::Int(n))])
}

fn entry(item: MetaItem) -> NestedMetaItem {
    NestedMetaItem::MetaItem(item)
}

fn proto(items: Vec<MetaItem>) -> Vec<Attribute> {
    vec![Attribute {
        value: MetaItem::List("proto".to_string(), items.into_iter().map(entry).collect()),
    }]
}

fn resolve(items: Vec<MetaItem>) -> Field {
    match Field::new(proto(items)) {
        Ok(Some(field)) => field,
        Ok(None) => panic!("no field"),
        Err(error) => panic!("{}", error.message),
    }
}

fn fail(items: Vec<MetaItem>) -> proto_derive::error::Error {
    match Field::new(proto(items)) {
        Ok(_) => panic!("resolved"),
        Err(error) => error,
    }
}

fn oneof(tags: &str) -> Vec<MetaItem> {
    vec![pair("oneof", text("Widget")), pair("tags", text(tags))]
}

#[test]
fn field_resolves_each_kind() {
    assert!(matches!(resolve(vec![word("int32"), tag(1)]), Field::Scalar(_)));
    assert!(matches!(resolve(vec![word("message"), tag(1)]), Field::Message(_)));
    let map = list("map", vec![entry(word("string")), entry(word("bytes"))]);
    assert!(matches!(resolve(vec![map, tag(1)]), Field::Mapping(_)));
    assert!(matches!(resolve(oneof("1, 2")), Field::Oneof(_)));
}

#[test]
fn field_with_two_kinds_fails_at_the_first() {
    let error = fail(vec![word("int32"), word("message"), tag(1)]);
    assert_eq!(error.kind, ErrorKind::InvalidField);
    assert_eq!(error.message, "unknown attribute: message");
    let error = fail(vec![word("message"), word("int32"), tag(1)]);
    assert_eq!(error.message, "unknown attribute: message");
    let error = fail(vec![word("message"), tag(1), pair("oneof", text("W"))]);
    assert_eq!(error.message, "unknown attribute: oneof");
    let map = list("map", vec![entry(word("string")), entry(word("bytes"))]);
    let error = fail(vec![pair("oneof", text("W")), pair("tags", text("1")), map]);
    assert_eq!(error.message, "unknown attribute: oneof");
}

#[test]
fn field_with_duplicate_tags_names_both() {
    let error = fail(vec![word("int32"), tag(1), tag(2)]);
    assert_eq!(error.kind, ErrorKind::DuplicateAssignment);
    assert!(error.message.contains('1'));
    assert!(error.message.contains('2'));
    assert_eq!(error.message, "duplicate tag attributes: 1 and 2");
    let error = fail(vec![word("message"), tag(1), pair("tag", text("2"))]);
    assert_eq!(error.message, "duplicate tag attributes: 1 and 2");
}

#[test]
fn two_tags_fail_without_a_kind_too() {
    let error = fail(vec![tag(1), tag(2)]);
    assert_eq!(error.kind, ErrorKind::DuplicateAssignment);
    assert!(error.message.contains('1'));
    assert!(error.message.contains('2'));
    assert_eq!(error.message, "duplicate tag attributes: 1 and 2");
    let error = fail(vec![pair("tag", text("2")), pair("tag", Lit::Int(1))]);
    assert_eq!(error.message, "duplicate tag attributes: 2 and 1");
    let error = fail(vec![word("int32"), word("boxed"), tag(1), tag(2)]);
    assert_eq!(error.message, "duplicate tag attributes: 1 and 2");
    let error = fail(vec![word("unheard"), tag(10), pair("oneof", text("W")), tag(20)]);
    assert_eq!(error.message, "duplicate tag attributes: 10 and 20");
}

#[test]
fn an_earlier_failure_wins_over_the_second_tag() {
    let error = fail(vec![word("int32"), word("int64"), tag(1), tag(2)]);
    assert_eq!(error.message, "duplicate type attributes: int32 and int64");
    let error = fail(vec![tag(1), pair("packed", text("maybe")), tag(2)]);
    assert_eq!(error.kind, ErrorKind::MalformedDirective);
    assert_eq!(error.message, "invalid packed attribute");
}

#[test]
fn a_bad_setting_fails_a_field_of_any_kind() {
    let error = fail(vec![word("message"), pair("tag", text("abc"))]);
    assert_eq!(error.kind, ErrorKind::MalformedDirective);
    assert_eq!(error.message, "invalid tag attribute");
    let error = fail(vec![pair("tag", text("abc"))]);
    assert_eq!(error.kind, ErrorKind::MalformedDirective);
    let error = fail(vec![word("optional"), word("repeated")]);
    assert_eq!(error.message, "duplicate label attributes: optional and repeated");
}

#[test]
fn field_with_a_tag_alone_has_no_kind() {
    let error = fail(vec![tag(1)]);
    assert_eq!(error.kind, ErrorKind::MissingKind);
    assert_eq!(error.message, "no type attribute");
}

#[test]
fn field_without_directives_has_no_kind() {
    assert_eq!(fail(vec![]).kind, ErrorKind::MissingKind);
    let error = Field::new(vec![]).err().unwrap();
    assert_eq!(error.kind, ErrorKind::MissingKind);
    let other = vec![Attribute { value: word("test") }];
    assert_eq!(Field::new(other).err().unwrap().kind, ErrorKind::MissingKind);
    assert_eq!(fail(vec![word("optional"), word("unheard")]).kind, ErrorKind::MissingKind);
}

#[test]
fn field_fails_on_a_bare_literal() {
    let attrs = vec![Attribute {
        value: MetaItem::List(
            "proto".to_string(),
            vec![entry(word("int32")), entry(tag(1)), NestedMetaItem::Literal(Lit::Bool(true))],
        ),
    }];
    let error = Field::new(attrs).err().unwrap();
    assert_eq!(error.kind, ErrorKind::UnexpectedLiteral);
    assert_eq!(error.message, "invalid proto attribute: true");
}

#[test]
fn field_from_directives_is_the_dispatcher() {
    let field = Field::from_directives(&[word("sint64"), tag(8), word("optional")]).ok().unwrap();
    match field {
        Field::Scalar(scalar) => {
            assert_eq!(scalar.ty, Ty::Sint64);
            assert_eq!(scalar.kind, Kind::Optional);
            assert_eq!(scalar.tag, 8);
        },
        _ => panic!("not a scalar field"),
    }
    let field = Field::from_directives(&[word("message"), tag(8), word("required")]).ok().unwrap();
    match field {
        Field::Message(message) => {
            assert!(message.label == Label::Required);
            assert_eq!(message.tag, 8);
        },
        _ => panic!("not a message field"),
    }
}

#[test]
fn tag_spellings_resolve_alike() {
    let spellings = vec![
        list("tag", vec![NestedMetaItem::Literal(Lit::Int(5))]),
        pair("tag", text("5")),
        pair("tag", Lit::Int(5)),
    ];
    for spelling in spellings {
        assert_eq!(resolve(vec![word("int32"), spelling]).tags(), vec![5]);
    }
    for bad in ["-1", "abc"] {
        let error = fail(vec![word("int32"), pair("tag", text(bad))]);
        assert_eq!(error.kind, ErrorKind::MalformedDirective);
    }
}

#[test]
fn tags_are_one_or_those_of_the_alternatives() {
    assert_eq!(resolve(vec![word("int32"), tag(1)]).tags(), vec![1]);
    assert_eq!(resolve(vec![word("message"), tag(2)]).tags(), vec![2]);
    let map = list("map", vec![entry(word("string")), entry(word("bytes"))]);
    assert_eq!(resolve(vec![map, tag(3)]).tags(), vec![3]);
    assert_eq!(resolve(oneof("1, 2, 3")).tags(), vec![1, 2, 3]);
    assert_eq!(resolve(oneof("7")).tags(), vec![7]);
    assert!(Field::new(proto(oneof(""))).is_err());
    assert!(Field::new(proto(oneof("1, x"))).is_err());
}

#[test]
fn oneof_field_leaves_the_work_to_its_type() {
    let field = resolve(oneof("4, 5"));
    assert_eq!(field.encoded_len("widget").as_str(), "0");
    assert_eq!(field.encode("widget").as_str(), "( ) ;");
    assert_eq!(field.merge("widget").as_str(), "Ok ( ( ) )");
    assert_eq!(field.default().as_str(), ":: std :: default :: Default :: default ( )");
    assert!(field.methods("widget").is_none());
    assert_eq!(field.tags(), vec![4, 5]);
}

#[test]
fn scalar_fragments() {
    let field = resolve(vec![word("int32"), tag(1)]);
    assert_eq!(
        field.encode("foo").as_str(),
        "_proto :: encoding :: int32 :: encode ( 1u32 , & foo , buf ) ;"
    );
    assert_eq!(
        field.merge("foo").as_str(),
        "_proto :: encoding :: int32 :: merge ( wire_type , & mut foo , buf )"
    );
    assert_eq!(
        field.encoded_len("foo").as_str(),
        "_proto :: encoding :: int32 :: encoded_len ( 1u32 , & foo )"
    );
    assert_eq!(field.default().as_str(), ":: std :: default :: Default :: default ( )");
    assert!(field.methods("foo").is_none());
}

#[test]
fn scalar_fragments_follow_the_kind() {
    let cases = [
        (vec![word("uint64"), tag(4294967295)], ""),
        (vec![word("uint64"), tag(4294967295), word("optional")], "_optional"),
        (vec![word("uint64"), tag(4294967295), word("required")], "_required"),
        (vec![word("uint64"), tag(4294967295), word("repeated")], "_packed"),
        (
            vec![word("uint64"), tag(4294967295), word("repeated"), pair("packed", text("false"))],
            "_repeated",
        ),
    ];
    for (attrs, suffix) in cases {
        let field = resolve(attrs);
        assert_eq!(
            field.encode("x").as_str(),
            format!("_proto :: encoding :: uint64 :: encode{} ( 4294967295u32 , & x , buf ) ;", suffix)
        );
        assert_eq!(
            field.merge("x").as_str(),
            format!("_proto :: encoding :: uint64 :: merge{} ( wire_type , & mut x , buf )", suffix)
        );
        assert_eq!(
            field.encoded_len("x").as_str(),
            format!("_proto :: encoding :: uint64 :: encoded_len{} ( 4294967295u32 , & x )", suffix)
        );
    }
}

#[test]
fn scalar_default_is_the_directive_text() {
    let field = resolve(vec![word("int32"), tag(0), pair("default", text("42i32"))]);
    assert_eq!(field.default().as_str(), "42i32");
    let field = resolve(vec![word("int32"), tag(0), pair("default", Lit::Int(42))]);
    assert_eq!(field.default().as_str(), "42");
}

#[test]
fn enumeration_field_has_an_accessor() {
    let field = resolve(vec![pair("enumeration", text("Color")), tag(2)]);
    assert_eq!(
        field.encode("hue").as_str(),
        "_proto :: encoding :: int32 :: encode ( 2u32 , & hue , buf ) ;"
    );
    assert_eq!(
        field.methods("hue").unwrap().as_str(),
        "pub fn hue ( & self ) -> Color { Color :: from_i32 ( self . hue ) . unwrap_or_default ( ) }"
    );
}

#[test]
fn message_fragments_follow_the_label() {
    let cases = [("optional", "_optional"), ("required", ""), ("repeated", "_repeated")];
    for (label, suffix) in cases {
        let field = resolve(vec![word("message"), word(label), tag(3)]);
        assert_eq!(
            field.encode("inner").as_str(),
            format!("_proto :: encoding :: message :: encode{} ( 3u32 , & inner , buf ) ;", suffix)
        );
        assert_eq!(
            field.merge("inner").as_str(),
            format!(
                "_proto :: encoding :: message :: merge{} ( wire_type , & mut inner , buf )",
                suffix
            )
        );
        assert_eq!(
            field.encoded_len("inner").as_str(),
            format!("_proto :: encoding :: message :: encoded_len{} ( 3u32 , & inner )", suffix)
        );
        assert_eq!(field.default().as_str(), ":: std :: default :: Default :: default ( )");
        assert!(field.methods("inner").is_none());
    }
}

#[test]
fn map_fragments() {
    let map = list("map", vec![entry(word("string")), entry(word("message"))]);
    let field = resolve(vec![map, tag(9)]);
    assert_eq!(
        field.encode("m").as_str(),
        "_proto :: encoding :: map :: encode ( _proto :: encoding :: string :: encode , \
         _proto :: encoding :: message :: encode , 9u32 , & m , buf ) ;"
    );
    assert_eq!(
        field.merge("m").as_str(),
        "_proto :: encoding :: map :: merge ( _proto :: encoding :: string :: merge , \
         _proto :: encoding :: message :: merge , wire_type , & mut m , buf )"
    );
    assert_eq!(
        field.encoded_len("m").as_str(),
        "_proto :: encoding :: map :: encoded_len ( _proto :: encoding :: string :: encoded_len , \
         _proto :: encoding :: message :: encoded_len , 9u32 , & m )"
    );
    assert_eq!(field.default().as_str(), ":: std :: default :: Default :: default ( )");
    assert!(field.methods("m").is_none());
}

#[test]
fn map_of_enumerations_has_an_accessor() {
    let value = list("enumeration", vec![entry(word("Color"))]);
    let map = list("map", vec![entry(word("int32")), entry(value)]);
    let field = resolve(vec![map, tag(9)]);
    assert_eq!(
        field.methods("hues").unwrap().as_str(),
        "pub fn hues ( & self ) -> impl Iterator < Item = Color > + '_ { self . hues . values ( ) \
         . filter_map ( | value | Color :: from_i32 ( * value ) ) }"
    );
}

#[test]
fn fragments_are_what_the_tokens_hold() {
    let mut fragment = Fragment::new();
    assert_eq!(fragment.finish().as_str(), "");
    fragment = Fragment::new();
    fragment.push("a");
    fragment.push("");
    fragment.push("b");
    fragment.push_u32(0);
    fragment.push_path("m", "f");
    assert_eq!(fragment.finish().as_str(), "a b 0u32 _proto :: encoding :: m :: f");
    let mut fragment = Fragment::new();
    fragment.push("");
    fragment.push("x");
    assert_eq!(fragment.finish().as_str(), "x");
}

#[test]
fn calls_into_the_wire_encoding() {
    assert_eq!(
        encode_call("bool", "encode", 12, "flag").as_str(),
        "_proto :: encoding :: bool :: encode ( 12u32 , & flag , buf ) ;"
    );
    assert_eq!(
        merge_call("bool", "merge", "flag").as_str(),
        "_proto :: encoding :: bool :: merge ( wire_type , & mut flag , buf )"
    );
    assert_eq!(
        encoded_len_call("bool", "encoded_len", 12, "flag").as_str(),
        "_proto :: encoding :: bool :: encoded_len ( 12u32 , & flag )"
    );
    assert_eq!(ambient_default().as_str(), ":: std :: default :: Default :: default ( )");
}

#[test]
fn exactly_one_builder_takes_a_resolved_list() {
    let map = list("map", vec![entry(word("string")), entry(word("bytes"))]);
    let lists = vec![
        vec![word("int32"), tag(1), word("optional")],
        vec![word("message"), tag(1), word("repeated")],
        vec![map, tag(1)],
        oneof("1, 2"),
    ];
    for (at, items) in lists.into_iter().enumerate() {
        let takes = [
            proto_derive::scalar::Field::new(&items).unwrap().is_some(),
            proto_derive::message::Field::new(&items).unwrap().is_some(),
            proto_derive::map::Field::new(&items).unwrap().is_some(),
            proto_derive::oneof::Field::new(&items).unwrap().is_some(),
        ];
        for (builder, took) in takes.iter().enumerate() {
            assert_eq!(*took, builder == at);
        }
        assert!(Field::from_directives(&items).is_ok());
    }
}

#[test]
fn the_order_of_directives_does_not_change_the_field() {
    let orders = vec![
        vec![word("uint32"), tag(7), word("repeated"), pair("packed", text("false"))],
        vec![pair("packed", text("false")), word("repeated"), tag(7), word("uint32")],
        vec![tag(7), pair("packed", text("false")), word("uint32"), word("repeated")],
    ];
    for items in orders {
        match resolve(items) {
            Field::Scalar(scalar) => {
                assert_eq!(scalar.ty, Ty::Uint32);
                assert_eq!(scalar.kind, Kind::Repeated);
                assert_eq!(scalar.tag, 7);
                assert_eq!(scalar.default, None);
            },
            _ => panic!("not a scalar field"),
        }
    }
}

#[test]
fn directives_may_be_spread_over_several_annotations() {
    let attrs = vec![
        Attribute { value: list("proto", vec![entry(word("message"))]) },
        Attribute { value: list("derive", vec![entry(word("Debug"))]) },
        Attribute { value: list("proto", vec![entry(tag(11)), entry(word("required"))]) },
    ];
    match Field::new(attrs) {
        Ok(Some(Field::Message(message))) => {
            assert_eq!(message.tag, 11);
            assert!(message.label == Label::Required);
        },
        _ => panic!("not a message field"),
    }
}

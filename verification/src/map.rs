//! The builder of map fields.
//!
//! A directive named `map` selects the kind and gives the two types of the map
//! as a list: `map(key, value)`. The key is a basic type that can be compared
//! (no `double`, `float` or `bytes`); the value is any scalar type, or the word
//! `message`. Besides the types the field takes a `tag`, which it must have.
//!
//! The builder takes in every directive before it decides. A setting that is
//! malformed or given twice fails at once, whatever the kind of the field. A
//! directive that the builder has no use for is passed over; it is an error
//! only once the walk is done and the kind is selected.

use crate::attr::{
    duplicate, duplicate_message, first_unknown, folded, invalid, invalid_error, is_word,
    lemma_folded_error_stays, malformed, malformed_error, note_unknown, put_tag, set_option,
    tag_attr, tag_value, unknown, unknown_error, word_attr,
};
use crate::directive::{MetaItem, NestedMetaItem};
use crate::error::{Describe, Error, Failure};
use crate::scalar::{text_view, Ty, TyView};
use crate::text::same_text;
use crate::tokens::{joined, literal_u32, path_parts, tokens_text, Fragment};
use vstd::prelude::*;

verus! {

/// The type of the values of a map.
#[derive(Clone, Debug, PartialEq, Eq)]
pub enum ValueTy {
    Scalar(Ty),
    Message,
}

/// The type of the values of a map, with the path of an enumeration as its characters.
pub enum ValueTyView {
    Scalar(TyView),
    Message,
}

impl View for ValueTy {
    type V = ValueTyView;

    open spec fn view(&self) -> ValueTyView {
        match *self {
            ValueTy::Scalar(ty) => ValueTyView::Scalar(ty@),
            ValueTy::Message => ValueTyView::Message,
        }
    }
}

impl ValueTyView {
    /// The type as a directive spells it.
    pub open spec fn word(self) -> Seq<char> {
        match self {
            ValueTyView::Scalar(ty) => ty.word(),
            ValueTyView::Message => "message"@,
        }
    }

    /// The module of the wire encoding that handles values of the type.
    pub open spec fn module(self) -> Seq<char> {
        match self {
            ValueTyView::Scalar(ty) => ty.module(),
            ValueTyView::Message => "message"@,
        }
    }
}

impl ValueTy {
    /// The module of the wire encoding that handles values of the type.
    pub fn module(&self) -> (name: &'static str)
        ensures
            name@ == self@.module(),
    {
        match self {
            ValueTy::Scalar(ty) => ty.module(),
            ValueTy::Message => "message",
        }
    }
}

/// The two types of a map.
#[derive(Clone, Debug, PartialEq, Eq)]
pub struct Types {
    pub key: Ty,
    pub value: ValueTy,
}

/// The two types of a map, with the path of an enumeration as its characters.
pub struct TypesView {
    pub key: TyView,
    pub value: ValueTyView,
}

impl View for Types {
    type V = TypesView;

    open spec fn view(&self) -> TypesView {
        TypesView { key: self.key@, value: self.value@ }
    }
}

/// The two types as a message shows them: key, comma, value.
pub open spec fn types_text(types: TypesView) -> Seq<char> {
    types.key.word() + ", "@ + types.value.word()
}

impl Describe for Types {
    open spec fn description(&self) -> Seq<char> {
        types_text(self@)
    }

    fn describe(&self) -> (text: String) {
        let mut text: String = self.key.to_string();
        text.append(", ");
        match &self.value {
            ValueTy::Scalar(ty) => {
                let word: String = ty.to_string();
                text.append(word.as_str());
            },
            ValueTy::Message => {
                text.append("message");
            },
        }
        text
    }
}

/// A map field.
#[derive(Clone, Debug, PartialEq, Eq)]
pub struct Field {
    pub key_ty: Ty,
    pub value_ty: ValueTy,
    pub tag: u32,
}

/// A map field, with the path of an enumeration as its characters.
pub struct FieldView {
    pub key_ty: TyView,
    pub value_ty: ValueTyView,
    pub tag: u32,
}

impl View for Field {
    type V = FieldView;

    open spec fn view(&self) -> FieldView {
        FieldView { key_ty: self.key_ty@, value_ty: self.value_ty@, tag: self.tag }
    }
}

/// What the directives read so far have set.
pub struct Slots {
    pub types: Option<Types>,
    pub tag: Option<u32>,
}

/// The slots, with the path of an enumeration as its characters.
pub struct SlotsView {
    pub types: Option<TypesView>,
    pub tag: Option<u32>,
}

impl View for Slots {
    type V = SlotsView;

    open spec fn view(&self) -> SlotsView {
        SlotsView {
            types: match self.types {
                Some(types) => Some(types@),
                None => None,
            },
            tag: self.tag,
        }
    }
}

/// Whether the directives select this kind: one of them is named `map`.
pub open spec fn selects(attrs: Seq<MetaItem>) -> bool {
    exists|i: int| 0 <= i < attrs.len() && (#[trigger] attrs[i]).name_of() == "map"@
}

/// Nothing set.
pub open spec fn empty_slots() -> SlotsView {
    SlotsView { types: None, tag: None }
}

/// The key type that a list entry gives: a bare word that names a basic type
/// which can be a key.
pub open spec fn key_value(entry: NestedMetaItem) -> Option<TyView> {
    match entry {
        NestedMetaItem::MetaItem(MetaItem::Word(word)) => match TyView::named(word@) {
            Some(ty) => if ty.is_key() {
                Some(ty)
            } else {
                None
            },
            None => None,
        },
        _ => None,
    }
}

/// The value type that a list entry gives: the word `message`, or a scalar type.
pub open spec fn value_value(entry: NestedMetaItem) -> Option<ValueTyView> {
    match entry {
        NestedMetaItem::MetaItem(item) => if is_word("message"@, item) {
            Some(ValueTyView::Message)
        } else {
            match Ty::of(item) {
                Ok(Some(ty)) => Some(ValueTyView::Scalar(ty)),
                _ => None,
            }
        },
        NestedMetaItem::Literal(_) => None,
    }
}

/// The types that the entries of a `map` list give: a key and a value, no more.
pub open spec fn entry_types(entries: Seq<NestedMetaItem>) -> Option<TypesView> {
    if entries.len() == 2 {
        match (key_value(entries[0]), value_value(entries[1])) {
            (Some(key), Some(value)) => Some(TypesView { key, value }),
            _ => None,
        }
    } else {
        None
    }
}

/// The types that a directive named `map` gives.
pub open spec fn types_value(attr: MetaItem) -> Result<Option<TypesView>, Failure> {
    if attr.name_of() != "map"@ {
        Ok(None)
    } else {
        let types = match attr {
            MetaItem::List(_, entries) => entry_types(entries@),
            _ => None,
        };
        match types {
            Some(types) => Ok(Some(types)),
            None => Err(malformed("map"@)),
        }
    }
}

/// What a types slot holds once `types` are stored in it.
pub open spec fn put_types(slot: Option<TypesView>, types: TypesView) -> Result<
    Option<TypesView>,
    Failure,
> {
    match slot {
        None => Ok(Some(types)),
        Some(existing) => Err(
            duplicate(
                duplicate_message(
                    "duplicate map type attribute"@,
                    types_text(existing),
                    types_text(types),
                ),
            ),
        ),
    }
}

/// Whether the builder has a use for the directive: it is named `map` or `tag`.
pub open spec fn knows(attr: MetaItem) -> bool {
    attr.name_of() == "map"@ || attr.name_of() == "tag"@
}

/// The slots after one more directive; one that the builder has no use for
/// leaves them as they are.
pub open spec fn step(slots: SlotsView, attr: MetaItem) -> Result<SlotsView, Failure> {
    match types_value(attr) {
        Err(failure) => Err(failure),
        Ok(Some(types)) => match put_types(slots.types, types) {
            Ok(types) => Ok(SlotsView { types, ..slots }),
            Err(failure) => Err(failure),
        },
        Ok(None) => match tag_value(attr) {
            Err(failure) => Err(failure),
            Ok(Some(tag)) => match put_tag(slots.tag, tag) {
                Ok(tag) => Ok(SlotsView { tag, ..slots }),
                Err(failure) => Err(failure),
            },
            Ok(None) => Ok(slots),
        },
    }
}

/// The field that the slots make up.
pub open spec fn finished(slots: SlotsView) -> Result<FieldView, Failure> {
    match slots.types {
        None => Err(invalid("missing map attribute"@)),
        Some(types) => match slots.tag {
            None => Err(invalid("map field is missing a tag attribute"@)),
            Some(tag) => Ok(FieldView { key_ty: types.key, value_ty: types.value, tag }),
        },
    }
}

/// The outcome of the builder on a list of directives.
///
/// The directives are taken in one by one; the first that gives a malformed
/// or a second value fails the builder. After that the builder declines, with
/// `Ok(None)`, a list that does not select the kind. Of a list that does, the
/// first directive without a use is an error, and the slots must make up a field.
pub open spec fn resolved(attrs: Seq<MetaItem>) -> Result<Option<FieldView>, Failure> {
    match folded(empty_slots(), |slots: SlotsView, attr: MetaItem| step(slots, attr), attrs) {
        Err(failure) => Err(failure),
        Ok(slots) => if !selects(attrs) {
            Ok(None)
        } else {
            match first_unknown(|attr: MetaItem| knows(attr), attrs) {
                Some(name) => Err(unknown(name)),
                None => match finished(slots) {
                    Ok(field) => Ok(Some(field)),
                    Err(failure) => Err(failure),
                },
            }
        },
    }
}

fn selected(attrs: &[MetaItem]) -> (found: bool)
    ensures
        found == selects(attrs@),
{
    let mut i: usize = 0;
    while i < attrs.len()
        invariant
            i <= attrs.len(),
            forall|k: int| 0 <= k < i ==> (#[trigger] attrs@[k]).name_of() != "map"@,
        decreases attrs.len() - i,
    {
        if same_text(attrs[i].name(), "map") {
            return true;
        }
        i += 1;
    }
    false
}

fn key_of(entry: &NestedMetaItem) -> (key: Option<Ty>)
    ensures
        match key {
            Some(key) => key_value(*entry) == Some(key@),
            None => key_value(*entry) is None,
        },
{
    match entry {
        NestedMetaItem::MetaItem(MetaItem::Word(word)) => match Ty::parse(word.as_str()) {
            Some(ty) => if ty.is_key() {
                Some(ty)
            } else {
                None
            },
            None => None,
        },
        _ => None,
    }
}

fn value_of(entry: &NestedMetaItem) -> (value: Option<ValueTy>)
    ensures
        match value {
            Some(value) => value_value(*entry) == Some(value@),
            None => value_value(*entry) is None,
        },
{
    match entry {
        NestedMetaItem::MetaItem(item) => if word_attr("message", item) {
            Some(ValueTy::Message)
        } else {
            match Ty::from_attr(item) {
                Ok(Some(ty)) => Some(ValueTy::Scalar(ty)),
                _ => None,
            }
        },
        NestedMetaItem::Literal(_) => None,
    }
}

fn types_attr(attr: &MetaItem) -> (outcome: Result<Option<Types>, Error>)
    ensures
        match outcome {
            Ok(Some(types)) => types_value(*attr) == Ok::<Option<TypesView>, Failure>(
                Some(types@),
            ),
            Ok(None) => types_value(*attr) == Ok::<Option<TypesView>, Failure>(None),
            Err(error) => types_value(*attr) == Err::<Option<TypesView>, Failure>(error@),
        },
{
    if !same_text(attr.name(), "map") {
        return Ok(None);
    }
    match attr {
        MetaItem::List(_, entries) => {
            if entries.len() == 2 {
                match key_of(&entries[0]) {
                    Some(key) => match value_of(&entries[1]) {
                        Some(value) => {
                            return Ok(Some(Types { key, value }));
                        },
                        None => {},
                    },
                    None => {},
                }
            }
        },
        _ => {},
    }
    Err(malformed_error("map"))
}

fn take(slots: &mut Slots, attr: &MetaItem) -> (outcome: Result<bool, Error>)
    ensures
        match step(old(slots)@, *attr) {
            Ok(next) => outcome == Ok::<bool, Error>(knows(*attr)) && final(slots)@ == next,
            Err(failure) => outcome matches Err(error) && error@ == failure,
        },
{
    match types_attr(attr) {
        Err(error) => Err(error),
        Ok(Some(types)) => stored(
            set_option(&mut slots.types, types, "duplicate map type attribute"),
        ),
        Ok(None) => match tag_attr(attr) {
            Err(error) => Err(error),
            Ok(Some(tag)) => stored(set_option(&mut slots.tag, tag, "duplicate tag attributes")),
            Ok(None) => Ok(false),
        },
    }
}

/// Whether a guard let the value in.
fn stored(outcome: Result<(), Error>) -> (taken: Result<bool, Error>)
    ensures
        match outcome {
            Ok(_) => taken == Ok::<bool, Error>(true),
            Err(error) => taken == Err::<bool, Error>(error),
        },
{
    match outcome {
        Ok(_) => Ok(true),
        Err(error) => Err(error),
    }
}

/// The tokens of a call into the map encoding: the function of the map, then
/// in parentheses the same function for the keys and for the values.
pub open spec fn call_head(key: Seq<char>, value: Seq<char>, function: Seq<char>) -> Seq<
    Seq<char>,
> {
    path_parts("map"@, function) + seq!["("@] + path_parts(key, function) + seq![","@]
        + path_parts(value, function) + seq![","@]
}

/// The text of the statement that writes a field held in `binding`.
pub open spec fn encode_text(field: FieldView, binding: Seq<char>) -> Seq<char> {
    joined(
        call_head(field.key_ty.module(), field.value_ty.module(), "encode"@) + seq![
            literal_u32(field.tag),
            ","@,
            "&"@,
            binding,
            ","@,
            "buf"@,
            ")"@,
            ";"@,
        ],
    )
}

/// The text of the expression that reads one occurrence into a field held in `binding`.
pub open spec fn merge_text(field: FieldView, binding: Seq<char>) -> Seq<char> {
    joined(
        call_head(field.key_ty.module(), field.value_ty.module(), "merge"@) + seq![
            "wire_type"@,
            ","@,
            "&"@,
            "mut"@,
            binding,
            ","@,
            "buf"@,
            ")"@,
        ],
    )
}

/// The text of the expression for the encoded length of a field held in `binding`.
pub open spec fn encoded_len_text(field: FieldView, binding: Seq<char>) -> Seq<char> {
    joined(
        call_head(field.key_ty.module(), field.value_ty.module(), "encoded_len"@) + seq![
            literal_u32(field.tag),
            ","@,
            "&"@,
            binding,
            ")"@,
        ],
    )
}

/// The tokens of the accessor of a map of enumeration values: a method named
/// like the field that hands out the values as members of the enumeration at `path`.
pub open spec fn accessor_parts(path: Seq<char>, binding: Seq<char>) -> Seq<Seq<char>> {
    seq![
        "pub"@,
        "fn"@,
        binding,
        "("@,
        "&"@,
        "self"@,
        ")"@,
        "->"@,
        "impl"@,
        "Iterator"@,
        "<"@,
        "Item"@,
        "="@,
        path,
        ">"@,
        "+"@,
        "'_"@,
        "{"@,
        "self"@,
        "."@,
        binding,
        "."@,
        "values"@,
        "("@,
        ")"@,
        "."@,
        "filter_map"@,
        "("@,
        "|"@,
        "value"@,
        "|"@,
        path,
        "::"@,
        "from_i32"@,
        "("@,
        "*"@,
        "value"@,
        ")"@,
        ")"@,
        "}"@,
    ]
}

/// The text of the accessor of a field held in `binding`, if it has one: a map
/// of enumeration values has, any other map has not.
pub open spec fn methods_text(field: FieldView, binding: Seq<char>) -> Option<Seq<char>> {
    match field.value_ty {
        ValueTyView::Scalar(TyView::Enumeration(path)) => Some(
            joined(accessor_parts(path, binding)),
        ),
        _ => None,
    }
}

fn push_head(fragment: &mut Fragment, key: &str, value: &str, function: &str)
    requires
        old(fragment).wf(),
    ensures
        final(fragment).wf(),
        final(fragment).parts() == old(fragment).parts() + call_head(key@, value@, function@),
{
    fragment.push_path("map", function);
    fragment.push("(");
    fragment.push_path(key, function);
    fragment.push(",");
    fragment.push_path(value, function);
    fragment.push(",");
    assert(fragment.parts() =~= old(fragment).parts() + call_head(key@, value@, function@));
}

impl Field {
    /// Builds the field from the directives, or declines them.
    pub fn new(attrs: &[MetaItem]) -> (outcome: Result<Option<Field>, Error>)
        ensures
            match outcome {
                Ok(Some(field)) => resolved(attrs@) == Ok::<Option<FieldView>, Failure>(
                    Some(field@),
                ),
                Ok(None) => resolved(attrs@) == Ok::<Option<FieldView>, Failure>(None),
                Err(error) => resolved(attrs@) == Err::<Option<FieldView>, Failure>(error@),
            },
    {
        let ghost walk = |slots: SlotsView, attr: MetaItem| step(slots, attr);
        let ghost known = |attr: MetaItem| knows(attr);
        let mut slots: Slots = Slots { types: None, tag: None };
        let mut unknown: Option<String> = None;
        let mut i: usize = 0;
        while i < attrs.len()
            invariant
                i <= attrs.len(),
                walk == |slots: SlotsView, attr: MetaItem| step(slots, attr),
                known == |attr: MetaItem| knows(attr),
                folded(empty_slots(), walk, attrs@.subrange(0, i as int)) == Ok::<
                    SlotsView,
                    Failure,
                >(slots@),
                first_unknown(known, attrs@.subrange(0, i as int)) == text_view(unknown),
            decreases attrs.len() - i,
        {
            proof {
                assert(attrs@.subrange(0, i + 1).drop_last() =~= attrs@.subrange(0, i as int));
            }
            match take(&mut slots, &attrs[i]) {
                Err(error) => {
                    proof {
                        lemma_folded_error_stays(empty_slots(), walk, attrs@, i + 1);
                    }
                    return Err(error);
                },
                Ok(taken) => {
                    note_unknown(&mut unknown, taken, &attrs[i]);
                },
            }
            i += 1;
        }
        proof {
            assert(attrs@.subrange(0, i as int) =~= attrs@);
        }
        if !selected(attrs) {
            return Ok(None);
        }
        match unknown {
            Some(name) => {
                return Err(unknown_error(name.as_str()));
            },
            None => {},
        }
        let Slots { types, tag } = slots;
        match types {
            None => Err(invalid_error("missing map attribute")),
            Some(types) => match tag {
                None => Err(invalid_error("map field is missing a tag attribute")),
                Some(tag) => {
                    let Types { key, value } = types;
                    Ok(Some(Field { key_ty: key, value_ty: value, tag }))
                },
            },
        }
    }

    /// The statement that writes the field held in `binding`.
    pub fn encode(&self, binding: &str) -> (tokens: quote::Tokens)
        ensures
            tokens_text(tokens) == encode_text(self@, binding@),
    {
        let mut fragment: Fragment = Fragment::new();
        push_head(&mut fragment, self.key_ty.module(), self.value_ty.module(), "encode");
        fragment.push_u32(self.tag);
        fragment.push(",");
        fragment.push("&");
        fragment.push(binding);
        fragment.push(",");
        fragment.push("buf");
        fragment.push(")");
        fragment.push(";");
        assert(fragment.parts() =~= call_head(
            self@.key_ty.module(),
            self@.value_ty.module(),
            "encode"@,
        ) + seq![literal_u32(self.tag), ","@, "&"@, binding@, ","@, "buf"@, ")"@, ";"@]);
        fragment.finish()
    }

    /// The expression that reads one occurrence into the field held in `binding`.
    pub fn merge(&self, binding: &str) -> (tokens: quote::Tokens)
        ensures
            tokens_text(tokens) == merge_text(self@, binding@),
    {
        let mut fragment: Fragment = Fragment::new();
        push_head(&mut fragment, self.key_ty.module(), self.value_ty.module(), "merge");
        fragment.push("wire_type");
        fragment.push(",");
        fragment.push("&");
        fragment.push("mut");
        fragment.push(binding);
        fragment.push(",");
        fragment.push("buf");
        fragment.push(")");
        assert(fragment.parts() =~= call_head(
            self@.key_ty.module(),
            self@.value_ty.module(),
            "merge"@,
        ) + seq!["wire_type"@, ","@, "&"@, "mut"@, binding@, ","@, "buf"@, ")"@]);
        fragment.finish()
    }

    /// The expression for the encoded length of the field held in `binding`.
    pub fn encoded_len(&self, binding: &str) -> (tokens: quote::Tokens)
        ensures
            tokens_text(tokens) == encoded_len_text(self@, binding@),
    {
        let mut fragment: Fragment = Fragment::new();
        push_head(&mut fragment, self.key_ty.module(), self.value_ty.module(), "encoded_len");
        fragment.push_u32(self.tag);
        fragment.push(",");
        fragment.push("&");
        fragment.push(binding);
        fragment.push(")");
        assert(fragment.parts() =~= call_head(
            self@.key_ty.module(),
            self@.value_ty.module(),
            "encoded_len"@,
        ) + seq![literal_u32(self.tag), ","@, "&"@, binding@, ")"@]);
        fragment.finish()
    }

    /// The accessor of the field held in `binding`, if it has one.
    pub fn methods(&self, binding: &str) -> (tokens: Option<quote::Tokens>)
        ensures
            match tokens {
                Some(tokens) => methods_text(self@, binding@) == Some(tokens_text(tokens)),
                None => methods_text(self@, binding@) is None,
            },
    {
        match &self.value_ty {
            ValueTy::Scalar(Ty::Enumeration(path)) => {
                let path: &str = path.as_str();
                let mut fragment: Fragment = Fragment::new();
                fragment.push("pub");
                fragment.push("fn");
                fragment.push(binding);
                fragment.push("(");
                fragment.push("&");
                fragment.push("self");
                fragment.push(")");
                fragment.push("->");
                fragment.push("impl");
                fragment.push("Iterator");
                fragment.push("<");
                fragment.push("Item");
                fragment.push("=");
                fragment.push(path);
                fragment.push(">");
                fragment.push("+");
                fragment.push("'_");
                fragment.push("{");
                fragment.push("self");
                fragment.push(".");
                fragment.push(binding);
                fragment.push(".");
                fragment.push("values");
                fragment.push("(");
                fragment.push(")");
                fragment.push(".");
                fragment.push("filter_map");
                fragment.push("(");
                fragment.push("|");
                fragment.push("value");
                fragment.push("|");
                fragment.push(path);
                fragment.push("::");
                fragment.push("from_i32");
                fragment.push("(");
                fragment.push("*");
                fragment.push("value");
                fragment.push(")");
                fragment.push(")");
                fragment.push("}");
                assert(fragment.parts() =~= accessor_parts(path@, binding@));
                Some(fragment.finish())
            },
            _ => None,
        }
    }
}

} // verus!

//! The builder of scalar fields.
//!
//! A scalar type selects the kind: one of the bare words `double`, `float`,
//! `int32`, `int64`, `uint32`, `uint64`, `sint32`, `sint64`, `fixed32`,
//! `fixed64`, `sfixed32`, `sfixed64`, `bool`, `string`, `bytes`, or a directive
//! named `enumeration` that gives the path of an enumeration. Besides the type
//! the field takes a `tag`, which it must have, a label, `packed` and `default`.
//!
//! The builder takes in every directive before it decides. A setting that is
//! malformed or given twice fails at once, whatever the kind of the field. A
//! directive that the builder has no use for is passed over; it is an error
//! only once the walk is done and the kind is selected.

use crate::attr::{
    bool_attr, bool_value, duplicate, duplicate_message, first_unknown, folded, invalid,
    invalid_error, lemma_folded_error_stays, malformed, malformed_error, note_unknown,
    path_attr, path_value, put_label, put_tag, set_option, tag_attr, tag_value, unknown,
    unknown_error,
};
use crate::directive::{Lit, MetaItem};
use crate::error::{Describe, Error, Failure};
use crate::label::Label;
use crate::text::same_text;
use crate::tokens::{
    ambient_default, ambient_default_parts, encode_call, encode_parts, encoded_len_call,
    encoded_len_parts, joined, merge_call, merge_parts, tokens_text, Fragment,
};
use vstd::prelude::*;

verus! {

/// A scalar type.
#[derive(Clone, Debug, PartialEq, Eq)]
pub enum Ty {
    Double,
    Float,
    Int32,
    Int64,
    Uint32,
    Uint64,
    Sint32,
    Sint64,
    Fixed32,
    Fixed64,
    Sfixed32,
    Sfixed64,
    Bool,
    String,
    Bytes,
    Enumeration(String),
}

/// A scalar type, with the path of an enumeration as its characters.
pub enum TyView {
    Double,
    Float,
    Int32,
    Int64,
    Uint32,
    Uint64,
    Sint32,
    Sint64,
    Fixed32,
    Fixed64,
    Sfixed32,
    Sfixed64,
    Bool,
    String,
    Bytes,
    Enumeration(Seq<char>),
}

impl View for Ty {
    type V = TyView;

    open spec fn view(&self) -> TyView {
        match *self {
            Ty::Double => TyView::Double,
            Ty::Float => TyView::Float,
            Ty::Int32 => TyView::Int32,
            Ty::Int64 => TyView::Int64,
            Ty::Uint32 => TyView::Uint32,
            Ty::Uint64 => TyView::Uint64,
            Ty::Sint32 => TyView::Sint32,
            Ty::Sint64 => TyView::Sint64,
            Ty::Fixed32 => TyView::Fixed32,
            Ty::Fixed64 => TyView::Fixed64,
            Ty::Sfixed32 => TyView::Sfixed32,
            Ty::Sfixed64 => TyView::Sfixed64,
            Ty::Bool => TyView::Bool,
            Ty::String => TyView::String,
            Ty::Bytes => TyView::Bytes,
            Ty::Enumeration(path) => TyView::Enumeration(path@),
        }
    }
}

impl TyView {
    /// The basic type that `word` names.
    pub open spec fn named(word: Seq<char>) -> Option<TyView> {
        if word == "double"@ {
            Some(TyView::Double)
        } else if word == "float"@ {
            Some(TyView::Float)
        } else if word == "int32"@ {
            Some(TyView::Int32)
        } else if word == "int64"@ {
            Some(TyView::Int64)
        } else if word == "uint32"@ {
            Some(TyView::Uint32)
        } else if word == "uint64"@ {
            Some(TyView::Uint64)
        } else if word == "sint32"@ {
            Some(TyView::Sint32)
        } else if word == "sint64"@ {
            Some(TyView::Sint64)
        } else if word == "fixed32"@ {
            Some(TyView::Fixed32)
        } else if word == "fixed64"@ {
            Some(TyView::Fixed64)
        } else if word == "sfixed32"@ {
            Some(TyView::Sfixed32)
        } else if word == "sfixed64"@ {
            Some(TyView::Sfixed64)
        } else if word == "bool"@ {
            Some(TyView::Bool)
        } else if word == "string"@ {
            Some(TyView::String)
        } else if word == "bytes"@ {
            Some(TyView::Bytes)
        } else {
            None
        }
    }

    /// The type as a directive spells it.
    pub open spec fn word(self) -> Seq<char> {
        match self {
            TyView::Double => "double"@,
            TyView::Float => "float"@,
            TyView::Int32 => "int32"@,
            TyView::Int64 => "int64"@,
            TyView::Uint32 => "uint32"@,
            TyView::Uint64 => "uint64"@,
            TyView::Sint32 => "sint32"@,
            TyView::Sint64 => "sint64"@,
            TyView::Fixed32 => "fixed32"@,
            TyView::Fixed64 => "fixed64"@,
            TyView::Sfixed32 => "sfixed32"@,
            TyView::Sfixed64 => "sfixed64"@,
            TyView::Bool => "bool"@,
            TyView::String => "string"@,
            TyView::Bytes => "bytes"@,
            TyView::Enumeration(path) => "enumeration("@ + path + ")"@,
        }
    }

    /// The module of the wire encoding that handles values of the type. An
    /// enumeration travels as an `int32`.
    pub open spec fn module(self) -> Seq<char> {
        match self {
            TyView::Enumeration(_) => "int32"@,
            _ => self.word(),
        }
    }

    /// Whether values of the type are numbers on the wire, which can be packed.
    pub open spec fn is_numeric(self) -> bool {
        !(self is String || self is Bytes)
    }

    /// Whether the type can be the key of a map.
    pub open spec fn is_key(self) -> bool {
        !(self is Double || self is Float || self is Bytes || self is Enumeration)
    }
}

impl Ty {
    /// Whether a directive gives a scalar type, well or badly.
    pub open spec fn selects(attr: MetaItem) -> bool {
        Ty::of(attr) != Ok::<Option<TyView>, Failure>(None)
    }

    /// The scalar type that a directive gives: a bare word that names a basic
    /// type, or the path of a directive named `enumeration`.
    pub open spec fn of(attr: MetaItem) -> Result<Option<TyView>, Failure> {
        if attr.name_of() == "enumeration"@ {
            match path_value(attr) {
                Some(path) => Ok(Some(TyView::Enumeration(path))),
                None => Err(malformed("enumeration"@)),
            }
        } else {
            match attr {
                MetaItem::Word(word) => Ok(TyView::named(word@)),
                _ => Ok(None),
            }
        }
    }

    /// Reads a word as a basic type.
    pub fn parse(word: &str) -> (ty: Option<Ty>)
        ensures
            match ty {
                Some(ty) => TyView::named(word@) == Some(ty@),
                None => TyView::named(word@) is None,
            },
    {
        if same_text(word, "double") {
            Some(Ty::Double)
        } else if same_text(word, "float") {
            Some(Ty::Float)
        } else if same_text(word, "int32") {
            Some(Ty::Int32)
        } else if same_text(word, "int64") {
            Some(Ty::Int64)
        } else if same_text(word, "uint32") {
            Some(Ty::Uint32)
        } else if same_text(word, "uint64") {
            Some(Ty::Uint64)
        } else if same_text(word, "sint32") {
            Some(Ty::Sint32)
        } else if same_text(word, "sint64") {
            Some(Ty::Sint64)
        } else if same_text(word, "fixed32") {
            Some(Ty::Fixed32)
        } else if same_text(word, "fixed64") {
            Some(Ty::Fixed64)
        } else if same_text(word, "sfixed32") {
            Some(Ty::Sfixed32)
        } else if same_text(word, "sfixed64") {
            Some(Ty::Sfixed64)
        } else if same_text(word, "bool") {
            Some(Ty::Bool)
        } else if same_text(word, "string") {
            Some(Ty::String)
        } else if same_text(word, "bytes") {
            Some(Ty::Bytes)
        } else {
            None
        }
    }

    /// Reads a directive as a scalar type.
    pub fn from_attr(attr: &MetaItem) -> (outcome: Result<Option<Ty>, Error>)
        ensures
            match outcome {
                Ok(Some(ty)) => Ty::of(*attr) == Ok::<Option<TyView>, Failure>(Some(ty@)),
                Ok(None) => Ty::of(*attr) == Ok::<Option<TyView>, Failure>(None),
                Err(error) => Ty::of(*attr) == Err::<Option<TyView>, Failure>(error@),
            },
    {
        if same_text(attr.name(), "enumeration") {
            match path_attr(attr) {
                Some(path) => Ok(Some(Ty::Enumeration(path))),
                None => Err(malformed_error("enumeration")),
            }
        } else {
            match attr {
                MetaItem::Word(word) => Ok(Ty::parse(word.as_str())),
                _ => Ok(None),
            }
        }
    }

    /// Whether a directive gives a scalar type, well or badly.
    pub fn gives_type(attr: &MetaItem) -> (yes: bool)
        ensures
            yes == Ty::selects(*attr),
    {
        if same_text(attr.name(), "enumeration") {
            true
        } else {
            match attr {
                MetaItem::Word(word) => Ty::parse(word.as_str()).is_some(),
                _ => false,
            }
        }
    }

    /// The type as a directive spells it.
    pub fn to_string(&self) -> (text: String)
        ensures
            text@ == self@.word(),
    {
        match self {
            Ty::Double => String::from_str("double"),
            Ty::Float => String::from_str("float"),
            Ty::Int32 => String::from_str("int32"),
            Ty::Int64 => String::from_str("int64"),
            Ty::Uint32 => String::from_str("uint32"),
            Ty::Uint64 => String::from_str("uint64"),
            Ty::Sint32 => String::from_str("sint32"),
            Ty::Sint64 => String::from_str("sint64"),
            Ty::Fixed32 => String::from_str("fixed32"),
            Ty::Fixed64 => String::from_str("fixed64"),
            Ty::Sfixed32 => String::from_str("sfixed32"),
            Ty::Sfixed64 => String::from_str("sfixed64"),
            Ty::Bool => String::from_str("bool"),
            Ty::String => String::from_str("string"),
            Ty::Bytes => String::from_str("bytes"),
            Ty::Enumeration(path) => {
                let mut text: String = String::from_str("enumeration(");
                text.append(path.as_str());
                text.append(")");
                text
            },
        }
    }

    /// The module of the wire encoding that handles values of the type.
    pub fn module(&self) -> (name: &'static str)
        ensures
            name@ == self@.module(),
    {
        match self {
            Ty::Double => "double",
            Ty::Float => "float",
            Ty::Int32 => "int32",
            Ty::Int64 => "int64",
            Ty::Uint32 => "uint32",
            Ty::Uint64 => "uint64",
            Ty::Sint32 => "sint32",
            Ty::Sint64 => "sint64",
            Ty::Fixed32 => "fixed32",
            Ty::Fixed64 => "fixed64",
            Ty::Sfixed32 => "sfixed32",
            Ty::Sfixed64 => "sfixed64",
            Ty::Bool => "bool",
            Ty::String => "string",
            Ty::Bytes => "bytes",
            Ty::Enumeration(_) => "int32",
        }
    }

    /// Whether values of the type are numbers on the wire.
    pub fn is_numeric(&self) -> (yes: bool)
        ensures
            yes == self@.is_numeric(),
    {
        match self {
            Ty::String => false,
            Ty::Bytes => false,
            _ => true,
        }
    }

    /// Whether the type can be the key of a map.
    pub fn is_key(&self) -> (yes: bool)
        ensures
            yes == self@.is_key(),
    {
        match self {
            Ty::Double => false,
            Ty::Float => false,
            Ty::Bytes => false,
            Ty::Enumeration(_) => false,
            _ => true,
        }
    }
}

impl Describe for Ty {
    open spec fn description(&self) -> Seq<char> {
        self@.word()
    }

    fn describe(&self) -> (text: String) {
        self.to_string()
    }
}

/// How the values of a scalar field are held and travel.
#[derive(Clone, Copy, Debug, PartialEq, Eq, Structural)]
pub enum Kind {
    /// One value, left off the wire when it is the default.
    Plain,
    /// One value that may be absent.
    Optional,
    /// One value that is always written.
    Required,
    /// Any number of values, each written by itself.
    Repeated,
    /// Any number of values, written as one packed run.
    Packed,
}

impl Kind {
    /// The function of the wire encoding that writes a field of this kind.
    pub open spec fn encode_function(self) -> Seq<char> {
        match self {
            Kind::Plain => "encode"@,
            Kind::Optional => "encode_optional"@,
            Kind::Required => "encode_required"@,
            Kind::Repeated => "encode_repeated"@,
            Kind::Packed => "encode_packed"@,
        }
    }

    /// The function of the wire encoding that reads into a field of this kind.
    pub open spec fn merge_function(self) -> Seq<char> {
        match self {
            Kind::Plain => "merge"@,
            Kind::Optional => "merge_optional"@,
            Kind::Required => "merge_required"@,
            Kind::Repeated => "merge_repeated"@,
            Kind::Packed => "merge_packed"@,
        }
    }

    /// The function of the wire encoding that measures a field of this kind.
    pub open spec fn encoded_len_function(self) -> Seq<char> {
        match self {
            Kind::Plain => "encoded_len"@,
            Kind::Optional => "encoded_len_optional"@,
            Kind::Required => "encoded_len_required"@,
            Kind::Repeated => "encoded_len_repeated"@,
            Kind::Packed => "encoded_len_packed"@,
        }
    }
}

impl Kind {
    pub fn encode_name(&self) -> (name: &'static str)
        ensures
            name@ == self.encode_function(),
    {
        match self {
            Kind::Plain => "encode",
            Kind::Optional => "encode_optional",
            Kind::Required => "encode_required",
            Kind::Repeated => "encode_repeated",
            Kind::Packed => "encode_packed",
        }
    }

    pub fn merge_name(&self) -> (name: &'static str)
        ensures
            name@ == self.merge_function(),
    {
        match self {
            Kind::Plain => "merge",
            Kind::Optional => "merge_optional",
            Kind::Required => "merge_required",
            Kind::Repeated => "merge_repeated",
            Kind::Packed => "merge_packed",
        }
    }

    pub fn encoded_len_name(&self) -> (name: &'static str)
        ensures
            name@ == self.encoded_len_function(),
    {
        match self {
            Kind::Plain => "encoded_len",
            Kind::Optional => "encoded_len_optional",
            Kind::Required => "encoded_len_required",
            Kind::Repeated => "encoded_len_repeated",
            Kind::Packed => "encoded_len_packed",
        }
    }
}

/// A scalar field.
#[derive(Clone, Debug, PartialEq, Eq)]
pub struct Field {
    pub ty: Ty,
    pub kind: Kind,
    pub tag: u32,
    /// The text of the `default` directive, if one was given.
    pub default: Option<String>,
}

/// A scalar field, with its texts as characters.
pub struct FieldView {
    pub ty: TyView,
    pub kind: Kind,
    pub tag: u32,
    pub default: Option<Seq<char>>,
}

/// The characters of a text that may be absent.
pub open spec fn text_view(text: Option<String>) -> Option<Seq<char>> {
    match text {
        Some(text) => Some(text@),
        None => None,
    }
}

impl View for Field {
    type V = FieldView;

    open spec fn view(&self) -> FieldView {
        FieldView {
            ty: self.ty@,
            kind: self.kind,
            tag: self.tag,
            default: text_view(self.default),
        }
    }
}

/// What the directives read so far have set.
pub struct Slots {
    pub ty: Option<Ty>,
    pub label: Option<Label>,
    pub packed: Option<bool>,
    pub tag: Option<u32>,
    pub default: Option<String>,
}

/// The slots, with their texts as characters.
pub struct SlotsView {
    pub ty: Option<TyView>,
    pub label: Option<Label>,
    pub packed: Option<bool>,
    pub tag: Option<u32>,
    pub default: Option<Seq<char>>,
}

impl View for Slots {
    type V = SlotsView;

    open spec fn view(&self) -> SlotsView {
        SlotsView {
            ty: match self.ty {
                Some(ty) => Some(ty@),
                None => None,
            },
            label: self.label,
            packed: self.packed,
            tag: self.tag,
            default: text_view(self.default),
        }
    }
}

/// Whether the directives select this kind: one of them gives a scalar type.
pub open spec fn selects(attrs: Seq<MetaItem>) -> bool {
    exists|i: int| 0 <= i < attrs.len() && Ty::selects(#[trigger] attrs[i])
}

/// Nothing set.
pub open spec fn empty_slots() -> SlotsView {
    SlotsView { ty: None, label: None, packed: None, tag: None, default: None }
}

/// The text that a directive named `default` gives: the contents of a string,
/// or any other literal as it is shown.
pub open spec fn default_value(attr: MetaItem) -> Result<Option<Seq<char>>, Failure> {
    if attr.name_of() != "default"@ {
        Ok(None)
    } else {
        match attr {
            MetaItem::NameValue(_, Lit::Str(text)) => Ok(Some(text@)),
            MetaItem::NameValue(_, lit) => Ok(Some(lit.description())),
            _ => Err(malformed("default"@)),
        }
    }
}

/// What a type slot holds once `ty` is stored in it.
pub open spec fn put_ty(slot: Option<TyView>, ty: TyView) -> Result<Option<TyView>, Failure> {
    match slot {
        None => Ok(Some(ty)),
        Some(existing) => Err(
            duplicate(duplicate_message("duplicate type attributes"@, existing.word(), ty.word())),
        ),
    }
}

/// What a `packed` slot holds once `packed` is stored in it.
pub open spec fn put_packed(slot: Option<bool>, packed: bool) -> Result<Option<bool>, Failure> {
    match slot {
        None => Ok(Some(packed)),
        Some(existing) => Err(
            duplicate(
                duplicate_message(
                    "duplicate packed attributes"@,
                    existing.description(),
                    packed.description(),
                ),
            ),
        ),
    }
}

/// What a `default` slot holds once `text` is stored in it.
pub open spec fn put_default(slot: Option<Seq<char>>, text: Seq<char>) -> Result<
    Option<Seq<char>>,
    Failure,
> {
    match slot {
        None => Ok(Some(text)),
        Some(existing) => Err(
            duplicate(
                duplicate_message("duplicate default attributes"@, existing, text),
            ),
        ),
    }
}

/// Whether the builder has a use for the directive: it gives a type, it is
/// named `packed`, `tag` or `default`, or it is a label.
pub open spec fn knows(attr: MetaItem) -> bool {
    Ty::selects(attr) || attr.name_of() == "packed"@ || attr.name_of() == "tag"@ || Label::of(
        attr,
    ) is Some || attr.name_of() == "default"@
}

/// The slots after one more directive; one that the builder has no use for
/// leaves them as they are. A directive is read as a type, then as
/// `packed`, as the tag, as a label and as the default; one that is none of
/// these has no place in a scalar field.
pub open spec fn step(slots: SlotsView, attr: MetaItem) -> Result<SlotsView, Failure> {
    match Ty::of(attr) {
        Err(failure) => Err(failure),
        Ok(Some(ty)) => match put_ty(slots.ty, ty) {
            Ok(ty) => Ok(SlotsView { ty, ..slots }),
            Err(failure) => Err(failure),
        },
        Ok(None) => match bool_value("packed"@, attr) {
            Err(failure) => Err(failure),
            Ok(Some(packed)) => match put_packed(slots.packed, packed) {
                Ok(packed) => Ok(SlotsView { packed, ..slots }),
                Err(failure) => Err(failure),
            },
            Ok(None) => match tag_value(attr) {
                Err(failure) => Err(failure),
                Ok(Some(tag)) => match put_tag(slots.tag, tag) {
                    Ok(tag) => Ok(SlotsView { tag, ..slots }),
                    Err(failure) => Err(failure),
                },
                Ok(None) => match Label::of(attr) {
                    Some(label) => match put_label(slots.label, label) {
                        Ok(label) => Ok(SlotsView { label, ..slots }),
                        Err(failure) => Err(failure),
                    },
                    None => match default_value(attr) {
                        Err(failure) => Err(failure),
                        Ok(Some(text)) => match put_default(slots.default, text) {
                            Ok(default) => Ok(SlotsView { default, ..slots }),
                            Err(failure) => Err(failure),
                        },
                        Ok(None) => Ok(slots),
                    },
                },
            },
        },
    }
}

/// How a field with these settings holds its values, or why it cannot have them.
///
/// `packed` is for repeated fields of a numeric type, and a repeated field has
/// no default. A repeated field is packed if it says so, or if it says nothing
/// and its type is numeric.
pub open spec fn kind_of(
    ty: TyView,
    label: Option<Label>,
    packed: Option<bool>,
    has_default: bool,
) -> Result<Kind, Failure> {
    if packed == Some(true) && label != Some(Label::Repeated) {
        Err(invalid("packed attribute may only be applied to repeated fields"@))
    } else if packed == Some(true) && !ty.is_numeric() {
        Err(invalid("packed attribute may only be applied to numeric types"@))
    } else if label == Some(Label::Repeated) && has_default {
        Err(invalid("repeated fields may not have a default value"@))
    } else {
        Ok(
            match label {
                None => Kind::Plain,
                Some(Label::Optional) => Kind::Optional,
                Some(Label::Required) => Kind::Required,
                Some(Label::Repeated) => if packed == Some(true) || (packed is None
                    && ty.is_numeric()) {
                    Kind::Packed
                } else {
                    Kind::Repeated
                },
            },
        )
    }
}

/// The field that the slots make up.
pub open spec fn finished(slots: SlotsView) -> Result<FieldView, Failure> {
    match slots.ty {
        None => Err(invalid("missing type attribute"@)),
        Some(ty) => match slots.tag {
            None => Err(invalid("missing tag attribute"@)),
            Some(tag) => match kind_of(ty, slots.label, slots.packed, slots.default is Some) {
                Err(failure) => Err(failure),
                Ok(kind) => Ok(FieldView { ty, kind, tag, default: slots.default }),
            },
        },
    }
}

/// The outcome of the builder on a list of directives.
///
/// The directives are taken in one by one; the first that gives a malformed
/// or a second value fails the builder. After that the builder declines, with
/// `Ok(None)`, a list that does not select the kind. Of a list that does, the
/// first directive without a use is an error, and the slots must make up a field.
pub open spec fn resolved(attrs: Seq<MetaItem>) -> Result<Option<FieldView>, Failure> {
    match folded(empty_slots(), |slots: SlotsView, attr: MetaItem| step(slots, attr), attrs) {
        Err(failure) => Err(failure),
        Ok(slots) => if !selects(attrs) {
            Ok(None)
        } else {
            match first_unknown(|attr: MetaItem| knows(attr), attrs) {
                Some(name) => Err(unknown(name)),
                None => match finished(slots) {
                    Ok(field) => Ok(Some(field)),
                    Err(failure) => Err(failure),
                },
            }
        },
    }
}

fn selected(attrs: &[MetaItem]) -> (found: bool)
    ensures
        found == selects(attrs@),
{
    let mut i: usize = 0;
    while i < attrs.len()
        invariant
            i <= attrs.len(),
            forall|k: int| 0 <= k < i ==> !Ty::selects(#[trigger] attrs@[k]),
        decreases attrs.len() - i,
    {
        if Ty::gives_type(&attrs[i]) {
            return true;
        }
        i += 1;
    }
    false
}

fn default_attr(attr: &MetaItem) -> (outcome: Result<Option<String>, Error>)
    ensures
        match outcome {
            Ok(text) => default_value(*attr) == Ok::<Option<Seq<char>>, Failure>(text_view(text)),
            Err(error) => default_value(*attr) == Err::<Option<Seq<char>>, Failure>(error@),
        },
{
    if !same_text(attr.name(), "default") {
        return Ok(None);
    }
    match attr {
        MetaItem::NameValue(_, Lit::Str(text)) => Ok(Some(text.clone())),
        MetaItem::NameValue(_, lit) => Ok(Some(lit.describe())),
        _ => Err(malformed_error("default")),
    }
}

fn take(slots: &mut Slots, attr: &MetaItem) -> (outcome: Result<bool, Error>)
    ensures
        match step(old(slots)@, *attr) {
            Ok(next) => outcome == Ok::<bool, Error>(knows(*attr)) && final(slots)@ == next,
            Err(failure) => outcome matches Err(error) && error@ == failure,
        },
{
    match Ty::from_attr(attr) {
        Err(error) => Err(error),
        Ok(Some(ty)) => stored(set_option(&mut slots.ty, ty, "duplicate type attributes")),
        Ok(None) => match bool_attr("packed", attr) {
            Err(error) => Err(error),
            Ok(Some(packed)) => stored(
                set_option(&mut slots.packed, packed, "duplicate packed attributes"),
            ),
            Ok(None) => match tag_attr(attr) {
                Err(error) => Err(error),
                Ok(Some(tag)) => stored(
                    set_option(&mut slots.tag, tag, "duplicate tag attributes"),
                ),
                Ok(None) => match Label::from_attr(attr) {
                    Some(label) => stored(
                        set_option(&mut slots.label, label, "duplicate label attributes"),
                    ),
                    None => match default_attr(attr) {
                        Err(error) => Err(error),
                        Ok(Some(text)) => stored(
                            set_option(&mut slots.default, text, "duplicate default attributes"),
                        ),
                        Ok(None) => Ok(false),
                    },
                },
            },
        },
    }
}

/// Whether a guard let the value in.
fn stored(outcome: Result<(), Error>) -> (taken: Result<bool, Error>)
    ensures
        match outcome {
            Ok(_) => taken == Ok::<bool, Error>(true),
            Err(error) => taken == Err::<bool, Error>(error),
        },
{
    match outcome {
        Ok(_) => Ok(true),
        Err(error) => Err(error),
    }
}

fn kind(ty: &Ty, label: Option<Label>, packed: Option<bool>, has_default: bool) -> (outcome:
    Result<Kind, Error>)
    ensures
        match outcome {
            Ok(kind) => kind_of(ty@, label, packed, has_default) == Ok::<Kind, Failure>(kind),
            Err(error) => kind_of(ty@, label, packed, has_default) == Err::<Kind, Failure>(error@),
        },
{
    let wants_packed: bool = match packed {
        Some(true) => true,
        _ => false,
    };
    let repeated: bool = match label {
        Some(Label::Repeated) => true,
        _ => false,
    };
    if wants_packed && !repeated {
        Err(invalid_error("packed attribute may only be applied to repeated fields"))
    } else if wants_packed && !ty.is_numeric() {
        Err(invalid_error("packed attribute may only be applied to numeric types"))
    } else if repeated && has_default {
        Err(invalid_error("repeated fields may not have a default value"))
    } else {
        Ok(
            match label {
                None => Kind::Plain,
                Some(Label::Optional) => Kind::Optional,
                Some(Label::Required) => Kind::Required,
                Some(Label::Repeated) => if wants_packed || (packed.is_none() && ty.is_numeric()) {
                    Kind::Packed
                } else {
                    Kind::Repeated
                },
            },
        )
    }
}

fn finish(slots: Slots) -> (outcome: Result<Field, Error>)
    ensures
        match outcome {
            Ok(field) => finished(slots@) == Ok::<FieldView, Failure>(field@),
            Err(error) => finished(slots@) == Err::<FieldView, Failure>(error@),
        },
{
    let Slots { ty, label, packed, tag, default } = slots;
    match ty {
        None => Err(invalid_error("missing type attribute")),
        Some(ty) => match tag {
            None => Err(invalid_error("missing tag attribute")),
            Some(tag) => match kind(&ty, label, packed, default.is_some()) {
                Err(error) => Err(error),
                Ok(kind) => Ok(Field { ty, kind, tag, default }),
            },
        },
    }
}

impl Field {
    /// Builds the field from the directives, or declines them.
    pub fn new(attrs: &[MetaItem]) -> (outcome: Result<Option<Field>, Error>)
        ensures
            match outcome {
                Ok(Some(field)) => resolved(attrs@) == Ok::<Option<FieldView>, Failure>(
                    Some(field@),
                ),
                Ok(None) => resolved(attrs@) == Ok::<Option<FieldView>, Failure>(None),
                Err(error) => resolved(attrs@) == Err::<Option<FieldView>, Failure>(error@),
            },
    {
        let ghost walk = |slots: SlotsView, attr: MetaItem| step(slots, attr);
        let ghost known = |attr: MetaItem| knows(attr);
        let mut slots: Slots = Slots { ty: None, label: None, packed: None, tag: None, default: None };
        let mut unknown: Option<String> = None;
        let mut i: usize = 0;
        while i < attrs.len()
            invariant
                i <= attrs.len(),
                walk == |slots: SlotsView, attr: MetaItem| step(slots, attr),
                known == |attr: MetaItem| knows(attr),
                folded(empty_slots(), walk, attrs@.subrange(0, i as int)) == Ok::<
                    SlotsView,
                    Failure,
                >(slots@),
                first_unknown(known, attrs@.subrange(0, i as int)) == text_view(unknown),
            decreases attrs.len() - i,
        {
            proof {
                assert(attrs@.subrange(0, i + 1).drop_last() =~= attrs@.subrange(0, i as int));
            }
            match take(&mut slots, &attrs[i]) {
                Err(error) => {
                    proof {
                        lemma_folded_error_stays(empty_slots(), walk, attrs@, i + 1);
                    }
                    return Err(error);
                },
                Ok(taken) => {
                    note_unknown(&mut unknown, taken, &attrs[i]);
                },
            }
            i += 1;
        }
        proof {
            assert(attrs@.subrange(0, i as int) =~= attrs@);
        }
        if !selected(attrs) {
            return Ok(None);
        }
        match unknown {
            Some(name) => {
                return Err(unknown_error(name.as_str()));
            },
            None => {},
        }
        match finish(slots) {
            Ok(field) => Ok(Some(field)),
            Err(error) => Err(error),
        }
    }
}

/// The tokens of the default value of a field: the text of its `default`
/// directive as one token, or the ambient default if it has none.
pub open spec fn default_parts(field: FieldView) -> Seq<Seq<char>> {
    match field.default {
        Some(text) => seq![text],
        None => ambient_default_parts(),
    }
}

/// The tokens of the accessor of an enumeration field: a method named like the
/// field that hands out the value as a member of the enumeration at `path`.
pub open spec fn accessor_parts(path: Seq<char>, binding: Seq<char>) -> Seq<Seq<char>> {
    seq![
        "pub"@,
        "fn"@,
        binding,
        "("@,
        "&"@,
        "self"@,
        ")"@,
        "->"@,
        path,
        "{"@,
        path,
        "::"@,
        "from_i32"@,
        "("@,
        "self"@,
        "."@,
        binding,
        ")"@,
        "."@,
        "unwrap_or_default"@,
        "("@,
        ")"@,
        "}"@,
    ]
}

/// The text of the statement that writes a field held in `binding`.
pub open spec fn encode_text(field: FieldView, binding: Seq<char>) -> Seq<char> {
    joined(encode_parts(field.ty.module(), field.kind.encode_function(), field.tag, binding))
}

/// The text of the expression that reads one occurrence into a field held in `binding`.
pub open spec fn merge_text(field: FieldView, binding: Seq<char>) -> Seq<char> {
    joined(merge_parts(field.ty.module(), field.kind.merge_function(), binding))
}

/// The text of the expression for the encoded length of a field held in `binding`.
pub open spec fn encoded_len_text(field: FieldView, binding: Seq<char>) -> Seq<char> {
    joined(
        encoded_len_parts(field.ty.module(), field.kind.encoded_len_function(), field.tag, binding),
    )
}

/// The text of the expression for a field's default value.
pub open spec fn default_text(field: FieldView) -> Seq<char> {
    joined(default_parts(field))
}

/// The text of the accessor of a field held in `binding`, if it has one: an
/// enumeration field has, a field of a basic type has not.
pub open spec fn methods_text(field: FieldView, binding: Seq<char>) -> Option<Seq<char>> {
    match field.ty {
        TyView::Enumeration(path) => Some(joined(accessor_parts(path, binding))),
        _ => None,
    }
}

impl Field {
    /// The statement that writes the field held in `binding`.
    pub fn encode(&self, binding: &str) -> (tokens: quote::Tokens)
        ensures
            tokens_text(tokens) == encode_text(self@, binding@),
    {
        encode_call(self.ty.module(), self.kind.encode_name(), self.tag, binding)
    }

    /// The expression that reads one occurrence into the field held in `binding`.
    pub fn merge(&self, binding: &str) -> (tokens: quote::Tokens)
        ensures
            tokens_text(tokens) == merge_text(self@, binding@),
    {
        merge_call(self.ty.module(), self.kind.merge_name(), binding)
    }

    /// The expression for the encoded length of the field held in `binding`.
    pub fn encoded_len(&self, binding: &str) -> (tokens: quote::Tokens)
        ensures
            tokens_text(tokens) == encoded_len_text(self@, binding@),
    {
        encoded_len_call(self.ty.module(), self.kind.encoded_len_name(), self.tag, binding)
    }

    /// The expression for the field's default value.
    pub fn default(&self) -> (tokens: quote::Tokens)
        ensures
            tokens_text(tokens) == default_text(self@),
    {
        match &self.default {
            Some(text) => {
                let mut fragment: Fragment = Fragment::new();
                fragment.push(text.as_str());
                assert(fragment.parts() =~= seq![text@]);
                fragment.finish()
            },
            None => ambient_default(),
        }
    }

    /// The accessor of the field held in `binding`, if it has one.
    pub fn methods(&self, binding: &str) -> (tokens: Option<quote::Tokens>)
        ensures
            match tokens {
                Some(tokens) => methods_text(self@, binding@) == Some(tokens_text(tokens)),
                None => methods_text(self@, binding@) is None,
            },
    {
        match &self.ty {
            Ty::Enumeration(path) => {
                let mut fragment: Fragment = Fragment::new();
                fragment.push("pub");
                fragment.push("fn");
                fragment.push(binding);
                fragment.push("(");
                fragment.push("&");
                fragment.push("self");
                fragment.push(")");
                fragment.push("->");
                fragment.push(path.as_str());
                fragment.push("{");
                fragment.push(path.as_str());
                fragment.push("::");
                fragment.push("from_i32");
                fragment.push("(");
                fragment.push("self");
                fragment.push(".");
                fragment.push(binding);
                fragment.push(")");
                fragment.push(".");
                fragment.push("unwrap_or_default");
                fragment.push("(");
                fragment.push(")");
                fragment.push("}");
                assert(fragment.parts() =~= accessor_parts(path@, binding@));
                Some(fragment.finish())
            },
            _ => None,
        }
    }
}

} // verus!

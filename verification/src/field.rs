//! The field descriptor and its dispatcher.
//!
//! The four kind builders are tried in a fixed order: scalar, message, map,
//! oneof. The first that does not decline decides, with its field or with its
//! error. A builder takes in every directive before it declines, so a setting
//! that is malformed or given twice fails the field even where no kind is
//! selected. The descriptor answers for its kind with the fragments from which
//! a message implementation is put together.

use crate::directive::{directives, extracted, Attribute, MetaItem};
use crate::error::{Error, ErrorKind, Failure};
use crate::message;
use crate::oneof;
use crate::scalar;
use crate::tokens::{ambient_default, ambient_default_parts, joined, tokens_text, Fragment};
use vstd::prelude::*;

verus! {

/// A resolved field: exactly one of the four kinds.
#[derive(Clone, PartialEq, Eq)]
pub enum Field {
    /// A scalar field.
    Scalar(scalar::Field),
    /// A message field.
    Message(message::Field),
    /// A map field.
    Mapping(crate::map::Field),
    /// A oneof field.
    Oneof(oneof::Field),
}

/// A resolved field, as mathematical values.
pub enum FieldView {
    Scalar(scalar::FieldView),
    Message(message::Field),
    Mapping(crate::map::FieldView),
    Oneof(oneof::FieldView),
}

impl View for Field {
    type V = FieldView;

    open spec fn view(&self) -> FieldView {
        match *self {
            Field::Scalar(field) => FieldView::Scalar(field@),
            Field::Message(field) => FieldView::Message(field),
            Field::Mapping(field) => FieldView::Mapping(field@),
            Field::Oneof(field) => FieldView::Oneof(field@),
        }
    }
}

/// The failure of a field that no builder takes.
pub open spec fn no_kind() -> Failure {
    Failure { kind: ErrorKind::MissingKind, message: "no type attribute"@ }
}

/// The field that a list of directives resolves to: that of the first builder,
/// in the order scalar, message, map, oneof, which does not decline the list.
/// Its error, if it fails, is the outcome as well: no later builder is asked.
pub open spec fn dispatched(attrs: Seq<MetaItem>) -> Result<FieldView, Failure> {
    match scalar::resolved(attrs) {
        Err(failure) => Err(failure),
        Ok(Some(field)) => Ok(FieldView::Scalar(field)),
        Ok(None) => match message::resolved(attrs) {
            Err(failure) => Err(failure),
            Ok(Some(field)) => Ok(FieldView::Message(field)),
            Ok(None) => match crate::map::resolved(attrs) {
                Err(failure) => Err(failure),
                Ok(Some(field)) => Ok(FieldView::Mapping(field)),
                Ok(None) => match oneof::resolved(attrs) {
                    Err(failure) => Err(failure),
                    Ok(Some(field)) => Ok(FieldView::Oneof(field)),
                    Ok(None) => Err(no_kind()),
                },
            },
        },
    }
}

/// The field that the annotations of a source field resolve to.
pub open spec fn resolved(attrs: Seq<Attribute>) -> Result<FieldView, Failure> {
    match extracted(attrs) {
        Err(failure) => Err(failure),
        Ok(items) => dispatched(items),
    }
}

/// The tokens of a statement that does nothing: `();`.
pub open spec fn nothing_parts() -> Seq<Seq<char>> {
    seq!["("@, ")"@, ";"@]
}

/// The tokens of an expression that succeeds without doing anything: `Ok(())`.
pub open spec fn success_parts() -> Seq<Seq<char>> {
    seq!["Ok"@, "("@, "("@, ")"@, ")"@]
}

/// The tokens of the literal zero.
pub open spec fn zero_parts() -> Seq<Seq<char>> {
    seq!["0"@]
}

impl FieldView {
    /// The tags of the field: its one tag, or one for each alternative.
    pub open spec fn tags(self) -> Seq<u32> {
        match self {
            FieldView::Scalar(field) => seq![field.tag],
            FieldView::Message(field) => seq![field.tag],
            FieldView::Mapping(field) => seq![field.tag],
            FieldView::Oneof(field) => field.tags,
        }
    }

    /// The text of the statement that writes the field held in `binding`. A field
    /// with alternatives is written by the type of its alternatives: its
    /// statement does nothing.
    pub open spec fn encode_text(self, binding: Seq<char>) -> Seq<char> {
        match self {
            FieldView::Scalar(field) => scalar::encode_text(field, binding),
            FieldView::Message(field) => field.encode_text(binding),
            FieldView::Mapping(field) => crate::map::encode_text(field, binding),
            FieldView::Oneof(_) => joined(nothing_parts()),
        }
    }

    /// The text of the expression that reads one occurrence into the field held
    /// in `binding`; for a field with alternatives, plain success.
    pub open spec fn merge_text(self, binding: Seq<char>) -> Seq<char> {
        match self {
            FieldView::Scalar(field) => scalar::merge_text(field, binding),
            FieldView::Message(field) => field.merge_text(binding),
            FieldView::Mapping(field) => crate::map::merge_text(field, binding),
            FieldView::Oneof(_) => joined(success_parts()),
        }
    }

    /// The text of the expression for the encoded length of the field held in
    /// `binding`; for a field with alternatives, zero.
    pub open spec fn encoded_len_text(self, binding: Seq<char>) -> Seq<char> {
        match self {
            FieldView::Scalar(field) => scalar::encoded_len_text(field, binding),
            FieldView::Message(field) => field.encoded_len_text(binding),
            FieldView::Mapping(field) => crate::map::encoded_len_text(field, binding),
            FieldView::Oneof(_) => joined(zero_parts()),
        }
    }

    /// The text of the expression for the field's default value: a scalar field
    /// has its own, every other field the ambient one.
    pub open spec fn default_text(self) -> Seq<char> {
        match self {
            FieldView::Scalar(field) => scalar::default_text(field),
            _ => joined(ambient_default_parts()),
        }
    }

    /// The text of the accessor of the field held in `binding`, if it has one:
    /// only a scalar field or a map field can have.
    pub open spec fn methods_text(self, binding: Seq<char>) -> Option<Seq<char>> {
        match self {
            FieldView::Scalar(field) => scalar::methods_text(field, binding),
            FieldView::Mapping(field) => crate::map::methods_text(field, binding),
            _ => None,
        }
    }
}

impl Field {
    /// Resolves the annotations of a source field.
    ///
    /// The annotations are normalised into directives and handed to the
    /// builders. A field that no builder takes is an error: the answer is never
    /// `Ok(None)`.
    pub fn new(attrs: Vec<Attribute>) -> (outcome: Result<Option<Field>, Error>)
        ensures
            match outcome {
                Ok(Some(field)) => resolved(attrs@) == Ok::<FieldView, Failure>(field@),
                Ok(None) => false,
                Err(error) => resolved(attrs@) == Err::<FieldView, Failure>(error@),
            },
    {
        let items: Vec<MetaItem> = match directives(attrs) {
            Ok(items) => items,
            Err(error) => {
                return Err(error);
            },
        };
        match Field::from_directives(items.as_slice()) {
            Ok(field) => Ok(Some(field)),
            Err(error) => Err(error),
        }
    }

    /// Resolves a list of directives.
    pub fn from_directives(attrs: &[MetaItem]) -> (outcome: Result<Field, Error>)
        ensures
            match outcome {
                Ok(field) => dispatched(attrs@) == Ok::<FieldView, Failure>(field@),
                Err(error) => dispatched(attrs@) == Err::<FieldView, Failure>(error@),
            },
    {
        match scalar::Field::new(attrs) {
            Err(error) => {
                return Err(error);
            },
            Ok(Some(field)) => {
                return Ok(Field::Scalar(field));
            },
            Ok(None) => {},
        }
        match message::Field::new(attrs) {
            Err(error) => {
                return Err(error);
            },
            Ok(Some(field)) => {
                return Ok(Field::Message(field));
            },
            Ok(None) => {},
        }
        match crate::map::Field::new(attrs) {
            Err(error) => {
                return Err(error);
            },
            Ok(Some(field)) => {
                return Ok(Field::Mapping(field));
            },
            Ok(None) => {},
        }
        match oneof::Field::new(attrs) {
            Err(error) => {
                return Err(error);
            },
            Ok(Some(field)) => {
                return Ok(Field::Oneof(field));
            },
            Ok(None) => {},
        }
        Err(Error::new(ErrorKind::MissingKind, String::from_str("no type attribute")))
    }

    /// The tags of the field: its one tag, or one for each alternative.
    pub fn tags(&self) -> (tags: Vec<u32>)
        ensures
            tags@ == self@.tags(),
    {
        match self {
            Field::Scalar(field) => one_tag(field.tag),
            Field::Message(field) => one_tag(field.tag),
            Field::Mapping(field) => one_tag(field.tag),
            Field::Oneof(field) => field.tags.clone(),
        }
    }

    /// The statement that writes the field held in `binding`.
    pub fn encode(&self, binding: &str) -> (tokens: quote::Tokens)
        ensures
            tokens_text(tokens) == self@.encode_text(binding@),
    {
        match self {
            Field::Scalar(field) => field.encode(binding),
            Field::Message(field) => field.encode(binding),
            Field::Mapping(field) => field.encode(binding),
            Field::Oneof(_) => {
                let mut fragment: Fragment = Fragment::new();
                fragment.push("(");
                fragment.push(")");
                fragment.push(";");
                assert(fragment.parts() =~= nothing_parts());
                fragment.finish()
            },
        }
    }

    /// The expression that reads one occurrence into the field held in `binding`.
    pub fn merge(&self, binding: &str) -> (tokens: quote::Tokens)
        ensures
            tokens_text(tokens) == self@.merge_text(binding@),
    {
        match self {
            Field::Scalar(field) => field.merge(binding),
            Field::Message(field) => field.merge(binding),
            Field::Mapping(field) => field.merge(binding),
            Field::Oneof(_) => {
                let mut fragment: Fragment = Fragment::new();
                fragment.push("Ok");
                fragment.push("(");
                fragment.push("(");
                fragment.push(")");
                fragment.push(")");
                assert(fragment.parts() =~= success_parts());
                fragment.finish()
            },
        }
    }

    /// The expression for the encoded length of the field held in `binding`.
    pub fn encoded_len(&self, binding: &str) -> (tokens: quote::Tokens)
        ensures
            tokens_text(tokens) == self@.encoded_len_text(binding@),
    {
        match self {
            Field::Scalar(field) => field.encoded_len(binding),
            Field::Message(field) => field.encoded_len(binding),
            Field::Mapping(field) => field.encoded_len(binding),
            Field::Oneof(_) => {
                let mut fragment: Fragment = Fragment::new();
                fragment.push("0");
                assert(fragment.parts() =~= zero_parts());
                fragment.finish()
            },
        }
    }

    /// The expression for the field's default value.
    pub fn default(&self) -> (tokens: quote::Tokens)
        ensures
            tokens_text(tokens) == self@.default_text(),
    {
        match self {
            Field::Scalar(field) => field.default(),
            _ => ambient_default(),
        }
    }

    /// The accessor of the field held in `binding`, if it has one.
    pub fn methods(&self, binding: &str) -> (tokens: Option<quote::Tokens>)
        ensures
            match tokens {
                Some(tokens) => self@.methods_text(binding@) == Some(tokens_text(tokens)),
                None => self@.methods_text(binding@) is None,
            },
    {
        match self {
            Field::Scalar(field) => field.methods(binding),
            Field::Mapping(field) => field.methods(binding),
            _ => None,
        }
    }
}

fn one_tag(tag: u32) -> (tags: Vec<u32>)
    ensures
        tags@ == seq![tag],
{
    let mut tags: Vec<u32> = Vec::new();
    tags.push(tag);
    tags
}

} // verus!

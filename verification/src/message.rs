//! The builder of embedded-message fields.
//!
//! The bare word `message` selects the kind. Besides it the field takes a
//! `tag`, which it must have, and a label, which is `optional` if none is given.
//!
//! The builder takes in every directive before it decides. A setting that is
//! malformed or given twice fails at once, whatever the kind of the field. A
//! directive that the builder has no use for is passed over; it is an error
//! only once the walk is done and the kind is selected.

use crate::attr::{
    duplicate, first_unknown, folded, invalid, invalid_error, is_word,
    lemma_folded_error_stays, note_unknown, put_label, put_tag, set_bool, set_option, tag_attr,
    tag_value, unknown, unknown_error, word_attr,
};
use crate::directive::MetaItem;
use crate::error::{agrees, Error, Failure};
use crate::scalar::text_view;
use crate::label::Label;
use crate::tokens::{
    encode_call, encode_parts, encoded_len_call, encoded_len_parts, joined, merge_call,
    merge_parts, tokens_text,
};
use vstd::prelude::*;

verus! {

/// An embedded-message field.
#[derive(Clone, Copy, PartialEq, Eq, Structural)]
pub struct Field {
    pub label: Label,
    pub tag: u32,
}

/// What the directives read so far have set.
pub struct Slots {
    pub message: bool,
    pub label: Option<Label>,
    pub tag: Option<u32>,
}

/// Whether the directives select this kind: one of them is the word `message`.
pub open spec fn selects(attrs: Seq<MetaItem>) -> bool {
    exists|i: int| 0 <= i < attrs.len() && is_word("message"@, #[trigger] attrs[i])
}

/// Nothing set.
pub open spec fn empty_slots() -> Slots {
    Slots { message: false, label: None, tag: None }
}

/// Whether the builder has a use for the directive: it is the word `message`,
/// it is named `tag`, or it is a label.
pub open spec fn knows(attr: MetaItem) -> bool {
    is_word("message"@, attr) || tag_value(attr) != Ok::<Option<u32>, Failure>(None) || Label::of(
        attr,
    ) is Some
}

/// The slots after one more directive. A directive that the builder has no use
/// for leaves them as they are.
pub open spec fn step(slots: Slots, attr: MetaItem) -> Result<Slots, Failure> {
    if is_word("message"@, attr) {
        if slots.message {
            Err(duplicate("duplicate message attribute"@))
        } else {
            Ok(Slots { message: true, ..slots })
        }
    } else {
        match tag_value(attr) {
            Err(failure) => Err(failure),
            Ok(Some(tag)) => match put_tag(slots.tag, tag) {
                Ok(tag) => Ok(Slots { tag, ..slots }),
                Err(failure) => Err(failure),
            },
            Ok(None) => match Label::of(attr) {
                Some(label) => match put_label(slots.label, label) {
                    Ok(label) => Ok(Slots { label, ..slots }),
                    Err(failure) => Err(failure),
                },
                None => Ok(slots),
            },
        }
    }
}

/// The field that the slots make up.
pub open spec fn finished(slots: Slots) -> Result<Field, Failure> {
    match slots.tag {
        Some(tag) => Ok(
            Field {
                label: match slots.label {
                    Some(label) => label,
                    None => Label::Optional,
                },
                tag,
            },
        ),
        None => Err(invalid("message field is missing a tag attribute"@)),
    }
}

/// The outcome of the builder on a list of directives.
///
/// The directives are taken in one by one; the first that gives a malformed
/// or a second value fails the builder. After that the builder declines, with
/// `Ok(None)`, a list that does not select the kind. Of a list that does, the
/// first directive without a use is an error, and the slots must make up a field.
pub open spec fn resolved(attrs: Seq<MetaItem>) -> Result<Option<Field>, Failure> {
    match folded(empty_slots(), |slots: Slots, attr: MetaItem| step(slots, attr), attrs) {
        Err(failure) => Err(failure),
        Ok(slots) => if !selects(attrs) {
            Ok(None)
        } else {
            match first_unknown(|attr: MetaItem| knows(attr), attrs) {
                Some(name) => Err(unknown(name)),
                None => match finished(slots) {
                    Ok(field) => Ok(Some(field)),
                    Err(failure) => Err(failure),
                },
            }
        },
    }
}

fn selected(attrs: &[MetaItem]) -> (found: bool)
    ensures
        found == selects(attrs@),
{
    let mut i: usize = 0;
    while i < attrs.len()
        invariant
            i <= attrs.len(),
            forall|k: int| 0 <= k < i ==> !is_word("message"@, #[trigger] attrs@[k]),
        decreases attrs.len() - i,
    {
        if word_attr("message", &attrs[i]) {
            return true;
        }
        i += 1;
    }
    false
}

fn take(slots: &mut Slots, attr: &MetaItem) -> (outcome: Result<bool, Error>)
    ensures
        match step(*old(slots), *attr) {
            Ok(next) => outcome == Ok::<bool, Error>(knows(*attr)) && *final(slots) == next,
            Err(failure) => outcome matches Err(error) && error@ == failure,
        },
{
    if word_attr("message", attr) {
        match set_bool(&mut slots.message, "duplicate message attribute") {
            Ok(_) => Ok(true),
            Err(error) => Err(error),
        }
    } else {
        match tag_attr(attr) {
            Err(error) => Err(error),
            Ok(Some(tag)) => match set_option(&mut slots.tag, tag, "duplicate tag attributes") {
                Ok(_) => Ok(true),
                Err(error) => Err(error),
            },
            Ok(None) => match Label::from_attr(attr) {
                Some(label) => match set_option(
                    &mut slots.label,
                    label,
                    "duplicate label attributes",
                ) {
                    Ok(_) => Ok(true),
                    Err(error) => Err(error),
                },
                None => Ok(false),
            },
        }
    }
}

impl Field {
    /// Builds the field from the directives, or declines them.
    pub fn new(attrs: &[MetaItem]) -> (outcome: Result<Option<Field>, Error>)
        ensures
            agrees(outcome, resolved(attrs@)),
    {
        let ghost walk = |slots: Slots, attr: MetaItem| step(slots, attr);
        let ghost known = |attr: MetaItem| knows(attr);
        let mut slots: Slots = Slots { message: false, label: None, tag: None };
        let mut unknown: Option<String> = None;
        let mut i: usize = 0;
        while i < attrs.len()
            invariant
                i <= attrs.len(),
                walk == |slots: Slots, attr: MetaItem| step(slots, attr),
                known == |attr: MetaItem| knows(attr),
                folded(empty_slots(), walk, attrs@.subrange(0, i as int)) == Ok::<Slots, Failure>(
                    slots,
                ),
                first_unknown(known, attrs@.subrange(0, i as int)) == text_view(unknown),
            decreases attrs.len() - i,
        {
            proof {
                assert(attrs@.subrange(0, i + 1).drop_last() =~= attrs@.subrange(0, i as int));
            }
            match take(&mut slots, &attrs[i]) {
                Err(error) => {
                    proof {
                        lemma_folded_error_stays(empty_slots(), walk, attrs@, i + 1);
                    }
                    return Err(error);
                },
                Ok(taken) => {
                    note_unknown(&mut unknown, taken, &attrs[i]);
                },
            }
            i += 1;
        }
        proof {
            assert(attrs@.subrange(0, i as int) =~= attrs@);
        }
        if !selected(attrs) {
            return Ok(None);
        }
        match unknown {
            Some(name) => {
                return Err(unknown_error(name.as_str()));
            },
            None => {},
        }
        match slots.tag {
            Some(tag) => Ok(
                Some(
                    Field {
                        label: match slots.label {
                            Some(label) => label,
                            None => Label::Optional,
                        },
                        tag,
                    },
                ),
            ),
            None => Err(invalid_error("message field is missing a tag attribute")),
        }
    }

    /// The function of the wire encoding that writes a field with this label.
    pub open spec fn encode_function(self) -> Seq<char> {
        match self.label {
            Label::Optional => "encode_optional"@,
            Label::Required => "encode"@,
            Label::Repeated => "encode_repeated"@,
        }
    }

    /// The function of the wire encoding that reads into a field with this label.
    pub open spec fn merge_function(self) -> Seq<char> {
        match self.label {
            Label::Optional => "merge_optional"@,
            Label::Required => "merge"@,
            Label::Repeated => "merge_repeated"@,
        }
    }

    /// The function of the wire encoding that measures a field with this label.
    pub open spec fn encoded_len_function(self) -> Seq<char> {
        match self.label {
            Label::Optional => "encoded_len_optional"@,
            Label::Required => "encoded_len"@,
            Label::Repeated => "encoded_len_repeated"@,
        }
    }

    /// The text of the statement that writes the field held in `binding`.
    pub open spec fn encode_text(self, binding: Seq<char>) -> Seq<char> {
        joined(encode_parts("message"@, self.encode_function(), self.tag, binding))
    }

    /// The text of the expression that reads one occurrence into the field held in `binding`.
    pub open spec fn merge_text(self, binding: Seq<char>) -> Seq<char> {
        joined(merge_parts("message"@, self.merge_function(), binding))
    }

    /// The text of the expression for the encoded length of the field held in `binding`.
    pub open spec fn encoded_len_text(self, binding: Seq<char>) -> Seq<char> {
        joined(encoded_len_parts("message"@, self.encoded_len_function(), self.tag, binding))
    }

    /// The statement that writes the field held in `binding`.
    pub fn encode(&self, binding: &str) -> (tokens: quote::Tokens)
        ensures
            tokens_text(tokens) == self.encode_text(binding@),
    {
        let function: &str = match self.label {
            Label::Optional => "encode_optional",
            Label::Required => "encode",
            Label::Repeated => "encode_repeated",
        };
        encode_call("message", function, self.tag, binding)
    }

    /// The expression that reads one occurrence into the field held in `binding`.
    pub fn merge(&self, binding: &str) -> (tokens: quote::Tokens)
        ensures
            tokens_text(tokens) == self.merge_text(binding@),
    {
        let function: &str = match self.label {
            Label::Optional => "merge_optional",
            Label::Required => "merge",
            Label::Repeated => "merge_repeated",
        };
        merge_call("message", function, binding)
    }

    /// The expression for the encoded length of the field held in `binding`.
    pub fn encoded_len(&self, binding: &str) -> (tokens: quote::Tokens)
        ensures
            tokens_text(tokens) == self.encoded_len_text(binding@),
    {
        let function: &str = match self.label {
            Label::Optional => "encoded_len_optional",
            Label::Required => "encoded_len",
            Label::Repeated => "encoded_len_repeated",
        };
        encoded_len_call("message", function, self.tag, binding)
    }
}

} // verus!

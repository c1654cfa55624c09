//! The builder of fields with alternatives.
//!
//! A directive named `oneof` selects the kind and gives the path of the type
//! that holds the alternatives. Besides it the field takes `tags`, which it
//! must have: one tag for each alternative.
//!
//! The builder takes in every directive before it decides. A setting that is
//! malformed or given twice fails at once, whatever the kind of the field. A
//! directive that the builder has no use for is passed over; it is an error
//! only once the walk is done and the kind is selected.

use crate::attr::{
    duplicate, duplicate_message, first_unknown, folded, invalid, invalid_error,
    lemma_folded_error_stays, malformed, malformed_error, note_unknown, path_attr, path_value,
    set_option, tags_attr, tags_value, unknown, unknown_error,
};
use crate::scalar::text_view;
use crate::directive::MetaItem;
use crate::error::{bracketed, Error, Failure};
use crate::text::same_text;
use vstd::prelude::*;

verus! {

/// A field with alternatives.
#[derive(Clone, Debug, PartialEq, Eq)]
pub struct Field {
    /// The path of the type that holds the alternatives.
    pub ty: String,
    /// The tags of the alternatives, in the order of the directive.
    pub tags: Vec<u32>,
}

/// A field with alternatives, as characters and numbers.
pub struct FieldView {
    pub ty: Seq<char>,
    pub tags: Seq<u32>,
}

impl View for Field {
    type V = FieldView;

    open spec fn view(&self) -> FieldView {
        FieldView { ty: self.ty@, tags: self.tags@ }
    }
}

/// What the directives read so far have set.
pub struct Slots {
    pub ty: Option<String>,
    pub tags: Option<Vec<u32>>,
}

/// The slots, as characters and numbers.
pub struct SlotsView {
    pub ty: Option<Seq<char>>,
    pub tags: Option<Seq<u32>>,
}

impl View for Slots {
    type V = SlotsView;

    open spec fn view(&self) -> SlotsView {
        SlotsView {
            ty: match self.ty {
                Some(ty) => Some(ty@),
                None => None,
            },
            tags: match self.tags {
                Some(tags) => Some(tags@),
                None => None,
            },
        }
    }
}

/// Whether the directives select this kind: one of them is named `oneof`.
pub open spec fn selects(attrs: Seq<MetaItem>) -> bool {
    exists|i: int| 0 <= i < attrs.len() && (#[trigger] attrs[i]).name_of() == "oneof"@
}

/// Nothing set.
pub open spec fn empty_slots() -> SlotsView {
    SlotsView { ty: None, tags: None }
}

/// The path that a directive named `oneof` gives.
pub open spec fn type_value(attr: MetaItem) -> Result<Option<Seq<char>>, Failure> {
    if attr.name_of() != "oneof"@ {
        Ok(None)
    } else {
        match path_value(attr) {
            Some(path) => Ok(Some(path)),
            None => Err(malformed("oneof"@)),
        }
    }
}

/// What a type slot holds once `path` is stored in it.
pub open spec fn put_type(slot: Option<Seq<char>>, path: Seq<char>) -> Result<
    Option<Seq<char>>,
    Failure,
> {
    match slot {
        None => Ok(Some(path)),
        Some(existing) => Err(
            duplicate(
                duplicate_message("duplicate oneof attribute"@, existing, path),
            ),
        ),
    }
}

/// What a tags slot holds once `tags` are stored in it.
pub open spec fn put_tags(slot: Option<Seq<u32>>, tags: Seq<u32>) -> Result<
    Option<Seq<u32>>,
    Failure,
> {
    match slot {
        None => Ok(Some(tags)),
        Some(existing) => Err(
            duplicate(
                duplicate_message(
                    "duplicate tags attributes"@,
                    bracketed(existing),
                    bracketed(tags),
                ),
            ),
        ),
    }
}

/// Whether the builder has a use for the directive: it is named `oneof` or `tags`.
pub open spec fn knows(attr: MetaItem) -> bool {
    attr.name_of() == "oneof"@ || attr.name_of() == "tags"@
}

/// The slots after one more directive; one that the builder has no use for
/// leaves them as they are.
pub open spec fn step(slots: SlotsView, attr: MetaItem) -> Result<SlotsView, Failure> {
    match type_value(attr) {
        Err(failure) => Err(failure),
        Ok(Some(path)) => match put_type(slots.ty, path) {
            Ok(ty) => Ok(SlotsView { ty, ..slots }),
            Err(failure) => Err(failure),
        },
        Ok(None) => match tags_value(attr) {
            Err(failure) => Err(failure),
            Ok(Some(tags)) => match put_tags(slots.tags, tags) {
                Ok(tags) => Ok(SlotsView { tags, ..slots }),
                Err(failure) => Err(failure),
            },
            Ok(None) => Ok(slots),
        },
    }
}

/// The field that the slots make up.
pub open spec fn finished(slots: SlotsView) -> Result<FieldView, Failure> {
    match slots.ty {
        None => Err(invalid("missing oneof attribute"@)),
        Some(ty) => match slots.tags {
            None => Err(invalid("oneof field is missing a tags attribute"@)),
            Some(tags) => Ok(FieldView { ty, tags }),
        },
    }
}

/// The outcome of the builder on a list of directives.
///
/// The directives are taken in one by one; the first that gives a malformed
/// or a second value fails the builder. After that the builder declines, with
/// `Ok(None)`, a list that does not select the kind. Of a list that does, the
/// first directive without a use is an error, and the slots must make up a field.
pub open spec fn resolved(attrs: Seq<MetaItem>) -> Result<Option<FieldView>, Failure> {
    match folded(empty_slots(), |slots: SlotsView, attr: MetaItem| step(slots, attr), attrs) {
        Err(failure) => Err(failure),
        Ok(slots) => if !selects(attrs) {
            Ok(None)
        } else {
            match first_unknown(|attr: MetaItem| knows(attr), attrs) {
                Some(name) => Err(unknown(name)),
                None => match finished(slots) {
                    Ok(field) => Ok(Some(field)),
                    Err(failure) => Err(failure),
                },
            }
        },
    }
}

fn selected(attrs: &[MetaItem]) -> (found: bool)
    ensures
        found == selects(attrs@),
{
    let mut i: usize = 0;
    while i < attrs.len()
        invariant
            i <= attrs.len(),
            forall|k: int| 0 <= k < i ==> (#[trigger] attrs@[k]).name_of() != "oneof"@,
        decreases attrs.len() - i,
    {
        if same_text(attrs[i].name(), "oneof") {
            return true;
        }
        i += 1;
    }
    false
}

fn type_attr(attr: &MetaItem) -> (outcome: Result<Option<String>, Error>)
    ensures
        match outcome {
            Ok(Some(path)) => type_value(*attr) == Ok::<Option<Seq<char>>, Failure>(Some(path@)),
            Ok(None) => type_value(*attr) == Ok::<Option<Seq<char>>, Failure>(None),
            Err(error) => type_value(*attr) == Err::<Option<Seq<char>>, Failure>(error@),
        },
{
    if !same_text(attr.name(), "oneof") {
        return Ok(None);
    }
    match path_attr(attr) {
        Some(path) => Ok(Some(path)),
        None => Err(malformed_error("oneof")),
    }
}

fn take(slots: &mut Slots, attr: &MetaItem) -> (outcome: Result<bool, Error>)
    ensures
        match step(old(slots)@, *attr) {
            Ok(next) => outcome == Ok::<bool, Error>(knows(*attr)) && final(slots)@ == next,
            Err(failure) => outcome matches Err(error) && error@ == failure,
        },
{
    match type_attr(attr) {
        Err(error) => Err(error),
        Ok(Some(path)) => stored(set_option(&mut slots.ty, path, "duplicate oneof attribute")),
        Ok(None) => match tags_attr(attr) {
            Err(error) => Err(error),
            Ok(Some(tags)) => stored(
                set_option(&mut slots.tags, tags, "duplicate tags attributes"),
            ),
            Ok(None) => Ok(false),
        },
    }
}

/// Whether a guard let the value in.
fn stored(outcome: Result<(), Error>) -> (taken: Result<bool, Error>)
    ensures
        match outcome {
            Ok(_) => taken == Ok::<bool, Error>(true),
            Err(error) => taken == Err::<bool, Error>(error),
        },
{
    match outcome {
        Ok(_) => Ok(true),
        Err(error) => Err(error),
    }
}

impl Field {
    /// Builds the field from the directives, or declines them.
    pub fn new(attrs: &[MetaItem]) -> (outcome: Result<Option<Field>, Error>)
        ensures
            match outcome {
                Ok(Some(field)) => resolved(attrs@) == Ok::<Option<FieldView>, Failure>(
                    Some(field@),
                ),
                Ok(None) => resolved(attrs@) == Ok::<Option<FieldView>, Failure>(None),
                Err(error) => resolved(attrs@) == Err::<Option<FieldView>, Failure>(error@),
            },
    {
        let ghost walk = |slots: SlotsView, attr: MetaItem| step(slots, attr);
        let ghost known = |attr: MetaItem| knows(attr);
        let mut slots: Slots = Slots { ty: None, tags: None };
        let mut unknown: Option<String> = None;
        let mut i: usize = 0;
        while i < attrs.len()
            invariant
                i <= attrs.len(),
                walk == |slots: SlotsView, attr: MetaItem| step(slots, attr),
                known == |attr: MetaItem| knows(attr),
                folded(empty_slots(), walk, attrs@.subrange(0, i as int)) == Ok::<
                    SlotsView,
                    Failure,
                >(slots@),
                first_unknown(known, attrs@.subrange(0, i as int)) == text_view(unknown),
            decreases attrs.len() - i,
        {
            proof {
                assert(attrs@.subrange(0, i + 1).drop_last() =~= attrs@.subrange(0, i as int));
            }
            match take(&mut slots, &attrs[i]) {
                Err(error) => {
                    proof {
                        lemma_folded_error_stays(empty_slots(), walk, attrs@, i + 1);
                    }
                    return Err(error);
                },
                Ok(taken) => {
                    note_unknown(&mut unknown, taken, &attrs[i]);
                },
            }
            i += 1;
        }
        proof {
            assert(attrs@.subrange(0, i as int) =~= attrs@);
        }
        if !selected(attrs) {
            return Ok(None);
        }
        match unknown {
            Some(name) => {
                return Err(unknown_error(name.as_str()));
            },
            None => {},
        }
        let Slots { ty, tags } = slots;
        match ty {
            None => Err(invalid_error("missing oneof attribute")),
            Some(ty) => match tags {
                None => Err(invalid_error("oneof field is missing a tags attribute")),
                Some(tags) => Ok(Some(Field { ty, tags })),
            },
        }
    }
}

} // verus!

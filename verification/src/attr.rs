//! The single-assignment guards and the readers of directive values.
//!
//! A reader takes one directive. It answers `None` when the directive has
//! another name, so that a caller can probe a list without an error; the value
//! when the payload has an accepted shape; and an error when the name matches
//! and the payload does not.

use crate::directive::{Lit, MetaItem, NestedMetaItem};
use crate::label::Label;
use crate::error::{agrees, Describe, Error, ErrorKind, Failure};
use crate::text::{decimal, parse_bool, parse_list, parse_u32, parsed_bool, parsed_list, parsed_u32, same_text};
use vstd::prelude::*;

verus! {

/// The message for a setting given twice: the context, then both values.
pub open spec fn duplicate_message(
    context: Seq<char>,
    existing: Seq<char>,
    incoming: Seq<char>,
) -> Seq<char> {
    context + ": "@ + existing + " and "@ + incoming
}

/// The failure for a setting given twice.
pub open spec fn duplicate(message: Seq<char>) -> Failure {
    Failure { kind: ErrorKind::DuplicateAssignment, message }
}

/// Stores `value` in an empty slot. A slot that already holds a value is left
/// as it is, and the error shows the value it holds and the one that came.
pub fn set_option<T: Describe>(option: &mut Option<T>, value: T, message: &str) -> (outcome: Result<
    (),
    Error,
>)
    ensures
        match *old(option) {
            None => outcome is Ok && *final(option) == Some(value),
            Some(existing) => {
                &&& *final(option) == *old(option)
                &&& outcome matches Err(error)
                &&& error@ == duplicate(
                    duplicate_message(message@, existing.description(), value.description()),
                )
            },
        },
{
    if option.is_some() {
        let existing: String = option.as_ref().unwrap().describe();
        let incoming: String = value.describe();
        let mut text: String = String::from_str(message);
        text.append(": ");
        text.append(existing.as_str());
        text.append(" and ");
        text.append(incoming.as_str());
        return Err(Error::new(ErrorKind::DuplicateAssignment, text));
    }
    *option = Some(value);
    Ok(())
}

/// Raises a flag that is down. A flag that is up already is an error.
pub fn set_bool(b: &mut bool, message: &str) -> (outcome: Result<(), Error>)
    ensures
        *final(b),
        match outcome {
            Ok(_) => !*old(b),
            Err(error) => *old(b) && error@ == duplicate(message@),
        },
{
    if *b {
        Err(Error::new(ErrorKind::DuplicateAssignment, String::from_str(message)))
    } else {
        *b = true;
        Ok(())
    }
}

/// The message for a directive whose payload has no accepted shape.
pub open spec fn malformed_message(name: Seq<char>) -> Seq<char> {
    "invalid "@ + name + " attribute"@
}

/// The failure for a directive whose payload has no accepted shape.
pub open spec fn malformed(name: Seq<char>) -> Failure {
    Failure { kind: ErrorKind::MalformedDirective, message: malformed_message(name) }
}

pub fn malformed_error(name: &str) -> (error: Error)
    ensures
        error@ == malformed(name@),
{
    let mut text: String = String::from_str("invalid ");
    text.append(name);
    text.append(" attribute");
    Error::new(ErrorKind::MalformedDirective, text)
}

/// Whether the directive is the bare word `key`.
pub open spec fn is_word(key: Seq<char>, attr: MetaItem) -> bool {
    attr matches MetaItem::Word(word) && word@ == key
}

/// Whether the directive is the bare word `key`.
pub fn word_attr(key: &str, attr: &MetaItem) -> (found: bool)
    ensures
        found == is_word(key@, *attr),
{
    match attr {
        MetaItem::Word(word) => same_text(word.as_str(), key),
        _ => false,
    }
}

/// The boolean that the entries of a list give: that of its one entry, a boolean literal.
pub open spec fn entry_bool(entries: Seq<NestedMetaItem>) -> Option<bool> {
    if entries.len() == 1 {
        match entries[0] {
            NestedMetaItem::Literal(Lit::Bool(value)) => Some(value),
            _ => None,
        }
    } else {
        None
    }
}

/// The boolean that a directive named `key` gives.
///
/// A bare word means `true`. A list must hold one boolean literal; a value
/// must be a boolean literal, or a string that spells `true` or `false`.
pub open spec fn bool_value(key: Seq<char>, attr: MetaItem) -> Result<Option<bool>, Failure> {
    if attr.name_of() != key {
        Ok(None)
    } else {
        match attr {
            MetaItem::Word(_) => Ok(Some(true)),
            MetaItem::List(_, items) => match entry_bool(items@) {
                Some(value) => Ok(Some(value)),
                None => Err(malformed(key)),
            },
            MetaItem::NameValue(_, Lit::Str(s)) => match parsed_bool(s@) {
                Some(value) => Ok(Some(value)),
                None => Err(malformed(key)),
            },
            MetaItem::NameValue(_, Lit::Bool(value)) => Ok(Some(value)),
            MetaItem::NameValue(_, _) => Err(malformed(key)),
        }
    }
}

/// Reads a directive as the boolean setting `key`.
pub fn bool_attr(key: &str, attr: &MetaItem) -> (outcome: Result<Option<bool>, Error>)
    ensures
        agrees(outcome, bool_value(key@, *attr)),
{
    if !same_text(attr.name(), key) {
        return Ok(None);
    }
    match attr {
        MetaItem::Word(_) => Ok(Some(true)),
        MetaItem::List(_, items) => {
            if items.len() == 1 {
                match &items[0] {
                    NestedMetaItem::Literal(Lit::Bool(value)) => {
                        return Ok(Some(*value));
                    },
                    _ => {},
                }
            }
            Err(malformed_error(key))
        },
        MetaItem::NameValue(_, Lit::Str(s)) => match parse_bool(s.as_str()) {
            Some(value) => Ok(Some(value)),
            None => Err(malformed_error(key)),
        },
        MetaItem::NameValue(_, Lit::Bool(value)) => Ok(Some(*value)),
        MetaItem::NameValue(_, _) => Err(malformed_error(key)),
    }
}

/// The tag that an integer literal gives: its value, if it fits in 32 bits.
pub open spec fn literal_tag(lit: Lit) -> Option<u32> {
    match lit {
        Lit::Int(value) => if value <= u32::MAX {
            Some(value as u32)
        } else {
            None
        },
        _ => None,
    }
}

/// The tag that a list entry gives: that of an integer literal.
pub open spec fn entry_tag(entry: NestedMetaItem) -> Option<u32> {
    match entry {
        NestedMetaItem::Literal(lit) => literal_tag(lit),
        NestedMetaItem::MetaItem(_) => None,
    }
}

/// The tag that a directive named `tag` gives.
///
/// A list must hold one integer literal; a value must be an integer literal or
/// a string that spells an unsigned number. The number must fit in 32 bits.
pub open spec fn tag_value(attr: MetaItem) -> Result<Option<u32>, Failure> {
    if attr.name_of() != "tag"@ {
        Ok(None)
    } else {
        let tag = match attr {
            MetaItem::Word(_) => None,
            MetaItem::List(_, items) => if items@.len() == 1 {
                entry_tag(items@[0])
            } else {
                None
            },
            MetaItem::NameValue(_, Lit::Str(s)) => parsed_u32(s@),
            MetaItem::NameValue(_, lit) => literal_tag(lit),
        };
        match tag {
            Some(tag) => Ok(Some(tag)),
            None => Err(malformed("tag"@)),
        }
    }
}

fn tag_of_literal(lit: &Lit) -> (tag: Option<u32>)
    ensures
        tag == literal_tag(*lit),
{
    match lit {
        Lit::Int(value) => if *value <= 0xFFFF_FFFF {
            Some(*value as u32)
        } else {
            None
        },
        _ => None,
    }
}

fn tag_of_entry(entry: &NestedMetaItem) -> (tag: Option<u32>)
    ensures
        tag == entry_tag(*entry),
{
    match entry {
        NestedMetaItem::Literal(lit) => tag_of_literal(lit),
        NestedMetaItem::MetaItem(_) => None,
    }
}

/// Reads a directive as the field's tag.
pub fn tag_attr(attr: &MetaItem) -> (outcome: Result<Option<u32>, Error>)
    ensures
        agrees(outcome, tag_value(*attr)),
{
    if !same_text(attr.name(), "tag") {
        return Ok(None);
    }
    let tag: Option<u32> = match attr {
        MetaItem::Word(_) => None,
        MetaItem::List(_, items) => if items.len() == 1 {
            tag_of_entry(&items[0])
        } else {
            None
        },
        MetaItem::NameValue(_, Lit::Str(s)) => parse_u32(s.as_str()),
        MetaItem::NameValue(_, lit) => tag_of_literal(lit),
    };
    match tag {
        Some(tag) => Ok(Some(tag)),
        None => Err(malformed_error("tag")),
    }
}

/// The tags that the entries of a list give: there is at least one entry, and
/// each is an integer literal that fits in 32 bits.
pub open spec fn entry_tags(entries: Seq<NestedMetaItem>) -> Option<Seq<u32>> {
    if entries.len() > 0 && forall|i: int|
        0 <= i < entries.len() ==> (#[trigger] entry_tag(entries[i])) is Some {
        Some(Seq::new(entries.len(), |i: int| entry_tag(entries[i])->0))
    } else {
        None
    }
}

/// The tags that a directive named `tags` gives, in their order.
///
/// A list holds integer literals, each read by itself; a string value holds
/// numbers separated by commas, with white space around them allowed. There is
/// at least one tag.
pub open spec fn tags_value(attr: MetaItem) -> Result<Option<Seq<u32>>, Failure> {
    if attr.name_of() != "tags"@ {
        Ok(None)
    } else {
        let tags = match attr {
            MetaItem::List(_, items) => entry_tags(items@),
            MetaItem::NameValue(_, Lit::Str(s)) => parsed_list(s@),
            _ => None,
        };
        match tags {
            Some(tags) => Ok(Some(tags)),
            None => Err(malformed("tags"@)),
        }
    }
}

fn tags_of_entries(entries: &Vec<NestedMetaItem>) -> (tags: Option<Vec<u32>>)
    ensures
        match tags {
            Some(tags) => entry_tags(entries@) == Some(tags@),
            None => entry_tags(entries@) is None,
        },
{
    if entries.len() == 0 {
        return None;
    }
    let mut tags: Vec<u32> = Vec::new();
    let mut i: usize = 0;
    while i < entries.len()
        invariant
            i <= entries.len(),
            tags@.len() == i,
            forall|k: int| 0 <= k < i ==> #[trigger] entry_tag(entries@[k]) == Some(tags@[k]),
        decreases entries.len() - i,
    {
        match tag_of_entry(&entries[i]) {
            Some(tag) => {
                tags.push(tag);
            },
            None => {
                return None;
            },
        }
        i += 1;
    }
    assert(entry_tags(entries@) is Some);
    assert(tags@ =~= entry_tags(entries@)->0);
    Some(tags)
}

/// Reads a directive as the tags of a field with alternatives.
pub fn tags_attr(attr: &MetaItem) -> (outcome: Result<Option<Vec<u32>>, Error>)
    ensures
        match outcome {
            Ok(Some(tags)) => tags_value(*attr) == Ok::<Option<Seq<u32>>, Failure>(Some(tags@)),
            Ok(None) => tags_value(*attr) == Ok::<Option<Seq<u32>>, Failure>(None),
            Err(error) => tags_value(*attr) == Err::<Option<Seq<u32>>, Failure>(error@),
        },
{
    if !same_text(attr.name(), "tags") {
        return Ok(None);
    }
    let tags: Option<Vec<u32>> = match attr {
        MetaItem::List(_, items) => tags_of_entries(items),
        MetaItem::NameValue(_, Lit::Str(s)) => parse_list(s.as_str()),
        _ => None,
    };
    match tags {
        Some(tags) => Ok(Some(tags)),
        None => Err(malformed_error("tags")),
    }
}

/// What a tag slot holds once `tag` is stored in it; a slot that is taken is an error.
pub open spec fn put_tag(slot: Option<u32>, tag: u32) -> Result<Option<u32>, Failure> {
    match slot {
        None => Ok(Some(tag)),
        Some(existing) => Err(
            duplicate(
                duplicate_message(
                    "duplicate tag attributes"@,
                    decimal(existing as nat),
                    decimal(tag as nat),
                ),
            ),
        ),
    }
}

/// What a label slot holds once `label` is stored in it; a slot that is taken is an error.
pub open spec fn put_label(slot: Option<Label>, label: Label) -> Result<Option<Label>, Failure> {
    match slot {
        None => Ok(Some(label)),
        Some(existing) => Err(
            duplicate(
                duplicate_message("duplicate label attributes"@, existing.word(), label.word()),
            ),
        ),
    }
}

/// The failure for a directive that the selected kind has no use for.
pub open spec fn unknown(name: Seq<char>) -> Failure {
    Failure { kind: ErrorKind::InvalidField, message: "unknown attribute: "@ + name }
}

pub fn unknown_error(name: &str) -> (error: Error)
    ensures
        error@ == unknown(name@),
{
    let mut text: String = String::from_str("unknown attribute: ");
    text.append(name);
    Error::new(ErrorKind::InvalidField, text)
}

/// The failure of a field that is of a kind but not a valid one.
pub open spec fn invalid(message: Seq<char>) -> Failure {
    Failure { kind: ErrorKind::InvalidField, message }
}

pub fn invalid_error(message: &str) -> (error: Error)
    ensures
        error@ == invalid(message@),
{
    Error::new(ErrorKind::InvalidField, String::from_str(message))
}

/// The state after the directives were taken in one by one, in order, from
/// `init`; the first directive that `step` refuses ends the walk with its error.
pub open spec fn folded<S>(
    init: S,
    step: spec_fn(S, MetaItem) -> Result<S, Failure>,
    attrs: Seq<MetaItem>,
) -> Result<S, Failure>
    decreases attrs.len(),
{
    if attrs.len() == 0 {
        Ok(init)
    } else {
        match folded(init, step, attrs.drop_last()) {
            Ok(state) => step(state, attrs.last()),
            Err(failure) => Err(failure),
        }
    }
}

/// A walk that failed on the first `k` directives fails in the same way on all of them.
pub proof fn lemma_folded_error_stays<S>(
    init: S,
    step: spec_fn(S, MetaItem) -> Result<S, Failure>,
    attrs: Seq<MetaItem>,
    k: int,
)
    requires
        0 <= k <= attrs.len(),
        folded(init, step, attrs.subrange(0, k)) is Err,
    ensures
        folded(init, step, attrs) == folded(init, step, attrs.subrange(0, k)),
    decreases attrs.len() - k,
{
    if k == attrs.len() {
        assert(attrs.subrange(0, k) =~= attrs);
    } else {
        assert(attrs.subrange(0, k + 1).drop_last() =~= attrs.subrange(0, k));
        lemma_folded_error_stays(init, step, attrs, k + 1);
    }
}

/// In a walk that succeeded, every directive was accepted in the state that the
/// directives before it had led to.
pub proof fn lemma_folded_each<S>(
    init: S,
    step: spec_fn(S, MetaItem) -> Result<S, Failure>,
    attrs: Seq<MetaItem>,
    i: int,
)
    requires
        0 <= i < attrs.len(),
        folded(init, step, attrs) is Ok,
    ensures
        folded(init, step, attrs.subrange(0, i)) is Ok,
        step(folded(init, step, attrs.subrange(0, i))->Ok_0, attrs[i]) is Ok,
{
    if folded(init, step, attrs.subrange(0, i)) is Err {
        lemma_folded_error_stays(init, step, attrs, i);
    }
    assert(attrs.subrange(0, i + 1).drop_last() =~= attrs.subrange(0, i));
    if folded(init, step, attrs.subrange(0, i + 1)) is Err {
        lemma_folded_error_stays(init, step, attrs, i + 1);
    }
}

/// The path that a directive gives, whatever its name: the string of
/// `name = "path"`, or the one word of `name(path)`.
pub open spec fn path_value(attr: MetaItem) -> Option<Seq<char>> {
    match attr {
        MetaItem::List(_, items) => if items@.len() == 1 {
            match items@[0] {
                NestedMetaItem::MetaItem(MetaItem::Word(path)) => Some(path@),
                _ => None,
            }
        } else {
            None
        },
        MetaItem::NameValue(_, Lit::Str(path)) => Some(path@),
        _ => None,
    }
}

/// Reads the path that a directive gives.
pub fn path_attr(attr: &MetaItem) -> (path: Option<String>)
    ensures
        match path {
            Some(path) => path_value(*attr) == Some(path@),
            None => path_value(*attr) is None,
        },
{
    match attr {
        MetaItem::List(_, items) => {
            if items.len() == 1 {
                match &items[0] {
                    NestedMetaItem::MetaItem(MetaItem::Word(path)) => {
                        return Some(path.clone());
                    },
                    _ => {},
                }
            }
            None
        },
        MetaItem::NameValue(_, Lit::Str(path)) => Some(path.clone()),
        _ => None,
    }
}

/// A walk over directives that all leave the first state as it is ends in that state.
pub proof fn lemma_folded_ignored<S>(
    init: S,
    step: spec_fn(S, MetaItem) -> Result<S, Failure>,
    attrs: Seq<MetaItem>,
)
    requires
        forall|i: int|
            0 <= i < attrs.len() ==> step(init, #[trigger] attrs[i]) == Ok::<S, Failure>(init),
    ensures
        folded(init, step, attrs) == Ok::<S, Failure>(init),
    decreases attrs.len(),
{
    if attrs.len() > 0 {
        let before = attrs.drop_last();
        assert forall|i: int| 0 <= i < before.len() implies step(init, #[trigger] before[i])
            == Ok::<S, Failure>(init) by {
            assert(before[i] == attrs[i]);
        }
        lemma_folded_ignored(init, step, before);
    }
}

/// The name of the first directive that a builder has no use for, if there is one.
pub open spec fn first_unknown(knows: spec_fn(MetaItem) -> bool, attrs: Seq<MetaItem>) -> Option<
    Seq<char>,
>
    decreases attrs.len(),
{
    if attrs.len() == 0 {
        None
    } else {
        match first_unknown(knows, attrs.drop_last()) {
            Some(name) => Some(name),
            None => if knows(attrs.last()) {
                None
            } else {
                Some(attrs.last().name_of())
            },
        }
    }
}

/// Where no directive is unknown, the builder knows every one of them.
pub proof fn lemma_all_known(knows: spec_fn(MetaItem) -> bool, attrs: Seq<MetaItem>, i: int)
    requires
        first_unknown(knows, attrs) is None,
        0 <= i < attrs.len(),
    ensures
        knows(attrs[i]),
    decreases attrs.len(),
{
    if i < attrs.len() - 1 {
        lemma_all_known(knows, attrs.drop_last(), i);
    }
}

/// An unknown directive among the first stays the first unknown among all.
pub proof fn lemma_unknown_stays(knows: spec_fn(MetaItem) -> bool, attrs: Seq<MetaItem>, k: int)
    requires
        0 <= k <= attrs.len(),
        first_unknown(knows, attrs.subrange(0, k)) is Some,
    ensures
        first_unknown(knows, attrs) == first_unknown(knows, attrs.subrange(0, k)),
    decreases attrs.len() - k,
{
    if k == attrs.len() {
        assert(attrs.subrange(0, k) =~= attrs);
    } else {
        assert(attrs.subrange(0, k + 1).drop_last() =~= attrs.subrange(0, k));
        lemma_unknown_stays(knows, attrs, k + 1);
    }
}

/// Keeps the name of the first directive that a builder has no use for.
pub fn note_unknown(unknown: &mut Option<String>, known: bool, attr: &MetaItem)
    ensures
        match *old(unknown) {
            Some(name) => *final(unknown) == Some(name),
            None => if known {
                *final(unknown) is None
            } else {
                *final(unknown) matches Some(found) && found@ == attr.name_of()
            },
        },
{
    if !known && unknown.is_none() {
        *unknown = Some(String::from_str(attr.name()));
    }
}

} // verus!

//! What holds of every resolution, whatever the directives.

use crate::attr::{
    bool_value, duplicate, duplicate_message, folded, is_word, lemma_all_known,
    lemma_folded_each, lemma_folded_error_stays, lemma_folded_ignored, tag_value, tags_value,
};
use crate::directive::{Lit, MetaItem, NestedMetaItem};
use crate::error::Failure;
use crate::field::{dispatched, FieldView};
use crate::label::Label;
use crate::message;
use crate::oneof;
use crate::scalar;
use crate::scalar::{Ty, TyView};
use crate::text::{decimal, lemma_decimal_round_trip};
use vstd::prelude::*;

verus! {

/// The length and the first character of every name that a directive goes by.
proof fn lemma_names()
    ensures
        "double"@.len() == 6 && "double"@[0] == 'd',
        "float"@.len() == 5 && "float"@[0] == 'f',
        "int32"@.len() == 5 && "int32"@[0] == 'i',
        "int64"@.len() == 5 && "int64"@[0] == 'i',
        "uint32"@.len() == 6 && "uint32"@[0] == 'u',
        "uint64"@.len() == 6 && "uint64"@[0] == 'u',
        "sint32"@.len() == 6 && "sint32"@[0] == 's',
        "sint64"@.len() == 6 && "sint64"@[0] == 's',
        "fixed32"@.len() == 7 && "fixed32"@[0] == 'f',
        "fixed64"@.len() == 7 && "fixed64"@[0] == 'f',
        "sfixed32"@.len() == 8 && "sfixed32"@[0] == 's',
        "sfixed64"@.len() == 8 && "sfixed64"@[0] == 's',
        "bool"@.len() == 4 && "bool"@[0] == 'b',
        "string"@.len() == 6 && "string"@[0] == 's',
        "bytes"@.len() == 5 && "bytes"@[0] == 'b',
        "message"@.len() == 7 && "message"@[0] == 'm',
        "map"@.len() == 3 && "map"@[0] == 'm',
        "oneof"@.len() == 5 && "oneof"@[0] == 'o',
        "enumeration"@.len() == 11 && "enumeration"@[0] == 'e',
        "packed"@.len() == 6 && "packed"@[0] == 'p',
        "tag"@.len() == 3 && "tag"@[0] == 't',
        "tags"@.len() == 4 && "tags"@[0] == 't',
        "default"@.len() == 7 && "default"@[0] == 'd',
        "optional"@.len() == 8 && "optional"@[0] == 'o',
        "required"@.len() == 8 && "required"@[0] == 'r',
        "repeated"@.len() == 8 && "repeated"@[0] == 'r',
{
    reveal_strlit("double");
    reveal_strlit("float");
    reveal_strlit("int32");
    reveal_strlit("int64");
    reveal_strlit("uint32");
    reveal_strlit("uint64");
    reveal_strlit("sint32");
    reveal_strlit("sint64");
    reveal_strlit("fixed32");
    reveal_strlit("fixed64");
    reveal_strlit("sfixed32");
    reveal_strlit("sfixed64");
    reveal_strlit("bool");
    reveal_strlit("string");
    reveal_strlit("bytes");
    reveal_strlit("message");
    reveal_strlit("map");
    reveal_strlit("oneof");
    reveal_strlit("enumeration");
    reveal_strlit("packed");
    reveal_strlit("tag");
    reveal_strlit("tags");
    reveal_strlit("default");
    reveal_strlit("optional");
    reveal_strlit("required");
    reveal_strlit("repeated");
}

/// The name of a basic type is none of the names that select a kind.
proof fn lemma_type_words(word: Seq<char>)
    requires
        TyView::named(word) is Some,
    ensures
        word != "message"@,
        word != "map"@,
        word != "oneof"@,
        word != "enumeration"@,
{
    lemma_names();
}

/// The names of the settings are none of the names that select a kind, and no
/// name of a basic type.
proof fn lemma_setting_words(word: Seq<char>)
    requires
        word == "packed"@ || word == "tag"@ || word == "tags"@ || word == "default"@
            || Label::parsed(word) is Some,
    ensures
        word != "message"@,
        word != "map"@,
        word != "oneof"@,
        word != "enumeration"@,
        TyView::named(word) is None,
{
    lemma_names();
}

/// The names that select a kind differ from each other, and none is the name
/// of a basic type.
proof fn lemma_selector_words()
    ensures
        "message"@ != "map"@,
        "message"@ != "oneof"@,
        "message"@ != "enumeration"@,
        "map"@ != "oneof"@,
        "map"@ != "enumeration"@,
        "oneof"@ != "enumeration"@,
        TyView::named("message"@) is None,
        TyView::named("map"@) is None,
        TyView::named("oneof"@) is None,
{
    lemma_names();
}

/// A directive that the scalar builder has a use for selects no other kind,
/// and is not the `tags` of a field with alternatives.
pub proof fn lemma_scalar_knows(attr: MetaItem)
    requires
        scalar::knows(attr),
    ensures
        !is_word("message"@, attr),
        attr.name_of() != "map"@,
        attr.name_of() != "oneof"@,
        attr.name_of() != "tags"@,
{
    lemma_names();
}

/// A directive that the message builder has a use for selects no other kind,
/// and is not the `tags` of a field with alternatives.
pub proof fn lemma_message_knows(attr: MetaItem)
    requires
        message::knows(attr),
    ensures
        !Ty::selects(attr),
        attr.name_of() != "map"@,
        attr.name_of() != "oneof"@,
        attr.name_of() != "tags"@,
{
    lemma_names();
}

/// A directive that the map builder has a use for selects no other kind, and
/// is not the `tags` of a field with alternatives.
pub proof fn lemma_map_knows(attr: MetaItem)
    requires
        crate::map::knows(attr),
    ensures
        !Ty::selects(attr),
        !is_word("message"@, attr),
        attr.name_of() != "oneof"@,
        attr.name_of() != "tags"@,
{
    lemma_names();
}

/// A directive that the oneof builder has a use for selects no other kind,
/// and no other builder has a use for it.
pub proof fn lemma_oneof_knows(attr: MetaItem)
    requires
        oneof::knows(attr),
    ensures
        !Ty::selects(attr),
        !is_word("message"@, attr),
        attr.name_of() != "map"@,
        !scalar::knows(attr),
        !message::knows(attr),
        !crate::map::knows(attr),
{
    lemma_names();
}

/// Where the scalar builder answers with a field, it has a use for every
/// directive, and no other kind is selected.
pub proof fn lemma_scalar_alone(attrs: Seq<MetaItem>)
    requires
        scalar::resolved(attrs) matches Ok(Some(_)),
    ensures
        scalar::selects(attrs),
        forall|i: int| 0 <= i < attrs.len() ==> scalar::knows(#[trigger] attrs[i]),
        !message::selects(attrs),
        !crate::map::selects(attrs),
        !oneof::selects(attrs),
{
    assert forall|i: int| 0 <= i < attrs.len() implies scalar::knows(#[trigger] attrs[i])
        && !is_word("message"@, attrs[i]) && attrs[i].name_of() != "map"@ && attrs[i].name_of()
        != "oneof"@ by {
        lemma_all_known(|attr: MetaItem| scalar::knows(attr), attrs, i);
        lemma_scalar_knows(attrs[i]);
    }
}

/// Where the message builder answers with a field, it has a use for every
/// directive, and no other kind is selected.
pub proof fn lemma_message_alone(attrs: Seq<MetaItem>)
    requires
        message::resolved(attrs) matches Ok(Some(_)),
    ensures
        message::selects(attrs),
        forall|i: int| 0 <= i < attrs.len() ==> message::knows(#[trigger] attrs[i]),
        !scalar::selects(attrs),
        !crate::map::selects(attrs),
        !oneof::selects(attrs),
{
    assert forall|i: int| 0 <= i < attrs.len() implies message::knows(#[trigger] attrs[i])
        && !Ty::selects(attrs[i]) && attrs[i].name_of() != "map"@ && attrs[i].name_of()
        != "oneof"@ by {
        lemma_all_known(|attr: MetaItem| message::knows(attr), attrs, i);
        lemma_message_knows(attrs[i]);
    }
}

/// Where the map builder answers with a field, it has a use for every
/// directive, and no other kind is selected.
pub proof fn lemma_map_alone(attrs: Seq<MetaItem>)
    requires
        crate::map::resolved(attrs) matches Ok(Some(_)),
    ensures
        crate::map::selects(attrs),
        forall|i: int| 0 <= i < attrs.len() ==> crate::map::knows(#[trigger] attrs[i]),
        !scalar::selects(attrs),
        !message::selects(attrs),
        !oneof::selects(attrs),
{
    assert forall|i: int| 0 <= i < attrs.len() implies crate::map::knows(#[trigger] attrs[i])
        && !Ty::selects(attrs[i]) && !is_word("message"@, attrs[i]) && attrs[i].name_of()
        != "oneof"@ by {
        lemma_all_known(|attr: MetaItem| crate::map::knows(attr), attrs, i);
        lemma_map_knows(attrs[i]);
    }
}

/// Where the oneof builder answers with a field, it has a use for every
/// directive, and no other kind is selected.
pub proof fn lemma_oneof_alone(attrs: Seq<MetaItem>)
    requires
        oneof::resolved(attrs) matches Ok(Some(_)),
    ensures
        oneof::selects(attrs),
        forall|i: int| 0 <= i < attrs.len() ==> oneof::knows(#[trigger] attrs[i]),
        !scalar::selects(attrs),
        !message::selects(attrs),
        !crate::map::selects(attrs),
{
    assert forall|i: int| 0 <= i < attrs.len() implies oneof::knows(#[trigger] attrs[i])
        && !Ty::selects(attrs[i]) && !is_word("message"@, attrs[i]) && attrs[i].name_of()
        != "map"@ by {
        lemma_all_known(|attr: MetaItem| oneof::knows(attr), attrs, i);
        lemma_oneof_knows(attrs[i]);
    }
}

/// The message builder walks without failure over directives that the scalar
/// builder took in and has a use for, and sets the same tag and label.
pub proof fn lemma_scalar_then_message(attrs: Seq<MetaItem>)
    requires
        folded(
            scalar::empty_slots(),
            |slots: scalar::SlotsView, attr: MetaItem| scalar::step(slots, attr),
            attrs,
        ) is Ok,
        forall|i: int| 0 <= i < attrs.len() ==> scalar::knows(#[trigger] attrs[i]),
    ensures
        ({
            let ours = folded(
                scalar::empty_slots(),
                |slots: scalar::SlotsView, attr: MetaItem| scalar::step(slots, attr),
                attrs,
            )->Ok_0;
            let theirs = folded(
                message::empty_slots(),
                |slots: message::Slots, attr: MetaItem| message::step(slots, attr),
                attrs,
            );
            theirs matches Ok(slots) && !slots.message && slots.tag == ours.tag && slots.label
                == ours.label
        }),
    decreases attrs.len(),
{
    if attrs.len() > 0 {
        let before = attrs.drop_last();
        assert forall|i: int| 0 <= i < before.len() implies scalar::knows(#[trigger] before[i]) by {
            assert(before[i] == attrs[i]);
        }
        lemma_scalar_then_message(before);
        assert(scalar::knows(attrs[attrs.len() - 1]));
        lemma_scalar_knows(attrs.last());
        lemma_names();
    }
}

/// The map builder walks without failure over directives that the scalar
/// builder took in and has a use for, and sets the same tag.
pub proof fn lemma_scalar_then_map(attrs: Seq<MetaItem>)
    requires
        folded(
            scalar::empty_slots(),
            |slots: scalar::SlotsView, attr: MetaItem| scalar::step(slots, attr),
            attrs,
        ) is Ok,
        forall|i: int| 0 <= i < attrs.len() ==> scalar::knows(#[trigger] attrs[i]),
    ensures
        ({
            let ours = folded(
                scalar::empty_slots(),
                |slots: scalar::SlotsView, attr: MetaItem| scalar::step(slots, attr),
                attrs,
            )->Ok_0;
            let theirs = folded(
                crate::map::empty_slots(),
                |slots: crate::map::SlotsView, attr: MetaItem| crate::map::step(slots, attr),
                attrs,
            );
            theirs matches Ok(slots) && slots.types is None && slots.tag == ours.tag
        }),
    decreases attrs.len(),
{
    if attrs.len() > 0 {
        let before = attrs.drop_last();
        assert forall|i: int| 0 <= i < before.len() implies scalar::knows(#[trigger] before[i]) by {
            assert(before[i] == attrs[i]);
        }
        lemma_scalar_then_map(before);
        assert(scalar::knows(attrs[attrs.len() - 1]));
        lemma_scalar_knows(attrs.last());
        lemma_names();
    }
}

/// The map builder walks without failure over directives that the message
/// builder took in and has a use for, and sets the same tag.
pub proof fn lemma_message_then_map(attrs: Seq<MetaItem>)
    requires
        folded(
            message::empty_slots(),
            |slots: message::Slots, attr: MetaItem| message::step(slots, attr),
            attrs,
        ) is Ok,
        forall|i: int| 0 <= i < attrs.len() ==> message::knows(#[trigger] attrs[i]),
    ensures
        ({
            let ours = folded(
                message::empty_slots(),
                |slots: message::Slots, attr: MetaItem| message::step(slots, attr),
                attrs,
            )->Ok_0;
            let theirs = folded(
                crate::map::empty_slots(),
                |slots: crate::map::SlotsView, attr: MetaItem| crate::map::step(slots, attr),
                attrs,
            );
            theirs matches Ok(slots) && slots.types is None && slots.tag == ours.tag
        }),
    decreases attrs.len(),
{
    if attrs.len() > 0 {
        let before = attrs.drop_last();
        assert forall|i: int| 0 <= i < before.len() implies message::knows(#[trigger] before[i]) by {
            assert(before[i] == attrs[i]);
        }
        lemma_message_then_map(before);
        assert(message::knows(attrs[attrs.len() - 1]));
        lemma_message_knows(attrs.last());
        lemma_names();
    }
}

/// The scalar builder walks without failure over directives that the message
/// builder took in and has a use for, and sets the same tag and label and no type.
pub proof fn lemma_message_then_scalar(attrs: Seq<MetaItem>)
    requires
        folded(
            message::empty_slots(),
            |slots: message::Slots, attr: MetaItem| message::step(slots, attr),
            attrs,
        ) is Ok,
        forall|i: int| 0 <= i < attrs.len() ==> message::knows(#[trigger] attrs[i]),
    ensures
        ({
            let ours = folded(
                message::empty_slots(),
                |slots: message::Slots, attr: MetaItem| message::step(slots, attr),
                attrs,
            )->Ok_0;
            let theirs = folded(
                scalar::empty_slots(),
                |slots: scalar::SlotsView, attr: MetaItem| scalar::step(slots, attr),
                attrs,
            );
            theirs matches Ok(slots) && slots.ty is None && slots.packed is None && slots.default is None
                && slots.tag == ours.tag && slots.label == ours.label
        }),
    decreases attrs.len(),
{
    if attrs.len() > 0 {
        let before = attrs.drop_last();
        assert forall|i: int| 0 <= i < before.len() implies message::knows(#[trigger] before[i]) by {
            assert(before[i] == attrs[i]);
        }
        lemma_message_then_scalar(before);
        assert(message::knows(attrs[attrs.len() - 1]));
        lemma_message_knows(attrs.last());
        lemma_names();
    }
}

/// The scalar builder walks without failure over directives that the map
/// builder took in and has a use for, and sets the same tag and no type.
pub proof fn lemma_map_then_scalar(attrs: Seq<MetaItem>)
    requires
        folded(
            crate::map::empty_slots(),
            |slots: crate::map::SlotsView, attr: MetaItem| crate::map::step(slots, attr),
            attrs,
        ) is Ok,
        forall|i: int| 0 <= i < attrs.len() ==> crate::map::knows(#[trigger] attrs[i]),
    ensures
        ({
            let ours = folded(
                crate::map::empty_slots(),
                |slots: crate::map::SlotsView, attr: MetaItem| crate::map::step(slots, attr),
                attrs,
            )->Ok_0;
            let theirs = folded(
                scalar::empty_slots(),
                |slots: scalar::SlotsView, attr: MetaItem| scalar::step(slots, attr),
                attrs,
            );
            theirs matches Ok(slots) && slots.ty is None && slots.packed is None && slots.default is None
                && slots.label is None && slots.tag == ours.tag
        }),
    decreases attrs.len(),
{
    if attrs.len() > 0 {
        let before = attrs.drop_last();
        assert forall|i: int| 0 <= i < before.len() implies crate::map::knows(#[trigger] before[i]) by {
            assert(before[i] == attrs[i]);
        }
        lemma_map_then_scalar(before);
        assert(crate::map::knows(attrs[attrs.len() - 1]));
        lemma_map_knows(attrs.last());
        lemma_names();
    }
}

/// The message builder walks without failure over directives that the map
/// builder took in and has a use for, and sets the same tag.
pub proof fn lemma_map_then_message(attrs: Seq<MetaItem>)
    requires
        folded(
            crate::map::empty_slots(),
            |slots: crate::map::SlotsView, attr: MetaItem| crate::map::step(slots, attr),
            attrs,
        ) is Ok,
        forall|i: int| 0 <= i < attrs.len() ==> crate::map::knows(#[trigger] attrs[i]),
    ensures
        ({
            let ours = folded(
                crate::map::empty_slots(),
                |slots: crate::map::SlotsView, attr: MetaItem| crate::map::step(slots, attr),
                attrs,
            )->Ok_0;
            let theirs = folded(
                message::empty_slots(),
                |slots: message::Slots, attr: MetaItem| message::step(slots, attr),
                attrs,
            );
            theirs matches Ok(slots) && !slots.message && slots.label is None && slots.tag == ours.tag
        }),
    decreases attrs.len(),
{
    if attrs.len() > 0 {
        let before = attrs.drop_last();
        assert forall|i: int| 0 <= i < before.len() implies crate::map::knows(#[trigger] before[i]) by {
            assert(before[i] == attrs[i]);
        }
        lemma_map_then_message(before);
        assert(crate::map::knows(attrs[attrs.len() - 1]));
        lemma_map_knows(attrs.last());
        lemma_names();
    }
}

/// The scalar builder declines directives of which it has a use for none.
pub proof fn lemma_scalar_passes(attrs: Seq<MetaItem>)
    requires
        forall|i: int| 0 <= i < attrs.len() ==> !scalar::knows(#[trigger] attrs[i]),
    ensures
        scalar::resolved(attrs) == Ok::<Option<scalar::FieldView>, Failure>(None),
{
    let walk = |slots: scalar::SlotsView, attr: MetaItem| scalar::step(slots, attr);
    assert forall|i: int| 0 <= i < attrs.len() implies walk(
        scalar::empty_slots(),
        #[trigger] attrs[i],
    ) == Ok::<scalar::SlotsView, Failure>(scalar::empty_slots()) by {
        assert(!scalar::knows(attrs[i]));
    }
    lemma_folded_ignored(scalar::empty_slots(), walk, attrs);
}

/// The message builder declines directives of which it has a use for none.
pub proof fn lemma_message_passes(attrs: Seq<MetaItem>)
    requires
        forall|i: int| 0 <= i < attrs.len() ==> !message::knows(#[trigger] attrs[i]),
    ensures
        message::resolved(attrs) == Ok::<Option<message::Field>, Failure>(None),
{
    let walk = |slots: message::Slots, attr: MetaItem| message::step(slots, attr);
    assert forall|i: int| 0 <= i < attrs.len() implies walk(
        message::empty_slots(),
        #[trigger] attrs[i],
    ) == Ok::<message::Slots, Failure>(message::empty_slots()) by {
        assert(!message::knows(attrs[i]));
    }
    lemma_folded_ignored(message::empty_slots(), walk, attrs);
}

/// The map builder declines directives of which it has a use for none.
pub proof fn lemma_map_passes(attrs: Seq<MetaItem>)
    requires
        forall|i: int| 0 <= i < attrs.len() ==> !crate::map::knows(#[trigger] attrs[i]),
    ensures
        crate::map::resolved(attrs) == Ok::<Option<crate::map::FieldView>, Failure>(None),
{
    let walk = |slots: crate::map::SlotsView, attr: MetaItem| crate::map::step(slots, attr);
    assert forall|i: int| 0 <= i < attrs.len() implies walk(
        crate::map::empty_slots(),
        #[trigger] attrs[i],
    ) == Ok::<crate::map::SlotsView, Failure>(crate::map::empty_slots()) by {
        assert(!crate::map::knows(attrs[i]));
    }
    lemma_folded_ignored(crate::map::empty_slots(), walk, attrs);
}

/// The oneof builder walks without failure over directives of which none is
/// named `oneof` or `tags`: it passes over every one of them.
pub proof fn lemma_oneof_passes(attrs: Seq<MetaItem>)
    requires
        forall|i: int|
            0 <= i < attrs.len() ==> (#[trigger] attrs[i]).name_of() != "oneof"@
                && attrs[i].name_of() != "tags"@,
    ensures
        oneof::resolved(attrs) == Ok::<Option<oneof::FieldView>, Failure>(None),
{
    let walk = |slots: oneof::SlotsView, attr: MetaItem| oneof::step(slots, attr);
    assert forall|i: int| 0 <= i < attrs.len() implies walk(
        oneof::empty_slots(),
        #[trigger] attrs[i],
    ) == Ok::<oneof::SlotsView, Failure>(oneof::empty_slots()) by {
        assert(attrs[i].name_of() != "oneof"@);
    }
    lemma_folded_ignored(oneof::empty_slots(), walk, attrs);
}

/// How many of the four kinds the directives select.
pub open spec fn kinds_selected(attrs: Seq<MetaItem>) -> nat {
    let scalar: nat = if scalar::selects(attrs) {
        1
    } else {
        0
    };
    let message: nat = if message::selects(attrs) {
        1
    } else {
        0
    };
    let map: nat = if crate::map::selects(attrs) {
        1
    } else {
        0
    };
    let oneof: nat = if oneof::selects(attrs) {
        1
    } else {
        0
    };
    scalar + message + map + oneof
}

/// Kind exclusivity: where a list of directives resolves, exactly one kind is
/// selected, exactly one builder answers with a field, the one of the field's
/// kind, and the three others decline the list.
pub proof fn lemma_one_kind(attrs: Seq<MetaItem>)
    requires
        dispatched(attrs) is Ok,
    ensures
        kinds_selected(attrs) == 1,
        match dispatched(attrs)->Ok_0 {
            FieldView::Scalar(field) => {
                &&& scalar::resolved(attrs) == Ok::<Option<scalar::FieldView>, Failure>(Some(field))
                &&& message::resolved(attrs) == Ok::<Option<message::Field>, Failure>(None)
                &&& crate::map::resolved(attrs) == Ok::<Option<crate::map::FieldView>, Failure>(
                    None,
                )
                &&& oneof::resolved(attrs) == Ok::<Option<oneof::FieldView>, Failure>(None)
            },
            FieldView::Message(field) => {
                &&& scalar::resolved(attrs) == Ok::<Option<scalar::FieldView>, Failure>(None)
                &&& message::resolved(attrs) == Ok::<Option<message::Field>, Failure>(Some(field))
                &&& crate::map::resolved(attrs) == Ok::<Option<crate::map::FieldView>, Failure>(
                    None,
                )
                &&& oneof::resolved(attrs) == Ok::<Option<oneof::FieldView>, Failure>(None)
            },
            FieldView::Mapping(field) => {
                &&& scalar::resolved(attrs) == Ok::<Option<scalar::FieldView>, Failure>(None)
                &&& message::resolved(attrs) == Ok::<Option<message::Field>, Failure>(None)
                &&& crate::map::resolved(attrs) == Ok::<Option<crate::map::FieldView>, Failure>(
                    Some(field),
                )
                &&& oneof::resolved(attrs) == Ok::<Option<oneof::FieldView>, Failure>(None)
            },
            FieldView::Oneof(field) => {
                &&& scalar::resolved(attrs) == Ok::<Option<scalar::FieldView>, Failure>(None)
                &&& message::resolved(attrs) == Ok::<Option<message::Field>, Failure>(None)
                &&& crate::map::resolved(attrs) == Ok::<Option<crate::map::FieldView>, Failure>(
                    None,
                )
                &&& oneof::resolved(attrs) == Ok::<Option<oneof::FieldView>, Failure>(Some(field))
            },
        },
{
    match dispatched(attrs)->Ok_0 {
        FieldView::Scalar(_) => {
            lemma_scalar_alone(attrs);
            lemma_scalar_then_message(attrs);
            lemma_scalar_then_map(attrs);
            assert forall|i: int| 0 <= i < attrs.len() implies (#[trigger] attrs[i]).name_of()
                != "oneof"@ && attrs[i].name_of() != "tags"@ by {
                lemma_scalar_knows(attrs[i]);
            }
            lemma_oneof_passes(attrs);
        },
        FieldView::Message(_) => {
            lemma_message_alone(attrs);
            lemma_message_then_map(attrs);
            assert forall|i: int| 0 <= i < attrs.len() implies (#[trigger] attrs[i]).name_of()
                != "oneof"@ && attrs[i].name_of() != "tags"@ by {
                lemma_message_knows(attrs[i]);
            }
            lemma_oneof_passes(attrs);
        },
        FieldView::Mapping(_) => {
            lemma_map_alone(attrs);
            assert forall|i: int| 0 <= i < attrs.len() implies (#[trigger] attrs[i]).name_of()
                != "oneof"@ && attrs[i].name_of() != "tags"@ by {
                lemma_map_knows(attrs[i]);
            }
            lemma_oneof_passes(attrs);
        },
        FieldView::Oneof(_) => {
            lemma_oneof_alone(attrs);
        },
    }
}

/// No field is lost to the order of the builders: a list from which one builder
/// makes a field resolves to that field, whichever builders are asked before it.
pub proof fn lemma_kind_is_found(attrs: Seq<MetaItem>)
    ensures
        scalar::resolved(attrs) matches Ok(Some(field)) ==> dispatched(attrs) == Ok::<
            FieldView,
            Failure,
        >(FieldView::Scalar(field)),
        message::resolved(attrs) matches Ok(Some(field)) ==> dispatched(attrs) == Ok::<
            FieldView,
            Failure,
        >(FieldView::Message(field)),
        crate::map::resolved(attrs) matches Ok(Some(field)) ==> dispatched(attrs) == Ok::<
            FieldView,
            Failure,
        >(FieldView::Mapping(field)),
        oneof::resolved(attrs) matches Ok(Some(field)) ==> dispatched(attrs) == Ok::<
            FieldView,
            Failure,
        >(FieldView::Oneof(field)),
{
    if message::resolved(attrs) matches Ok(Some(_)) {
        lemma_message_alone(attrs);
        lemma_message_then_scalar(attrs);
    }
    if crate::map::resolved(attrs) matches Ok(Some(_)) {
        lemma_map_alone(attrs);
        lemma_map_then_scalar(attrs);
        lemma_map_then_message(attrs);
    }
    if oneof::resolved(attrs) matches Ok(Some(_)) {
        lemma_oneof_alone(attrs);
        assert forall|i: int| 0 <= i < attrs.len() implies !scalar::knows(#[trigger] attrs[i])
            && !message::knows(attrs[i]) && !crate::map::knows(attrs[i]) by {
            lemma_oneof_knows(attrs[i]);
        }
        lemma_scalar_passes(attrs);
        lemma_message_passes(attrs);
        lemma_map_passes(attrs);
    }
}

/// Directives that select two kinds or more never resolve: no builder picks
/// one of the kinds in silence. The first builder in the order scalar,
/// message, map, oneof that does not decline the list fails, and its error is
/// the outcome.
pub proof fn lemma_two_kinds_fail(attrs: Seq<MetaItem>)
    requires
        kinds_selected(attrs) >= 2,
    ensures
        dispatched(attrs) is Err,
        scalar::selects(attrs) ==> scalar::resolved(attrs) is Err,
        scalar::resolved(attrs) == Ok::<Option<scalar::FieldView>, Failure>(None)
            && message::selects(attrs) ==> message::resolved(attrs) is Err,
        scalar::resolved(attrs) == Ok::<Option<scalar::FieldView>, Failure>(None)
            && message::resolved(attrs) == Ok::<Option<message::Field>, Failure>(None)
            && crate::map::selects(attrs) ==> crate::map::resolved(attrs) is Err,
{
    if scalar::resolved(attrs) matches Ok(Some(_)) {
        lemma_scalar_alone(attrs);
    }
    if message::resolved(attrs) matches Ok(Some(_)) {
        lemma_message_alone(attrs);
    }
    if crate::map::resolved(attrs) matches Ok(Some(_)) {
        lemma_map_alone(attrs);
    }
    if oneof::resolved(attrs) matches Ok(Some(_)) {
        lemma_oneof_alone(attrs);
    }
}

/// Once a directive has given the tag, the scalar builder's tag slot is taken
/// for the rest of the walk.
pub proof fn lemma_tag_stays(attrs: Seq<MetaItem>, i: int, m: int)
    requires
        0 <= i < m <= attrs.len(),
        tag_value(attrs[i]) matches Ok(Some(_)),
        folded(
            scalar::empty_slots(),
            |slots: scalar::SlotsView, attr: MetaItem| scalar::step(slots, attr),
            attrs.subrange(0, m),
        ) is Ok,
    ensures
        folded(
            scalar::empty_slots(),
            |slots: scalar::SlotsView, attr: MetaItem| scalar::step(slots, attr),
            attrs.subrange(0, m),
        )->Ok_0.tag is Some,
    decreases m,
{
    lemma_names();
    assert(attrs.subrange(0, m).drop_last() =~= attrs.subrange(0, m - 1));
    if m > i + 1 {
        lemma_tag_stays(attrs, i, m - 1);
    }
}

/// Two tags never resolve: a list in which two directives give a tag fails,
/// whether or not it selects a kind. The second tag does not override the first.
pub proof fn lemma_two_tags_fail(attrs: Seq<MetaItem>, i: int, j: int)
    requires
        0 <= i < j < attrs.len(),
        tag_value(attrs[i]) matches Ok(Some(_)),
        tag_value(attrs[j]) matches Ok(Some(_)),
    ensures
        scalar::resolved(attrs) is Err,
        dispatched(attrs) is Err,
{
    let walk = |slots: scalar::SlotsView, attr: MetaItem| scalar::step(slots, attr);
    if folded(scalar::empty_slots(), walk, attrs) is Ok {
        lemma_folded_each(scalar::empty_slots(), walk, attrs, j);
        lemma_tag_stays(attrs, i, j);
        lemma_names();
    }
}

/// The tag slot of the scalar builder after the first tag and before the second.
proof fn lemma_first_tag(attrs: Seq<MetaItem>, i: int, m: int, a: u32)
    requires
        0 <= i < m <= attrs.len(),
        tag_value(attrs[i]) == Ok::<Option<u32>, Failure>(Some(a)),
        forall|k: int| 0 <= k < m && k != i ==> (#[trigger] attrs[k]).name_of() != "tag"@,
        folded(
            scalar::empty_slots(),
            |slots: scalar::SlotsView, attr: MetaItem| scalar::step(slots, attr),
            attrs.subrange(0, m),
        ) is Ok,
    ensures
        folded(
            scalar::empty_slots(),
            |slots: scalar::SlotsView, attr: MetaItem| scalar::step(slots, attr),
            attrs.subrange(0, m),
        )->Ok_0.tag == Some(a),
    decreases m,
{
    lemma_names();
    assert(attrs.subrange(0, m).drop_last() =~= attrs.subrange(0, m - 1));
    if m > i + 1 {
        assert(attrs[m - 1].name_of() != "tag"@);
        lemma_first_tag(attrs, i, m - 1, a);
    }
}

/// Duplicate detection: where the first directive that gives a tag gives `a`
/// and the second gives `b`, the outcome is the error that names both, `a`
/// before `b`, whether or not the list selects a kind and whatever follows.
/// Directives that the scalar builder has no use for do not stand in the way.
/// The one exception is a list in which a directive before the second tag
/// already fails the walk (a malformed setting, or another setting given
/// twice): the first failure in source order is the outcome.
pub proof fn lemma_two_tags_error(attrs: Seq<MetaItem>, i: int, j: int, a: u32, b: u32)
    requires
        0 <= i < j < attrs.len(),
        tag_value(attrs[i]) == Ok::<Option<u32>, Failure>(Some(a)),
        tag_value(attrs[j]) == Ok::<Option<u32>, Failure>(Some(b)),
        forall|k: int| 0 <= k < j && k != i ==> (#[trigger] attrs[k]).name_of() != "tag"@,
        folded(
            scalar::empty_slots(),
            |slots: scalar::SlotsView, attr: MetaItem| scalar::step(slots, attr),
            attrs.subrange(0, j),
        ) is Ok,
    ensures
        dispatched(attrs) == Err::<FieldView, Failure>(
            duplicate(
                duplicate_message(
                    "duplicate tag attributes"@,
                    decimal(a as nat),
                    decimal(b as nat),
                ),
            ),
        ),
{
    let walk = |slots: scalar::SlotsView, attr: MetaItem| scalar::step(slots, attr);
    lemma_first_tag(attrs, i, j, a);
    lemma_names();
    assert(attrs.subrange(0, j + 1).drop_last() =~= attrs.subrange(0, j));
    assert(attrs.subrange(0, j + 1).last() == attrs[j]);
    lemma_folded_error_stays(scalar::empty_slots(), walk, attrs, j + 1);
}

/// The scalar builder's walk up to the second tag, where it has no use for any
/// directive but the first tag: nothing fails, and only the tag is set.
proof fn lemma_walk_to_second_tag(attrs: Seq<MetaItem>, i: int, m: int, a: u32)
    requires
        0 <= i < attrs.len(),
        0 <= m <= attrs.len(),
        tag_value(attrs[i]) == Ok::<Option<u32>, Failure>(Some(a)),
        forall|k: int| 0 <= k < m && k != i ==> !scalar::knows(#[trigger] attrs[k]),
    ensures
        folded(
            scalar::empty_slots(),
            |slots: scalar::SlotsView, attr: MetaItem| scalar::step(slots, attr),
            attrs.subrange(0, m),
        ) == Ok::<scalar::SlotsView, Failure>(
            if m <= i {
                scalar::empty_slots()
            } else {
                scalar::SlotsView { tag: Some(a), ..scalar::empty_slots() }
            },
        ),
    decreases m,
{
    if m > 0 {
        lemma_names();
        assert(attrs.subrange(0, m).drop_last() =~= attrs.subrange(0, m - 1));
        assert(attrs.subrange(0, m).last() == attrs[m - 1]);
        lemma_walk_to_second_tag(attrs, i, m - 1, a);
        if m - 1 != i {
            assert(!scalar::knows(attrs[m - 1]));
        }
    }
}

/// Duplicate detection without a kind: where one directive gives the tag `a`,
/// a later one the tag `b`, and the scalar builder has no use for any other
/// directive before the second tag, the outcome is the error that names both,
/// `a` before `b`. No kind need be selected: `tag(1), tag(2)` alone fails so.
pub proof fn lemma_two_tags_alone(attrs: Seq<MetaItem>, i: int, j: int, a: u32, b: u32)
    requires
        0 <= i < j < attrs.len(),
        tag_value(attrs[i]) == Ok::<Option<u32>, Failure>(Some(a)),
        tag_value(attrs[j]) == Ok::<Option<u32>, Failure>(Some(b)),
        forall|k: int| 0 <= k < j && k != i ==> !scalar::knows(#[trigger] attrs[k]),
    ensures
        dispatched(attrs) == Err::<FieldView, Failure>(
            duplicate(
                duplicate_message(
                    "duplicate tag attributes"@,
                    decimal(a as nat),
                    decimal(b as nat),
                ),
            ),
        ),
{
    lemma_walk_to_second_tag(attrs, i, j, a);
    assert forall|k: int| 0 <= k < j && k != i implies (#[trigger] attrs[k]).name_of()
        != "tag"@ by {
        assert(!scalar::knows(attrs[k]));
    }
    lemma_two_tags_error(attrs, i, j, a, b);
}

/// A reader asked for a name that no directive of the list bears answers "no
/// match" on each of them, which is no failure.
pub proof fn lemma_absent_is_no_match(key: Seq<char>, attrs: Seq<MetaItem>, i: int)
    requires
        0 <= i < attrs.len(),
        forall|k: int| 0 <= k < attrs.len() ==> (#[trigger] attrs[k]).name_of() != key,
    ensures
        !is_word(key, attrs[i]),
        bool_value(key, attrs[i]) == Ok::<Option<bool>, Failure>(None),
        key == "tag"@ ==> tag_value(attrs[i]) == Ok::<Option<u32>, Failure>(None),
        key == "tags"@ ==> tags_value(attrs[i]) == Ok::<Option<Seq<u32>>, Failure>(None),
{
}

/// "No match" is the answer on other names only: on a directive that bears the
/// name a reader gives the value or fails.
pub proof fn lemma_no_match_is_other_name(key: Seq<char>, attr: MetaItem)
    ensures
        bool_value(key, attr) == Ok::<Option<bool>, Failure>(None) <==> attr.name_of() != key,
        tag_value(attr) == Ok::<Option<u32>, Failure>(None) <==> attr.name_of() != "tag"@,
        tags_value(attr) == Ok::<Option<Seq<u32>>, Failure>(None) <==> attr.name_of() != "tags"@,
{
}

/// The two spellings of a tag agree: `tag(n)` with an integer literal and
/// `tag = "n"` with the number in decimal both give `n`.
pub proof fn lemma_tag_forms_agree(list: MetaItem, pair: MetaItem, n: u32)
    requires
        list matches MetaItem::List(name, entries) && name@ == "tag"@ && entries@.len() == 1
            && entries@[0] == NestedMetaItem::Literal(Lit::Int(n as u64)),
        pair matches MetaItem::NameValue(name, Lit::Str(text)) && name@ == "tag"@ && text@
            == decimal(n as nat),
    ensures
        tag_value(list) == Ok::<Option<u32>, Failure>(Some(n)),
        tag_value(pair) == Ok::<Option<u32>, Failure>(Some(n)),
{
    lemma_decimal_round_trip(n);
}

/// A field with alternatives answers for the kinds that do the work elsewhere:
/// its encoded length is the literal zero, its statement for writing does
/// nothing, reading into it is plain success, it has no accessor, and its tags
/// are those of all its alternatives.
pub proof fn lemma_oneof_contract(field: FieldView, binding: Seq<char>)
    requires
        field is Oneof,
    ensures
        field.encoded_len_text(binding) == "0"@,
        field.encode_text(binding) == "( ) ;"@,
        field.merge_text(binding) == "Ok ( ( ) )"@,
        field.methods_text(binding) is None,
        field.tags() == field->Oneof_0.tags,
{
    reveal_strlit("0");
    reveal_strlit("(");
    reveal_strlit(")");
    reveal_strlit(";");
    reveal_strlit("Ok");
    reveal_strlit("( ) ;");
    reveal_strlit("Ok ( ( ) )");
    reveal_with_fuel(crate::tokens::joined, 6);
    assert(field.encoded_len_text(binding) =~= "0"@);
    assert(field.encode_text(binding) =~= "( ) ;"@);
    assert(field.merge_text(binding) =~= "Ok ( ( ) )"@);
}

/// Whether `part` stands somewhere in `text`, its characters side by side.
pub open spec fn holds(text: Seq<char>, part: Seq<char>) -> bool {
    exists|at: int|
        0 <= at && at + part.len() <= text.len() && #[trigger] text.subrange(
            at,
            at + part.len(),
        ) == part
}

/// The message for a setting given twice shows both values: the one that was
/// there and the one that came.
pub proof fn lemma_duplicate_shows_both(
    context: Seq<char>,
    existing: Seq<char>,
    incoming: Seq<char>,
)
    ensures
        holds(duplicate_message(context, existing, incoming), existing),
        holds(duplicate_message(context, existing, incoming), incoming),
{
    let text = duplicate_message(context, existing, incoming);
    let first: int = (context.len() + ": "@.len()) as int;
    let second: int = first + existing.len() + " and "@.len();
    assert(text.subrange(first, first + existing.len()) =~= existing);
    assert(text.subrange(second, second + incoming.len()) =~= incoming);
}

} // verus!

//! The annotation entries of a field as plain values, and their normalisation
//! into the ordered list of directives that the kind builders read.

use crate::error::{quoted, quoted_text, Describe, Error, ErrorKind, Failure};
use crate::text::same_text;
use vstd::prelude::*;

verus! {

/// A literal in an annotation.
#[derive(Clone, Debug, PartialEq, Eq)]
pub enum Lit {
    /// A string literal, by its contents.
    Str(String),
    /// An integer literal, by its value.
    Int(u64),
    /// A boolean literal.
    Bool(bool),
    /// Any other literal (a character, a byte string, a float), by its source text.
    Other(String),
}

/// An entry inside the parentheses of a list annotation.
#[derive(Debug, PartialEq, Eq)]
pub enum NestedMetaItem {
    /// A named entry.
    MetaItem(MetaItem),
    /// A bare literal.
    Literal(Lit),
}

/// A named annotation entry: `name`, `name(..)` or `name = literal`.
#[derive(Debug, PartialEq, Eq)]
pub enum MetaItem {
    Word(String),
    List(String, Vec<NestedMetaItem>),
    NameValue(String, Lit),
}

/// One annotation attached to a field.
#[derive(Debug, PartialEq, Eq)]
pub struct Attribute {
    pub value: MetaItem,
}

/// A literal is shown as it is written: a string between double quotes.
impl Describe for Lit {
    open spec fn description(&self) -> Seq<char> {
        match *self {
            Lit::Str(s) => quoted(s@),
            Lit::Int(n) => n.description(),
            Lit::Bool(b) => b.description(),
            Lit::Other(source) => source@,
        }
    }

    fn describe(&self) -> (text: String) {
        match self {
            Lit::Str(s) => quoted_text(s.as_str()),
            Lit::Int(n) => n.describe(),
            Lit::Bool(b) => b.describe(),
            Lit::Other(source) => source.clone(),
        }
    }
}

impl MetaItem {
    /// The name of the entry, whatever its shape.
    pub open spec fn name_of(self) -> Seq<char> {
        match self {
            MetaItem::Word(name) => name@,
            MetaItem::List(name, _) => name@,
            MetaItem::NameValue(name, _) => name@,
        }
    }

    /// The name of the entry, whatever its shape.
    pub fn name(&self) -> (name: &str)
        ensures
            name@ == self.name_of(),
    {
        match self {
            MetaItem::Word(name) => name.as_str(),
            MetaItem::List(name, _) => name.as_str(),
            MetaItem::NameValue(name, _) => name.as_str(),
        }
    }
}

impl Attribute {
    /// The entries that the annotation contributes: those of a list named `proto`,
    /// none for any other annotation.
    pub open spec fn entries(self) -> Seq<NestedMetaItem> {
        match self.value {
            MetaItem::List(name, items) => if name@ == "proto"@ {
                items@
            } else {
                Seq::empty()
            },
            _ => Seq::empty(),
        }
    }
}

/// The entries of all annotations, in source order.
pub open spec fn all_entries(attrs: Seq<Attribute>) -> Seq<NestedMetaItem>
    decreases attrs.len(),
{
    if attrs.len() == 0 {
        Seq::empty()
    } else {
        all_entries(attrs.drop_last()) + attrs.last().entries()
    }
}

/// The first bare literal among the entries, if there is one.
pub open spec fn first_literal(entries: Seq<NestedMetaItem>) -> Option<Lit>
    decreases entries.len(),
{
    if entries.len() == 0 {
        None
    } else {
        match first_literal(entries.drop_last()) {
            Some(lit) => Some(lit),
            None => match entries.last() {
                NestedMetaItem::Literal(lit) => Some(lit),
                NestedMetaItem::MetaItem(_) => None,
            },
        }
    }
}

/// The named entries, in order.
pub open spec fn named_entries(entries: Seq<NestedMetaItem>) -> Seq<MetaItem>
    decreases entries.len(),
{
    if entries.len() == 0 {
        Seq::empty()
    } else {
        match entries.last() {
            NestedMetaItem::MetaItem(item) => named_entries(entries.drop_last()).push(item),
            NestedMetaItem::Literal(_) => named_entries(entries.drop_last()),
        }
    }
}

/// The message for a bare literal in the directive list.
pub open spec fn literal_message(lit: Lit) -> Seq<char> {
    "invalid proto attribute: "@ + lit.description()
}

/// The directives of a field: the entries of its `proto` lists in source order,
/// every one of them named. The first bare literal among them is an error.
pub open spec fn extracted(attrs: Seq<Attribute>) -> Result<Seq<MetaItem>, Failure> {
    let entries = all_entries(attrs);
    match first_literal(entries) {
        Some(lit) => Err(
            Failure { kind: ErrorKind::UnexpectedLiteral, message: literal_message(lit) },
        ),
        None => Ok(named_entries(entries)),
    }
}

/// The entries of a list of annotations are those of a prefix, then those of the rest.
pub proof fn lemma_entries_split(attrs: Seq<Attribute>, k: int)
    requires
        0 <= k <= attrs.len(),
    ensures
        all_entries(attrs) == all_entries(attrs.subrange(0, k)) + all_entries(
            attrs.subrange(k, attrs.len() as int),
        ),
    decreases attrs.len(),
{
    let rest = attrs.subrange(k, attrs.len() as int);
    if k == attrs.len() {
        assert(attrs.subrange(0, k) =~= attrs);
        assert(all_entries(attrs) =~= all_entries(attrs) + all_entries(rest));
    } else {
        lemma_entries_split(attrs.drop_last(), k);
        assert(attrs.drop_last().subrange(0, k) =~= attrs.subrange(0, k));
        assert(attrs.drop_last().subrange(k, attrs.len() - 1) =~= rest.drop_last());
        assert(rest.last() == attrs.last());
        assert(all_entries(attrs) =~= all_entries(attrs.subrange(0, k)) + all_entries(rest));
    }
}

/// A literal found among the first entries is the one found among all of them.
pub proof fn lemma_first_literal_stays(head: Seq<NestedMetaItem>, tail: Seq<NestedMetaItem>)
    requires
        first_literal(head) is Some,
    ensures
        first_literal(head + tail) == first_literal(head),
    decreases tail.len(),
{
    if tail.len() == 0 {
        assert(head + tail =~= head);
    } else {
        lemma_first_literal_stays(head, tail.drop_last());
        assert((head + tail).drop_last() =~= head + tail.drop_last());
    }
}

/// Normalises the annotations of a field into its list of directives.
///
/// Annotations other than `proto(..)` lists are passed over. The entries of the
/// `proto` lists are handed out in source order; a bare literal among them fails
/// the field, and the message shows the first such literal.
pub fn directives(attrs: Vec<Attribute>) -> (outcome: Result<Vec<MetaItem>, Error>)
    ensures
        match outcome {
            Ok(items) => extracted(attrs@) == Ok::<Seq<MetaItem>, Failure>(items@),
            Err(error) => extracted(attrs@) == Err::<Seq<MetaItem>, Failure>(error@),
        },
{
    let ghost all = attrs@;
    let ghost mut done: int = 0;
    let mut items: Vec<MetaItem> = Vec::new();
    for attr in walk: attrs
        invariant
            done == walk.index(),
            walk.seq() == all,
            all == attrs@,
            first_literal(all_entries(all.subrange(0, done))) is None,
            items@ == named_entries(all_entries(all.subrange(0, done))),
    {
        let ghost before = all_entries(all.subrange(0, done));
        proof {
            assert(all.subrange(0, done + 1).drop_last() =~= all.subrange(0, done));
            assert(before + attr.entries() == all_entries(all.subrange(0, done + 1)));
            assert(before + attr.entries().subrange(0, 0) =~= before);
        }
        match attr.value {
            MetaItem::List(name, nested) => {
                if same_text(name.as_str(), "proto") {
                    let ghost inner = nested@;
                    let ghost mut seen: int = 0;
                    for entry in inner_walk: nested
                        invariant
                            seen == inner_walk.index(),
                            inner_walk.seq() == inner,
                            all == attrs@,
                            0 <= done < all.len(),
                            before + inner == all_entries(all.subrange(0, done + 1)),
                            first_literal(before + inner.subrange(0, seen)) is None,
                            items@ == named_entries(before + inner.subrange(0, seen)),
                    {
                        proof {
                            assert((before + inner.subrange(0, seen + 1)).drop_last() =~= before
                                + inner.subrange(0, seen));
                        }
                        match entry {
                            NestedMetaItem::MetaItem(item) => {
                                items.push(item);
                            },
                            NestedMetaItem::Literal(lit) => {
                                proof {
                                    let upto = before + inner.subrange(0, seen + 1);
                                    assert(first_literal(upto) == Some(lit));
                                    lemma_first_literal_stays(
                                        upto,
                                        inner.subrange(seen + 1, inner.len() as int),
                                    );
                                    assert(upto + inner.subrange(seen + 1, inner.len() as int)
                                        =~= before + inner);
                                    lemma_entries_split(all, done + 1);
                                    lemma_first_literal_stays(
                                        before + inner,
                                        all_entries(all.subrange(done + 1, all.len() as int)),
                                    );
                                }
                                let mut message: String = String::from_str(
                                    "invalid proto attribute: ",
                                );
                                let shown: String = lit.describe();
                                message.append(shown.as_str());
                                return Err(Error::new(ErrorKind::UnexpectedLiteral, message));
                            },
                        }
                        proof {
                            seen = seen + 1;
                        }
                    }
                    proof {
                        assert(inner.subrange(0, seen) =~= inner);
                    }
                }
            },
            _ => {},
        }
        proof {
            done = done + 1;
        }
    }
    proof {
        assert(all.subrange(0, done) =~= all);
    }
    Ok(items)
}

} // verus!

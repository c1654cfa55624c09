//! The cardinality marker of a field.

use crate::directive::MetaItem;
use crate::error::Describe;
use crate::text::same_text;
use vstd::prelude::*;

verus! {

/// How often a field occurs in its message.
#[derive(Clone, Copy, PartialEq, Eq, Structural)]
pub enum Label {
    /// An optional field.
    Optional,
    /// A required field.
    Required,
    /// A repeated field.
    Repeated,
}

impl Label {
    /// The canonical word of the label: the variant's name in lower case.
    pub open spec fn word(self) -> Seq<char> {
        match self {
            Label::Optional => "optional"@,
            Label::Required => "required"@,
            Label::Repeated => "repeated"@,
        }
    }

    /// The label that `word` names, matched exactly and with regard to case.
    pub open spec fn parsed(word: Seq<char>) -> Option<Label> {
        if word == Label::Optional.word() {
            Some(Label::Optional)
        } else if word == Label::Required.word() {
            Some(Label::Required)
        } else if word == Label::Repeated.word() {
            Some(Label::Repeated)
        } else {
            None
        }
    }

    /// The label that a directive gives: that of a bare word which names one.
    pub open spec fn of(attr: MetaItem) -> Option<Label> {
        match attr {
            MetaItem::Word(word) => Label::parsed(word@),
            _ => None,
        }
    }

    pub fn as_str(&self) -> (word: &'static str)
        ensures
            word@ == self.word(),
    {
        match self {
            Label::Optional => "optional",
            Label::Required => "required",
            Label::Repeated => "repeated",
        }
    }

    /// All labels, in the order of their declaration.
    pub fn variants() -> (all: Vec<Label>)
        ensures
            all@ == seq![Label::Optional, Label::Required, Label::Repeated],
    {
        let mut all: Vec<Label> = Vec::new();
        all.push(Label::Optional);
        all.push(Label::Required);
        all.push(Label::Repeated);
        assert(all@ =~= seq![Label::Optional, Label::Required, Label::Repeated]);
        all
    }

    /// Reads a word as a label. A word that names none gives `None`, which is no error.
    pub fn parse(word: &str) -> (label: Option<Label>)
        ensures
            label == Label::parsed(word@),
    {
        let all: Vec<Label> = Label::variants();
        let mut i: usize = 0;
        while i < all.len()
            invariant
                i <= all.len(),
                all@ == seq![Label::Optional, Label::Required, Label::Repeated],
                forall|k: int| 0 <= k < i ==> (#[trigger] all@[k]).word() != word@,
            decreases all.len() - i,
        {
            let label: Label = all[i];
            if same_text(word, label.as_str()) {
                proof {
                    lemma_words_differ();
                }
                return Some(label);
            }
            i += 1;
        }
        assert(all@[0].word() != word@ && all@[1].word() != word@ && all@[2].word() != word@);
        None
    }

    /// Reads a directive as a label: a bare word that names one.
    pub fn from_attr(attr: &MetaItem) -> (label: Option<Label>)
        ensures
            label == Label::of(*attr),
    {
        match attr {
            MetaItem::Word(word) => Label::parse(word.as_str()),
            _ => None,
        }
    }

    /// The canonical word, for people.
    pub fn to_string(&self) -> (text: String)
        ensures
            text@ == self.word(),
    {
        String::from_str(self.as_str())
    }

    /// The canonical word, for diagnostics: the same text as `to_string`.
    pub fn debug(&self) -> (text: String)
        ensures
            text@ == self.word(),
    {
        String::from_str(self.as_str())
    }
}

impl Describe for Label {
    open spec fn description(&self) -> Seq<char> {
        self.word()
    }

    fn describe(&self) -> (text: String) {
        String::from_str(self.as_str())
    }
}

/// No two labels share a word.
pub proof fn lemma_words_differ()
    ensures
        Label::Optional.word() != Label::Required.word(),
        Label::Optional.word() != Label::Repeated.word(),
        Label::Required.word() != Label::Repeated.word(),
{
    reveal_strlit("optional");
    reveal_strlit("required");
    reveal_strlit("repeated");
    assert("optional"@[0] != "required"@[0]);
    assert("optional"@[0] != "repeated"@[0]);
    assert("required"@[2] != "repeated"@[2]);
}

/// Reading the word of a label gives the label back.
pub proof fn lemma_label_round_trip(label: Label)
    ensures
        Label::parsed(label.word()) == Some(label),
{
    lemma_words_differ();
}

} // verus!

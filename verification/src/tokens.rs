//! Code fragments as `quote::Tokens`.
//!
//! `quote` keeps the tokens of a fragment as text and puts one blank between
//! two tokens. This module states that layout, and builds fragments token by
//! token on top of it.

use crate::text::decimal;
use vstd::prelude::*;

verus! {

/// `quote::Tokens`, carried through as an opaque value.
#[verifier::external_type_specification]
#[verifier::external_body]
pub struct ExTokens(quote::Tokens);

/// The text that a `quote::Tokens` holds: what its `as_str` hands out.
pub uninterp spec fn tokens_text(tokens: quote::Tokens) -> Seq<char>;

/// The text after one more token: a blank goes between the text so far and the
/// token, unless one of the two is empty.
pub open spec fn appended(text: Seq<char>, token: Seq<char>) -> Seq<char> {
    if text.len() > 0 && token.len() > 0 {
        text + seq![' '] + token
    } else {
        text + token
    }
}

/// The text of a sequence of tokens appended one after the other.
pub open spec fn joined(tokens: Seq<Seq<char>>) -> Seq<char>
    decreases tokens.len(),
{
    if tokens.len() == 0 {
        Seq::empty()
    } else {
        appended(joined(tokens.drop_last()), tokens.last())
    }
}

/// The token of an unsigned 32-bit literal: the number in decimal with the suffix `u32`.
pub open spec fn literal_u32(value: u32) -> Seq<char> {
    decimal(value as nat) + "u32"@
}

/// `quote::Tokens::new`: the tokens hold no text.
#[verifier::external_body]
fn new_tokens() -> (tokens: quote::Tokens)
    ensures
        tokens_text(tokens) == Seq::<char>::empty(),
{
    quote::Tokens::new()
}

/// `quote::Tokens::append`: the token's text is added at the end, after one
/// blank if there was text before and the token is not empty.
#[verifier::external_body]
fn append(tokens: &mut quote::Tokens, token: &str)
    ensures
        tokens_text(*final(tokens)) == appended(tokens_text(*old(tokens)), token@),
{
    tokens.append(token);
}

/// `quote::ToTokens::to_tokens` of a `u32`: appends the number in decimal,
/// followed at once by `u32`, as one token.
#[verifier::external_body]
fn append_u32(tokens: &mut quote::Tokens, value: u32)
    ensures
        tokens_text(*final(tokens)) == appended(tokens_text(*old(tokens)), literal_u32(value)),
{
    quote::ToTokens::to_tokens(&value, tokens);
}

/// A fragment under construction: the tokens, and the list of what went in.
pub struct Fragment {
    tokens: quote::Tokens,
    parts: Ghost<Seq<Seq<char>>>,
}

impl Fragment {
    /// The tokens that went in so far.
    pub closed spec fn parts(self) -> Seq<Seq<char>> {
        self.parts@
    }

    /// The tokens hold the text of what went in.
    pub closed spec fn wf(self) -> bool {
        tokens_text(self.tokens) == joined(self.parts@)
    }

    pub fn new() -> (fragment: Fragment)
        ensures
            fragment.wf(),
            fragment.parts() == Seq::<Seq<char>>::empty(),
    {
        Fragment { tokens: new_tokens(), parts: Ghost(Seq::empty()) }
    }

    /// Adds one token.
    pub fn push(&mut self, token: &str)
        requires
            old(self).wf(),
        ensures
            final(self).wf(),
            final(self).parts() == old(self).parts().push(token@),
    {
        append(&mut self.tokens, token);
        proof {
            let ghost before = self.parts@;
            self.parts@ = before.push(token@);
            assert(before.push(token@).drop_last() =~= before);
        }
    }

    /// Adds an unsigned 32-bit literal as one token.
    pub fn push_u32(&mut self, value: u32)
        requires
            old(self).wf(),
        ensures
            final(self).wf(),
            final(self).parts() == old(self).parts().push(literal_u32(value)),
    {
        append_u32(&mut self.tokens, value);
        proof {
            let ghost before = self.parts@;
            self.parts@ = before.push(literal_u32(value));
            assert(before.push(literal_u32(value)).drop_last() =~= before);
        }
    }

    /// Hands out the tokens.
    pub fn finish(self) -> (tokens: quote::Tokens)
        requires
            self.wf(),
        ensures
            tokens_text(tokens) == joined(self.parts()),
    {
        self.tokens
    }
}

/// The tokens of the path of a function of the wire encoding: `_proto::encoding::`,
/// then the module and the function.
pub open spec fn path_parts(module: Seq<char>, function: Seq<char>) -> Seq<Seq<char>> {
    seq!["_proto"@, "::"@, "encoding"@, "::"@, module, "::"@, function]
}

/// The tokens of the statement that writes a field: a call with the tag, a
/// reference to the field's value and the buffer.
pub open spec fn encode_parts(
    module: Seq<char>,
    function: Seq<char>,
    tag: u32,
    binding: Seq<char>,
) -> Seq<Seq<char>> {
    path_parts(module, function) + seq![
        "("@,
        literal_u32(tag),
        ","@,
        "&"@,
        binding,
        ","@,
        "buf"@,
        ")"@,
        ";"@,
    ]
}

/// The tokens of the expression that reads one occurrence into a field: a call
/// with the wire type, a mutable reference to the field's value and the buffer.
pub open spec fn merge_parts(module: Seq<char>, function: Seq<char>, binding: Seq<char>) -> Seq<
    Seq<char>,
> {
    path_parts(module, function) + seq![
        "("@,
        "wire_type"@,
        ","@,
        "&"@,
        "mut"@,
        binding,
        ","@,
        "buf"@,
        ")"@,
    ]
}

/// The tokens of the expression for a field's encoded length: a call with the
/// tag and a reference to the field's value.
pub open spec fn encoded_len_parts(
    module: Seq<char>,
    function: Seq<char>,
    tag: u32,
    binding: Seq<char>,
) -> Seq<Seq<char>> {
    path_parts(module, function) + seq!["("@, literal_u32(tag), ","@, "&"@, binding, ")"@]
}

/// The tokens of the ambient default value: `::std::default::Default::default()`.
pub open spec fn ambient_default_parts() -> Seq<Seq<char>> {
    seq![
        "::"@,
        "std"@,
        "::"@,
        "default"@,
        "::"@,
        "Default"@,
        "::"@,
        "default"@,
        "("@,
        ")"@,
    ]
}

impl Fragment {
    /// Adds the path of a function of the wire encoding.
    pub fn push_path(&mut self, module: &str, function: &str)
        requires
            old(self).wf(),
        ensures
            final(self).wf(),
            final(self).parts() == old(self).parts() + path_parts(module@, function@),
    {
        self.push("_proto");
        self.push("::");
        self.push("encoding");
        self.push("::");
        self.push(module);
        self.push("::");
        self.push(function);
        assert(self.parts() =~= old(self).parts() + path_parts(module@, function@));
    }
}

/// The statement that writes a field.
pub fn encode_call(module: &str, function: &str, tag: u32, binding: &str) -> (tokens:
    quote::Tokens)
    ensures
        tokens_text(tokens) == joined(encode_parts(module@, function@, tag, binding@)),
{
    let mut fragment: Fragment = Fragment::new();
    fragment.push_path(module, function);
    fragment.push("(");
    fragment.push_u32(tag);
    fragment.push(",");
    fragment.push("&");
    fragment.push(binding);
    fragment.push(",");
    fragment.push("buf");
    fragment.push(")");
    fragment.push(";");
    assert(fragment.parts() =~= encode_parts(module@, function@, tag, binding@));
    fragment.finish()
}

/// The expression that reads one occurrence into a field.
pub fn merge_call(module: &str, function: &str, binding: &str) -> (tokens: quote::Tokens)
    ensures
        tokens_text(tokens) == joined(merge_parts(module@, function@, binding@)),
{
    let mut fragment: Fragment = Fragment::new();
    fragment.push_path(module, function);
    fragment.push("(");
    fragment.push("wire_type");
    fragment.push(",");
    fragment.push("&");
    fragment.push("mut");
    fragment.push(binding);
    fragment.push(",");
    fragment.push("buf");
    fragment.push(")");
    assert(fragment.parts() =~= merge_parts(module@, function@, binding@));
    fragment.finish()
}

/// The expression for a field's encoded length.
pub fn encoded_len_call(module: &str, function: &str, tag: u32, binding: &str) -> (tokens:
    quote::Tokens)
    ensures
        tokens_text(tokens) == joined(encoded_len_parts(module@, function@, tag, binding@)),
{
    let mut fragment: Fragment = Fragment::new();
    fragment.push_path(module, function);
    fragment.push("(");
    fragment.push_u32(tag);
    fragment.push(",");
    fragment.push("&");
    fragment.push(binding);
    fragment.push(")");
    assert(fragment.parts() =~= encoded_len_parts(module@, function@, tag, binding@));
    fragment.finish()
}

/// The expression for the ambient default value.
pub fn ambient_default() -> (tokens: quote::Tokens)
    ensures
        tokens_text(tokens) == joined(ambient_default_parts()),
{
    let mut fragment: Fragment = Fragment::new();
    fragment.push("::");
    fragment.push("std");
    fragment.push("::");
    fragment.push("default");
    fragment.push("::");
    fragment.push("Default");
    fragment.push("::");
    fragment.push("default");
    fragment.push("(");
    fragment.push(")");
    assert(fragment.parts() =~= ambient_default_parts());
    fragment.finish()
}

} // verus!

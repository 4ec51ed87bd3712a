//! A lossless syntax tree, held as plain values.
//!
//! A node has a kind and a fixed row of slots, one for each child that the
//! grammar gives it; a slot is empty where an optional child is absent. A
//! token carries its text together with the trivia (whitespace and comments)
//! attached to it, so that the token texts, read in document order, give back
//! the source.

use vstd::prelude::*;
use biome_js_syntax::JsSyntaxKind;
use crate::error::TransformError;

verus! {

/// The kinds of nodes and tokens, as `biome_js_syntax` defines them. The
/// declaration lets the verifier read the enum's variants.
#[verifier::external_type_specification]
pub struct ExJsSyntaxKind(JsSyntaxKind);

/// Identifies a token within one tree: its place among the tokens of the
/// tree, in document order.
pub type TokenKey = usize;

/// A token with the trivia attached to it.
#[derive(Debug)]
pub struct Token {
    pub kind: JsSyntaxKind,
    pub key: TokenKey,
    /// Whitespace and comments before the token.
    pub leading: String,
    /// The token itself.
    pub text: String,
    /// Whitespace and comments after the token.
    pub trailing: String,
}

/// A node or a token.
#[derive(Debug)]
pub enum Syntax {
    Token(Token),
    Node(Node),
}

/// A node: its kind and its slots.
#[derive(Debug)]
pub struct Node {
    pub kind: JsSyntaxKind,
    pub slots: Vec<Option<Syntax>>,
}

impl Token {
    /// The token's text with its trivia.
    pub open spec fn full_text(self) -> Seq<char> {
        self.leading@ + self.text@ + self.trailing@
    }
}

/// The tokens below the given slots, in document order.
pub open spec fn slots_tokens(slots: Seq<Option<Syntax>>) -> Seq<Token>
    decreases slots,
{
    if slots.len() == 0 {
        Seq::empty()
    } else {
        slots_tokens(slots.drop_last()) + match slots.last() {
            Some(element) => tokens_of(element),
            None => Seq::empty(),
        }
    }
}

/// The tokens of an element, in document order.
pub open spec fn tokens_of(element: Syntax) -> Seq<Token>
    decreases element,
{
    match element {
        Syntax::Token(token) => seq![token],
        Syntax::Node(node) => slots_tokens(node.slots@),
    }
}

/// The texts of the given tokens, trivia included, one after the other.
pub open spec fn full_text(tokens: Seq<Token>) -> Seq<char>
    decreases tokens.len(),
{
    if tokens.len() == 0 {
        Seq::empty()
    } else {
        full_text(tokens.drop_last()) + tokens.last().full_text()
    }
}

/// The trivia before the first of the given tokens.
pub open spec fn leading_trivia(tokens: Seq<Token>) -> Seq<char> {
    if tokens.len() == 0 {
        Seq::empty()
    } else {
        tokens[0].leading@
    }
}

/// The trivia after the last of the given tokens.
pub open spec fn trailing_trivia(tokens: Seq<Token>) -> Seq<char> {
    if tokens.len() == 0 {
        Seq::empty()
    } else {
        tokens.last().trailing@
    }
}

/// The text of the given tokens without the trivia before the first of them.
pub open spec fn text_after_leading(tokens: Seq<Token>) -> Seq<char> {
    if tokens.len() == 0 {
        Seq::empty()
    } else {
        tokens[0].text@ + tokens[0].trailing@ + full_text(tokens.drop_first())
    }
}

/// The text of the given tokens without the trivia before the first and after
/// the last of them.
pub open spec fn trimmed_text(tokens: Seq<Token>) -> Seq<char> {
    if tokens.len() == 0 {
        Seq::empty()
    } else if tokens.len() == 1 {
        tokens[0].text@
    } else {
        tokens[0].text@ + tokens[0].trailing@ + full_text(tokens.subrange(1, tokens.len() - 1))
            + tokens.last().leading@ + tokens.last().text@
    }
}

impl Node {
    /// The tokens of the node, in document order.
    pub open spec fn tokens(self) -> Seq<Token> {
        slots_tokens(self.slots@)
    }

    /// The source text that the node covers.
    pub open spec fn text(self) -> Seq<char> {
        full_text(self.tokens())
    }

    /// What the slot `index` holds; nothing if the node has no such slot.
    pub open spec fn slot(self, index: int) -> Option<Syntax> {
        if 0 <= index < self.slots.len() {
            self.slots[index]
        } else {
            None
        }
    }

    /// The token in the slot `index`, if the slot holds one.
    pub open spec fn token_at(self, index: int) -> Option<Token> {
        match self.slot(index) {
            Some(Syntax::Token(token)) => Some(token),
            _ => None,
        }
    }

    /// The node in the slot `index`, if the slot holds one.
    pub open spec fn node_at(self, index: int) -> Option<Node> {
        match self.slot(index) {
            Some(Syntax::Node(node)) => Some(node),
            _ => None,
        }
    }

    /// The token in the slot `index`, which the grammar requires.
    pub open spec fn required_token(self, index: int) -> Result<Token, TransformError> {
        match self.token_at(index) {
            Some(token) => Ok(token),
            None => Err(TransformError::Malformed),
        }
    }

    /// The node in the slot `index`, which the grammar requires.
    pub open spec fn required_node(self, index: int) -> Result<Node, TransformError> {
        match self.node_at(index) {
            Some(node) => Ok(node),
            None => Err(TransformError::Malformed),
        }
    }

    /// Gives the token in the slot `index`, if the slot holds one.
    pub fn token_in(&self, index: usize) -> (found: Option<&Token>)
        ensures
            match found {
                Some(token) => self.token_at(index as int) == Some(*token),
                None => self.token_at(index as int) is None,
            },
    {
        if index < self.slots.len() {
            match &self.slots[index] {
                Some(Syntax::Token(token)) => Some(token),
                _ => None,
            }
        } else {
            None
        }
    }

    /// Gives the node in the slot `index`, if the slot holds one.
    pub fn node_in(&self, index: usize) -> (found: Option<&Node>)
        ensures
            match found {
                Some(node) => self.node_at(index as int) == Some(*node),
                None => self.node_at(index as int) is None,
            },
    {
        if index < self.slots.len() {
            match &self.slots[index] {
                Some(Syntax::Node(node)) => Some(node),
                _ => None,
            }
        } else {
            None
        }
    }

    /// Gives the token in the slot `index`, or fails if the slot holds none.
    pub fn token_required(&self, index: usize) -> (found: Result<&Token, TransformError>)
        ensures
            match found {
                Ok(token) => self.required_token(index as int) == Ok::<Token, TransformError>(
                    *token,
                ),
                Err(error) => self.required_token(index as int) == Err::<Token, TransformError>(
                    error,
                ),
            },
    {
        match self.token_in(index) {
            Some(token) => Ok(token),
            None => Err(TransformError::Malformed),
        }
    }

    /// Gives the node in the slot `index`, or fails if the slot holds none.
    pub fn node_required(&self, index: usize) -> (found: Result<&Node, TransformError>)
        ensures
            match found {
                Ok(node) => self.required_node(index as int) == Ok::<Node, TransformError>(*node),
                Err(error) => self.required_node(index as int) == Err::<Node, TransformError>(
                    error,
                ),
            },
    {
        match self.node_in(index) {
            Some(node) => Ok(node),
            None => Err(TransformError::Malformed),
        }
    }

    /// Gives the tokens of the node, in document order.
    pub fn token_list(&self) -> (list: Vec<&Token>)
        ensures
            referents(list@) == self.tokens(),
    {
        let mut list: Vec<&Token> = Vec::new();
        collect_slot_tokens(self, &mut list);
        assert(referents(Seq::<&Token>::empty()) + self.tokens() == self.tokens());
        list
    }
}

/// The text of a row of tokens is the text of its two parts.
pub proof fn lemma_full_text_concat(a: Seq<Token>, b: Seq<Token>)
    ensures
        full_text(a + b) == full_text(a) + full_text(b),
    decreases b.len(),
{
    if b.len() == 0 {
        assert(a + b == a);
    } else {
        lemma_full_text_concat(a, b.drop_last());
        assert((a + b).drop_last() == a + b.drop_last());
        assert((a + b).last() == b.last());
    }
}

/// The text of a single token is the token's text with its trivia.
pub proof fn lemma_full_text_single(token: Token)
    ensures
        full_text(seq![token]) == token.full_text(),
{
    reveal_with_fuel(full_text, 2);
    assert(seq![token].drop_last() == Seq::<Token>::empty());
    assert(Seq::<char>::empty() + token.full_text() == token.full_text());
}

/// A child is smaller than the node that holds it.
pub proof fn lemma_child_decreases(parent: Node, index: int, child: Node)
    requires
        parent.node_at(index) == Some(child),
    ensures
        decreases_to!(parent => child),
{
    let slot = parent.slots@[index];
    assert(decreases_to!(parent.slots@ => slot));
    let element = slot->0;
    assert(decreases_to!(slot => element));
    assert(element->Node_0 == child);
    assert(decreases_to!(element => element->Node_0));
}

/// The tokens that the given references point to.
pub open spec fn referents(tokens: Seq<&Token>) -> Seq<Token> {
    Seq::new(tokens.len(), |i: int| *tokens[i])
}

/// Appends the tokens of `node` to `list`, in document order.
pub fn collect_slot_tokens<'a>(node: &'a Node, list: &mut Vec<&'a Token>)
    ensures
        referents(final(list)@) == referents(old(list)@) + node.tokens(),
    decreases node,
{
    let mut index: usize = 0;
    while index < node.slots.len()
        invariant
            index <= node.slots.len(),
            referents(list@) == referents(old(list)@) + slots_tokens(
                node.slots@.take(index as int),
            ),
        decreases node.slots.len() - index,
    {
        proof {
            assert(node.slots@.take(index + 1).drop_last() == node.slots@.take(index as int));
        }
        match &node.slots[index] {
            Some(element) => {
                proof {
                    assert(decreases_to!(node.slots@ => node.slots@[index as int]));
                }
                collect_tokens(element, list);
            },
            None => {},
        }
        index = index + 1;
    }
    proof {
        assert(node.slots@.take(node.slots.len() as int) == node.slots@);
    }
}

/// Appends the tokens of `element` to `list`, in document order.
pub fn collect_tokens<'a>(element: &'a Syntax, list: &mut Vec<&'a Token>)
    ensures
        referents(final(list)@) == referents(old(list)@) + tokens_of(*element),
    decreases element,
{
    match element {
        Syntax::Token(token) => {
            list.push(token);
        },
        Syntax::Node(node) => {
            proof {
                assert(element->Node_0 == *node);
                assert(decreases_to!(*element => element->Node_0));
            }
            collect_slot_tokens(node, list);
        },
    }
}

/// Appends to `buf` the text of the tokens `list[from..to]`, trivia included.
pub fn push_full_text(buf: &mut String, list: &Vec<&Token>, from: usize, to: usize)
    requires
        from <= to <= list.len(),
    ensures
        final(buf)@ == old(buf)@ + full_text(referents(list@).subrange(from as int, to as int)),
{
    let ghost tokens = referents(list@);
    let mut index: usize = from;
    while index < to
        invariant
            from <= index <= to <= list.len(),
            tokens == referents(list@),
            buf@ == old(buf)@ + full_text(tokens.subrange(from as int, index as int)),
        decreases to - index,
    {
        proof {
            let next = tokens.subrange(from as int, index + 1);
            assert(next.drop_last() == tokens.subrange(from as int, index as int));
            assert(next.last() == *list@[index as int]);
        }
        let token = list[index];
        buf.push_str(token.leading.as_str());
        buf.push_str(token.text.as_str());
        buf.push_str(token.trailing.as_str());
        index = index + 1;
    }
}

/// The text of the given tokens, trivia included.
pub fn text_of(list: &Vec<&Token>) -> (text: String)
    ensures
        text@ == full_text(referents(list@)),
{
    let mut text = String::new();
    push_full_text(&mut text, list, 0, list.len());
    proof {
        let tokens = referents(list@);
        assert(tokens.subrange(0, list.len() as int) == tokens);
    }
    text
}

/// The text of the given tokens without the trivia before the first of them.
pub fn text_after_leading_of(list: &Vec<&Token>) -> (text: String)
    ensures
        text@ == text_after_leading(referents(list@)),
{
    let mut text = String::new();
    if list.len() > 0 {
        let first = list[0];
        text.push_str(first.text.as_str());
        text.push_str(first.trailing.as_str());
        push_full_text(&mut text, list, 1, list.len());
        proof {
            let tokens = referents(list@);
            assert(tokens.subrange(1, list.len() as int) == tokens.drop_first());
        }
    }
    text
}

/// The text of the given tokens without the trivia before the first and after
/// the last of them.
pub fn trimmed_text_of(list: &Vec<&Token>) -> (text: String)
    ensures
        text@ == trimmed_text(referents(list@)),
{
    let mut text = String::new();
    if list.len() == 1 {
        text.push_str(list[0].text.as_str());
    } else if list.len() > 1 {
        let first = list[0];
        let last = list[list.len() - 1];
        text.push_str(first.text.as_str());
        text.push_str(first.trailing.as_str());
        push_full_text(&mut text, list, 1, list.len() - 1);
        text.push_str(last.leading.as_str());
        text.push_str(last.text.as_str());
    }
    text
}

} // verus!

//! Reading names and string contents out of the small nodes that hold them.

use vstd::prelude::*;
use vstd::string::StrSliceExecFns;
use biome_js_syntax::JsSyntaxKind;
use crate::error::TransformError;
use crate::text::views;
use crate::tree::{Node, Syntax, Token};

verus! {

/// How a function that gives a text or fails answers to its description.
pub open spec fn matches_text(
    found: Result<String, TransformError>,
    expected: Result<Seq<char>, TransformError>,
) -> bool {
    match found {
        Ok(text) => expected == Ok::<Seq<char>, TransformError>(text@),
        Err(error) => expected == Err::<Seq<char>, TransformError>(error),
    }
}

/// How a function that gives a list of texts or fails answers to its
/// description.
pub open spec fn matches_texts(
    found: Result<Vec<String>, TransformError>,
    expected: Result<Seq<Seq<char>>, TransformError>,
) -> bool {
    match found {
        Ok(texts) => expected == Ok::<Seq<Seq<char>>, TransformError>(views(texts@)),
        Err(error) => expected == Err::<Seq<Seq<char>>, TransformError>(error),
    }
}

/// The description that a text or a failure stands for.
pub open spec fn text_view(found: Result<String, TransformError>) -> Result<
    Seq<char>,
    TransformError,
> {
    match found {
        Ok(text) => Ok(text@),
        Err(error) => Err(error),
    }
}

/// Whether a token of this kind is a string literal with its delimiters.
pub open spec fn is_string_literal(kind: JsSyntaxKind) -> bool {
    kind is JS_STRING_LITERAL || kind is JSX_STRING_LITERAL
}

/// The text of a token, without the delimiters if it is a string literal.
pub open spec fn inner_string_text(token: Token) -> Result<Seq<char>, TransformError> {
    if is_string_literal(token.kind) {
        if token.text@.len() >= 2 {
            Ok(token.text@.subrange(1, token.text@.len() - 1))
        } else {
            Err(TransformError::Malformed)
        }
    } else {
        Ok(token.text@)
    }
}

/// The text of the single token that a name node holds.
pub open spec fn token_name(node: Node) -> Result<Seq<char>, TransformError> {
    match node.required_token(0) {
        Ok(token) => Ok(token.text@),
        Err(error) => Err(error),
    }
}

/// The text of the single token that a name node holds, without the
/// delimiters if it is a string literal.
pub open spec fn inner_name(node: Node) -> Result<Seq<char>, TransformError> {
    match node.required_token(0) {
        Ok(token) => inner_string_text(token),
        Err(error) => Err(error),
    }
}

/// The identifier that a binding introduces.
pub open spec fn binding_name(binding: Node) -> Result<Seq<char>, TransformError> {
    if binding.kind is JS_IDENTIFIER_BINDING {
        token_name(binding)
    } else {
        Err(TransformError::Malformed)
    }
}

/// The name in the slot `index` of `node`, which holds a name node.
pub open spec fn name_at(node: Node, index: int) -> Result<Seq<char>, TransformError> {
    match node.required_node(index) {
        Ok(name) => token_name(name),
        Err(error) => Err(error),
    }
}

/// The name in the slot `index` of `node`, without string delimiters.
pub open spec fn inner_name_at(node: Node, index: int) -> Result<Seq<char>, TransformError> {
    match node.required_node(index) {
        Ok(name) => inner_name(name),
        Err(error) => Err(error),
    }
}

/// The identifier of the binding in the slot `index` of `node`.
pub open spec fn binding_name_at(node: Node, index: int) -> Result<Seq<char>, TransformError> {
    match node.required_node(index) {
        Ok(binding) => binding_name(binding),
        Err(error) => Err(error),
    }
}

/// The nodes that a separated list holds: every second slot, starting with the
/// first, holds an element, the slots in between hold the separators.
pub open spec fn list_elements(slots: Seq<Option<Syntax>>) -> Result<Seq<Node>, TransformError>
    decreases slots.len(),
{
    if slots.len() == 0 {
        Ok(Seq::empty())
    } else {
        match list_elements(slots.drop_last()) {
            Err(error) => Err(error),
            Ok(before) => if (slots.len() - 1) % 2 == 1 {
                Ok(before)
            } else {
                match slots.last() {
                    Some(Syntax::Node(node)) => Ok(before.push(node)),
                    _ => Err(TransformError::Malformed),
                }
            },
        }
    }
}

/// The nodes that the given references point to.
pub open spec fn node_referents(nodes: Seq<&Node>) -> Seq<Node> {
    Seq::new(nodes.len(), |i: int| *nodes[i])
}

/// Gives the text of a token, without the delimiters if it is a string literal.
pub fn inner_string_text_of(token: &Token) -> (found: Result<String, TransformError>)
    ensures
        matches_text(found, inner_string_text(*token)),
{
    let quoted = match token.kind {
        JsSyntaxKind::JS_STRING_LITERAL | JsSyntaxKind::JSX_STRING_LITERAL => true,
        _ => false,
    };
    if quoted {
        let length = token.text.as_str().unicode_len();
        if length >= 2 {
            Ok(token.text.as_str().substring_char(1, length - 1).to_owned())
        } else {
            Err(TransformError::Malformed)
        }
    } else {
        Ok(token.text.clone())
    }
}

/// Gives the text of the single token that a name node holds.
pub fn token_name_of(node: &Node) -> (found: Result<String, TransformError>)
    ensures
        matches_text(found, token_name(*node)),
{
    let token = node.token_required(0)?;
    Ok(token.text.clone())
}

/// Gives the text of the single token that a name node holds, without the
/// delimiters if it is a string literal.
pub fn inner_name_of(node: &Node) -> (found: Result<String, TransformError>)
    ensures
        matches_text(found, inner_name(*node)),
{
    let token = node.token_required(0)?;
    inner_string_text_of(token)
}

/// Gives the identifier that a binding introduces.
pub fn name_token(binding: &Node) -> (found: Result<String, TransformError>)
    ensures
        matches_text(found, binding_name(*binding)),
{
    match binding.kind {
        JsSyntaxKind::JS_IDENTIFIER_BINDING => token_name_of(binding),
        _ => Err(TransformError::Malformed),
    }
}

/// Gives the name in the slot `index` of `node`.
pub fn name_in(node: &Node, index: usize) -> (found: Result<String, TransformError>)
    ensures
        matches_text(found, name_at(*node, index as int)),
{
    let name = node.node_required(index)?;
    token_name_of(name)
}

/// Gives the name in the slot `index` of `node`, without string delimiters.
pub fn inner_name_in(node: &Node, index: usize) -> (found: Result<String, TransformError>)
    ensures
        matches_text(found, inner_name_at(*node, index as int)),
{
    let name = node.node_required(index)?;
    inner_name_of(name)
}

/// Gives the identifier of the binding in the slot `index` of `node`.
pub fn binding_name_in(node: &Node, index: usize) -> (found: Result<String, TransformError>)
    ensures
        matches_text(found, binding_name_at(*node, index as int)),
{
    let binding = node.node_required(index)?;
    name_token(binding)
}

/// Gives the nodes that a separated list holds.
pub fn elements_of(list: &Node) -> (found: Result<Vec<&Node>, TransformError>)
    ensures
        match found {
            Ok(nodes) => list_elements(list.slots@) == Ok::<Seq<Node>, TransformError>(
                node_referents(nodes@),
            ),
            Err(error) => list_elements(list.slots@) == Err::<Seq<Node>, TransformError>(error),
        },
{
    let mut nodes: Vec<&Node> = Vec::new();
    let mut failed = false;
    let mut index: usize = 0;
    assert(node_referents(nodes@) == Seq::<Node>::empty());
    while index < list.slots.len()
        invariant
            index <= list.slots.len(),
            failed ==> list_elements(list.slots@.take(index as int)) == Err::<
                Seq<Node>,
                TransformError,
            >(TransformError::Malformed),
            !failed ==> list_elements(list.slots@.take(index as int)) == Ok::<
                Seq<Node>,
                TransformError,
            >(node_referents(nodes@)),
        decreases list.slots.len() - index,
    {
        proof {
            assert(list.slots@.take(index + 1).drop_last() == list.slots@.take(index as int));
        }
        if !failed && index % 2 == 0 {
            let ghost before = node_referents(nodes@);
            match &list.slots[index] {
                Some(Syntax::Node(node)) => {
                    nodes.push(node);
                    assert(node_referents(nodes@) == before.push(*node));
                },
                _ => {
                    failed = true;
                },
            }
        }
        index = index + 1;
    }
    proof {
        assert(list.slots@.take(list.slots.len() as int) == list.slots@);
    }
    if failed {
        Err(TransformError::Malformed)
    } else {
        Ok(nodes)
    }
}

} // verus!

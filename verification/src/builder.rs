//! Building the tree from the events of a walk over it.

use vstd::prelude::*;
use biome_js_syntax::JsSyntaxKind;
use crate::error::TransformError;
use crate::gateway::Event;
use crate::marking::distinct_keys;
use crate::tree::{
    full_text, lemma_full_text_concat, lemma_full_text_single, slots_tokens, tokens_of, Node,
    Syntax, Token, TokenKey,
};

verus! {

/// What a tree holds, as a mathematical value.
pub enum Shape {
    Token { kind: JsSyntaxKind, key: int, leading: Seq<char>, text: Seq<char>, trailing: Seq<char> },
    Node { kind: JsSyntaxKind, slots: Seq<Option<Shape>> },
}

/// What the given slots hold.
pub open spec fn slots_shape(slots: Seq<Option<Syntax>>) -> Seq<Option<Shape>>
    decreases slots,
{
    if slots.len() == 0 {
        Seq::empty()
    } else {
        slots_shape(slots.drop_last()).push(
            match slots.last() {
                Some(element) => Some(shape_of(element)),
                None => None,
            },
        )
    }
}

/// What `element` holds.
pub open spec fn shape_of(element: Syntax) -> Shape
    decreases element,
{
    match element {
        Syntax::Token(token) => Shape::Token {
            kind: token.kind,
            key: token.key as int,
            leading: token.leading@,
            text: token.text@,
            trailing: token.trailing@,
        },
        Syntax::Node(node) => Shape::Node { kind: node.kind, slots: slots_shape(node.slots@) },
    }
}

/// The text that the given slots hold.
pub open spec fn slots_shape_text(slots: Seq<Option<Shape>>) -> Seq<char>
    decreases slots,
{
    if slots.len() == 0 {
        Seq::empty()
    } else {
        slots_shape_text(slots.drop_last()) + match slots.last() {
            Some(shape) => shape_text(shape),
            None => Seq::empty(),
        }
    }
}

/// The text that a tree of this shape holds: the texts of its tokens, trivia
/// included, in document order.
pub open spec fn shape_text(shape: Shape) -> Seq<char>
    decreases shape,
{
    match shape {
        Shape::Token { kind, key, leading, text, trailing } => leading + text + trailing,
        Shape::Node { kind, slots } => slots_shape_text(slots),
    }
}

/// See `lemma_shape_text`.
pub proof fn lemma_slots_shape_text(slots: Seq<Option<Syntax>>)
    ensures
        slots_shape_text(slots_shape(slots)) == full_text(slots_tokens(slots)),
    decreases slots, 0nat,
{
    if slots.len() > 0 {
        let shapes = slots_shape(slots);
        assert(shapes.drop_last() == slots_shape(slots.drop_last()));
        lemma_slots_shape_text(slots.drop_last());
        match slots.last() {
            None => {
                assert(slots_tokens(slots) == slots_tokens(slots.drop_last()));
                assert(slots_shape_text(shapes) == slots_shape_text(shapes.drop_last()));
            },
            Some(element) => {
                assert(decreases_to!(slots => slots[slots.len() - 1]));
                assert(decreases_to!(slots[slots.len() - 1] => element));
                lemma_shape_text(element);
                lemma_full_text_concat(slots_tokens(slots.drop_last()), tokens_of(element));
            },
        }
    }
}

/// The text of an element's shape is the text of the element.
pub proof fn lemma_shape_text(element: Syntax)
    ensures
        shape_text(shape_of(element)) == full_text(tokens_of(element)),
    decreases element, 1nat,
{
    match element {
        Syntax::Token(token) => {
            lemma_full_text_single(token);
        },
        Syntax::Node(node) => {
            lemma_slots_shape_text(node.slots@);
        },
    }
}

/// The first `count` slots of a node whose children begin with the event
/// `start`, where `filled` tells which slots hold a child; then the event
/// after the last of these children, and the key of the next token. The
/// tokens get the keys from `key` on. There is no such row of slots if the
/// events do not hold a child for each filled slot.
pub open spec fn slots_at(
    events: Seq<Event>,
    start: int,
    key: int,
    filled: Seq<bool>,
    count: int,
) -> Option<(Seq<Option<Shape>>, int, int)>
    decreases events.len() - start, count,
{
    if start > events.len() || count > filled.len() {
        None
    } else if count <= 0 {
        Some((Seq::empty(), start, key))
    } else {
        match slots_at(events, start, key, filled, count - 1) {
            None => None,
            Some((slots, next, next_key)) => if !filled[count - 1] {
                Some((slots.push(None), next, next_key))
            } else if start <= next < events.len() {
                match shape_at(events, next, next_key) {
                    None => None,
                    Some((child, after, after_key)) => Some(
                        (slots.push(Some(child)), after, after_key),
                    ),
                }
            } else {
                None
            },
        }
    }
}

/// The element that begins with the event `at`, then the event after its
/// last, and the key of the next token. A token is one event and the event
/// that ends it; a node is the event that enters it, its children, and the
/// event that ends it. There is no such element if the events from `at` on
/// do not have this form.
pub open spec fn shape_at(events: Seq<Event>, at: int, key: int) -> Option<(Shape, int, int)>
    decreases events.len() - at, 0int,
{
    if !(0 <= at < events.len()) {
        None
    } else {
        match events[at] {
            Event::Token { kind, leading, text, trailing } => if at + 1 < events.len()
                && events[at + 1] is Leave {
                Some(
                    (
                        Shape::Token {
                            kind,
                            key,
                            leading: leading@,
                            text: text@,
                            trailing: trailing@,
                        },
                        at + 2,
                        key + 1,
                    ),
                )
            } else {
                None
            },
            Event::Enter(kind, filled) => match slots_at(
                events,
                at + 1,
                key,
                filled@,
                filled@.len() as int,
            ) {
                None => None,
                Some((slots, next, next_key)) => if at < next < events.len()
                    && events[next] is Leave {
                    Some((Shape::Node { kind, slots }, next + 1, next_key))
                } else {
                    None
                },
            },
            Event::Leave => None,
        }
    }
}

/// The tree that the given events make up: one node from the first event to
/// the last, with the tokens numbered from 0 in document order.
pub open spec fn tree_shape(events: Seq<Event>) -> Option<Shape> {
    match shape_at(events, 0, 0) {
        Some((Shape::Node { kind, slots }, next, _)) => if next == events.len() {
            Some(Shape::Node { kind, slots })
        } else {
            None
        },
        _ => None,
    }
}

/// Whether the given tokens have the keys from `first` on, in their order.
pub open spec fn is_numbered(tokens: Seq<Token>, first: int) -> bool {
    forall|i: int| 0 <= i < tokens.len() ==> #[trigger] tokens[i].key == first + i
}

/// The shapes of a row of slots are as many as the slots.
pub proof fn lemma_slots_shape_len(slots: Seq<Option<Syntax>>)
    ensures
        slots_shape(slots).len() == slots.len(),
    decreases slots.len(),
{
    if slots.len() > 0 {
        lemma_slots_shape_len(slots.drop_last());
    }
}

/// The first `count` slots of a node are `count` slots.
pub proof fn lemma_slots_at_len(
    events: Seq<Event>,
    start: int,
    key: int,
    filled: Seq<bool>,
    count: int,
)
    requires
        slots_at(events, start, key, filled, count) is Some,
        0 <= count,
    ensures
        ({
            let built = slots_at(events, start, key, filled, count)->0;
            built.0.len() == count
        }),
    decreases count,
{
    if count > 0 {
        lemma_slots_at_len(events, start, key, filled, count - 1);
    }
}

/// See `lemma_built_tokens_are_numbered`.
pub proof fn lemma_built_slots_are_numbered(
    events: Seq<Event>,
    start: int,
    key: int,
    filled: Seq<bool>,
    slots: Seq<Option<Syntax>>,
)
    requires
        slots_at(events, start, key, filled, slots.len() as int) matches Some(built)
            && built.0 == slots_shape(slots),
    ensures
        is_numbered(slots_tokens(slots), key),
        ({
            let built = slots_at(events, start, key, filled, slots.len() as int)->0;
            built.2 == key + slots_tokens(slots).len()
        }),
    decreases slots, 0nat,
{
    let count = slots.len() as int;
    if count > 0 {
        let before = slots_at(events, start, key, filled, count - 1)->0;
        let built = slots_at(events, start, key, filled, count)->0;
        let last = match slots.last() {
            Some(element) => Some(shape_of(element)),
            None => None,
        };
        assert(built.0.drop_last() == before.0);
        assert(slots_shape(slots).drop_last() == slots_shape(slots.drop_last()));
        assert(built.0.last() == last);
        lemma_built_slots_are_numbered(events, start, key, filled, slots.drop_last());
        let earlier = slots_tokens(slots.drop_last());
        match slots.last() {
            None => {
                assert(slots_tokens(slots) == earlier);
            },
            Some(element) => {
                assert(decreases_to!(slots => slots[count - 1]));
                assert(decreases_to!(slots[count - 1] => element));
                lemma_built_tokens_are_numbered(events, before.1, before.2, element);
                let later = tokens_of(element);
                assert forall|i: int| 0 <= i < (earlier + later).len() implies #[trigger] (earlier
                    + later)[i].key == key + i by {
                    if i >= earlier.len() {
                        assert(later[i - earlier.len()].key == before.2 + (i - earlier.len()));
                    }
                }
            },
        }
    }
}

/// The tokens of an element that the events make up are numbered in document
/// order, from the key that the first of them gets.
pub proof fn lemma_built_tokens_are_numbered(
    events: Seq<Event>,
    at: int,
    key: int,
    element: Syntax,
)
    requires
        shape_at(events, at, key) matches Some(built) && built.0 == shape_of(element),
    ensures
        is_numbered(tokens_of(element), key),
        ({
            let built = shape_at(events, at, key)->0;
            built.2 == key + tokens_of(element).len()
        }),
    decreases element, 1nat,
{
    match element {
        Syntax::Token(token) => {},
        Syntax::Node(node) => {
            let filled = events[at]->Enter_1@;
            lemma_slots_at_len(events, at + 1, key, filled, filled.len() as int);
            lemma_slots_shape_len(node.slots@);
            lemma_built_slots_are_numbered(events, at + 1, key, filled, node.slots@);
        },
    }
}

/// Tokens that are numbered in their order have keys of their own.
pub proof fn lemma_numbered_keys_are_distinct(tokens: Seq<Token>, first: int)
    requires
        is_numbered(tokens, first),
    ensures
        distinct_keys(tokens),
{
}

/// Builds the element that begins with the event `at`.
fn build_element(events: &Vec<Event>, at: usize, key: TokenKey) -> (built: Option<
    (Syntax, usize, TokenKey),
>)
    requires
        key <= at,
    ensures
        match built {
            Some((element, next, next_key)) => shape_at(events@, at as int, key as int) == Some(
                (shape_of(element), next as int, next_key as int),
            ) && at < next <= events.len() && next_key <= next,
            None => shape_at(events@, at as int, key as int) is None,
        },
    decreases events.len() - at,
{
    if at >= events.len() {
        return None;
    }
    match &events[at] {
        Event::Token { kind, leading, text, trailing } => {
            if at + 1 >= events.len() {
                return None;
            }
            match &events[at + 1] {
                Event::Leave => {},
                _ => {
                    return None;
                },
            }
            let token = Token {
                kind: *kind,
                key,
                leading: leading.clone(),
                text: text.clone(),
                trailing: trailing.clone(),
            };
            Some((Syntax::Token(token), at + 2, key + 1))
        },
        Event::Enter(kind, filled) => {
            let mut slots: Vec<Option<Syntax>> = Vec::new();
            let mut next: usize = at + 1;
            let mut next_key: TokenKey = key;
            let mut failed = false;
            let mut index: usize = 0;
            assert(slots_shape(slots@) == Seq::<Option<Shape>>::empty());
            while index < filled.len()
                invariant
                    index <= filled.len(),
                    at < next <= events.len(),
                    next_key <= next,
                    failed ==> slots_at(
                        events@,
                        at + 1,
                        key as int,
                        filled@,
                        index as int,
                    ) is None,
                    !failed ==> slots_at(events@, at + 1, key as int, filled@, index as int)
                        == Some((slots_shape(slots@), next as int, next_key as int)),
                decreases filled.len() - index,
            {
                if !failed {
                    let ghost before = slots@;
                    if !filled[index] {
                        slots.push(None);
                        assert(slots@.drop_last() == before);
                    } else if next < events.len() {
                        match build_element(events, next, next_key) {
                            Some((child, after, after_key)) => {
                                slots.push(Some(child));
                                assert(slots@.drop_last() == before);
                                next = after;
                                next_key = after_key;
                            },
                            None => {
                                failed = true;
                            },
                        }
                    } else {
                        failed = true;
                    }
                }
                index = index + 1;
            }
            if failed || next >= events.len() {
                return None;
            }
            match &events[next] {
                Event::Leave => {},
                _ => {
                    return None;
                },
            }
            Some((Syntax::Node(Node { kind: *kind, slots }), next + 1, next_key))
        },
        Event::Leave => None,
    }
}

/// Builds the tree that the given events make up.
pub fn build_tree(events: &Vec<Event>) -> (built: Result<Node, TransformError>)
    ensures
        match built {
            Ok(root) => tree_shape(events@) == Some(shape_of(Syntax::Node(root))) && is_numbered(
                root.tokens(),
                0,
            ),
            Err(error) => error == TransformError::Malformed && tree_shape(events@) is None,
        },
{
    match build_element(events, 0, 0) {
        Some((Syntax::Node(root), next, _)) => {
            if next == events.len() {
                proof {
                    lemma_built_tokens_are_numbered(events@, 0, 0, Syntax::Node(root));
                }
                Ok(root)
            } else {
                Err(TransformError::Malformed)
            }
        },
        _ => Err(TransformError::Malformed),
    }
}

} // verus!

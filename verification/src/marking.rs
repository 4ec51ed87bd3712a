//! What holds of the marks during a walk: a walk over a node marks and
//! unmarks tokens of that node only, no token is ever marked in both ways,
//! and a token that has been reached is marked no more.

use vstd::prelude::*;
use crate::laws::{lemma_first_slot_decreases, lemma_slots_tokens_front, state_after};
use crate::policy::{enter, Step};
use crate::state::WalkState;
use crate::transform::{walk_node, walk_slots};
use crate::tree::{slots_tokens, tokens_of, Node, Syntax, Token, TokenKey};

verus! {

/// Whether one of `tokens` has the key `key`.
pub open spec fn has_key(tokens: Seq<Token>, key: TokenKey) -> bool {
    exists|i: int| 0 <= i < tokens.len() && #[trigger] tokens[i].key == key
}

/// Whether no two of `tokens` have the same key.
pub open spec fn distinct_keys(tokens: Seq<Token>) -> bool {
    forall|i: int, j: int|
        0 <= i < j < tokens.len() ==> #[trigger] tokens[i].key != #[trigger] tokens[j].key
}

/// Whether the token `key` is marked in neither way.
pub open spec fn is_unmarked(state: WalkState, key: TokenKey) -> bool {
    !state.blanks.contains(key) && !state.skips.contains(key)
}

/// Whether the token `key` is marked in `after` as it is in `before`.
pub open spec fn same_marks(after: WalkState, before: WalkState, key: TokenKey) -> bool {
    after.blanks.contains(key) == before.blanks.contains(key) && after.skips.contains(key)
        == before.skips.contains(key)
}

/// The tokens below what a slot holds.
pub open spec fn slot_tokens(slot: Option<Syntax>) -> Seq<Token> {
    match slot {
        Some(element) => tokens_of(element),
        None => Seq::empty(),
    }
}

/// A row of tokens has a key if one of its two parts has it.
pub proof fn lemma_has_key_concat(a: Seq<Token>, b: Seq<Token>, key: TokenKey)
    ensures
        has_key(a + b, key) <==> has_key(a, key) || has_key(b, key),
{
    if has_key(a, key) {
        let i = choose|i: int| 0 <= i < a.len() && #[trigger] a[i].key == key;
        assert((a + b)[i].key == key);
    }
    if has_key(b, key) {
        let i = choose|i: int| 0 <= i < b.len() && #[trigger] b[i].key == key;
        assert((a + b)[a.len() + i].key == key);
    }
    if has_key(a + b, key) {
        let i = choose|i: int| 0 <= i < (a + b).len() && #[trigger] (a + b)[i].key == key;
        if i < a.len() {
            assert(a[i].key == key);
        } else {
            assert(b[i - a.len()].key == key);
        }
    }
}

/// The tokens below a slot are among the tokens below the row of slots.
pub proof fn lemma_slot_tokens_within(slots: Seq<Option<Syntax>>, index: int, key: TokenKey)
    requires
        0 <= index < slots.len(),
        has_key(slot_tokens(slots[index]), key),
    ensures
        has_key(slots_tokens(slots), key),
    decreases slots.len(),
{
    lemma_has_key_concat(slots_tokens(slots.drop_last()), slot_tokens(slots.last()), key);
    if index < slots.len() - 1 {
        lemma_slot_tokens_within(slots.drop_last(), index, key);
    }
}

/// A token that a node holds in a slot is among the tokens of the node.
pub proof fn lemma_child_token_within(node: Node, index: int, token: Token)
    requires
        node.token_at(index) == Some(token),
    ensures
        has_key(node.tokens(), token.key),
{
    assert(seq![token][0].key == token.key);
    lemma_slot_tokens_within(node.slots@, index, token.key);
}

/// The tokens of a node that a node holds in a slot are among the tokens of
/// the holder.
pub proof fn lemma_child_tokens_within(node: Node, index: int, child: Node, key: TokenKey)
    requires
        node.node_at(index) == Some(child),
        has_key(child.tokens(), key),
    ensures
        has_key(node.tokens(), key),
{
    lemma_slot_tokens_within(node.slots@, index, key);
}

/// Marking tokens for blanking changes no mark of any other token, and marks
/// no token in both ways.
pub proof fn lemma_blank_all_is_local(state: WalkState, tokens: Seq<Token>, key: TokenKey)
    ensures
        !has_key(tokens, key) ==> same_marks(state.blank_all(tokens), state, key),
        state.well_formed() ==> state.blank_all(tokens).well_formed(),
    decreases tokens.len(),
{
    if tokens.len() > 0 {
        lemma_blank_all_is_local(state, tokens.drop_last(), key);
        if !has_key(tokens, key) {
            assert(tokens[tokens.len() - 1].key != key);
            if has_key(tokens.drop_last(), key) {
                let i = choose|i: int|
                    0 <= i < tokens.drop_last().len() && #[trigger] tokens.drop_last()[i].key
                        == key;
                assert(tokens[i].key == key);
            }
        }
    }
}

/// Entering a node marks no token in both ways.
pub proof fn lemma_enter_keeps_marks_apart(node: Node, path: Seq<char>, state: WalkState)
    requires
        enter(node, path, state) is Ok,
        state.well_formed(),
    ensures
        state_after(enter(node, path, state)->Ok_0).well_formed(),
{
    if node.kind is TS_AS_EXPRESSION || node.kind is TS_SATISFIES_EXPRESSION {
        let keyword = node.required_token(1)->Ok_0;
        let ty = node.required_node(2)->Ok_0;
        lemma_blank_all_is_local(state.blank(keyword.key), ty.tokens(), 0);
    } else if node.kind is TS_TYPE_ASSERTION_EXPRESSION {
        let open = node.required_token(0)->Ok_0;
        let close = node.required_token(2)->Ok_0;
        let ty = node.required_node(1)->Ok_0;
        lemma_blank_all_is_local(state.blank(open.key).blank(close.key), ty.tokens(), 0);
    }
}

/// Entering a node changes the marks of tokens of that node only.
pub proof fn lemma_enter_is_local(node: Node, path: Seq<char>, state: WalkState, key: TokenKey)
    requires
        enter(node, path, state) is Ok,
        !has_key(node.tokens(), key),
    ensures
        same_marks(state_after(enter(node, path, state)->Ok_0), state, key),
{
    if node.kind is TS_AS_EXPRESSION || node.kind is TS_SATISFIES_EXPRESSION {
        let keyword = node.required_token(1)->Ok_0;
        let ty = node.required_node(2)->Ok_0;
        lemma_child_token_within(node, 1, keyword);
        if has_key(ty.tokens(), key) {
            lemma_child_tokens_within(node, 2, ty, key);
        }
        lemma_blank_all_is_local(state.blank(keyword.key), ty.tokens(), key);
    } else if node.kind is TS_TYPE_ASSERTION_EXPRESSION {
        let open = node.required_token(0)->Ok_0;
        let close = node.required_token(2)->Ok_0;
        let ty = node.required_node(1)->Ok_0;
        lemma_child_token_within(node, 0, open);
        lemma_child_token_within(node, 2, close);
        if has_key(ty.tokens(), key) {
            lemma_child_tokens_within(node, 1, ty, key);
        }
        lemma_blank_all_is_local(state.blank(open.key).blank(close.key), ty.tokens(), key);
    } else if node.kind is JS_FORMAL_PARAMETER {
        if node.token_at(2) is Some {
            lemma_child_token_within(node, 2, node.token_at(2)->0);
        }
    } else if node.kind is TS_NON_NULL_ASSERTION_EXPRESSION {
        lemma_child_token_within(node, 1, node.required_token(1)->Ok_0);
    } else if node.kind is JS_EXPORT {
        let clause = node.required_node(2)->Ok_0;
        if node.token_at(1) is Some {
            lemma_child_token_within(node, 1, node.token_at(1)->0);
        }
        if clause.token_at(0) is Some {
            let default = clause.token_at(0)->0;
            lemma_child_token_within(clause, 0, default);
            lemma_child_tokens_within(node, 2, clause, default.key);
        }
    }
}

/// See `lemma_walk_keeps_marks_apart`.
pub proof fn lemma_walk_slots_keep_marks_apart(
    slots: Seq<Option<Syntax>>,
    path: Seq<char>,
    state: WalkState,
)
    requires
        walk_slots(slots, path, state) is Ok,
        state.well_formed(),
    ensures
        walk_slots(slots, path, state)->Ok_0.well_formed(),
    decreases slots, 0nat,
{
    if slots.len() > 0 {
        let rest = slots.drop_first();
        match slots[0] {
            None => {
                lemma_walk_slots_keep_marks_apart(rest, path, state);
            },
            Some(Syntax::Token(token)) => {
                lemma_walk_slots_keep_marks_apart(rest, path, state.visit(token));
            },
            Some(Syntax::Node(child)) => {
                lemma_first_slot_decreases(slots, child);
                lemma_walk_keeps_marks_apart(child, path, state);
                lemma_walk_slots_keep_marks_apart(rest, path, walk_node(child, path, state)->Ok_0);
            },
        }
    }
}

/// During a walk no token is ever marked both for blanking and for
/// skipping.
pub proof fn lemma_walk_keeps_marks_apart(node: Node, path: Seq<char>, state: WalkState)
    requires
        walk_node(node, path, state) is Ok,
        state.well_formed(),
    ensures
        walk_node(node, path, state)->Ok_0.well_formed(),
    decreases node, 1nat,
{
    lemma_enter_keeps_marks_apart(node, path, state);
    match enter(node, path, state)->Ok_0 {
        Step::Done(next) => {},
        Step::Descend(next) => {
            lemma_walk_slots_keep_marks_apart(node.slots@, path, next);
        },
    }
}

/// See `lemma_walk_is_local`.
pub proof fn lemma_walk_slots_are_local(
    slots: Seq<Option<Syntax>>,
    path: Seq<char>,
    state: WalkState,
    key: TokenKey,
)
    requires
        walk_slots(slots, path, state) is Ok,
        !has_key(slots_tokens(slots), key),
    ensures
        same_marks(walk_slots(slots, path, state)->Ok_0, state, key),
    decreases slots, 0nat,
{
    if slots.len() > 0 {
        lemma_slots_tokens_front(slots);
        let rest = slots.drop_first();
        lemma_has_key_concat(slot_tokens(slots[0]), slots_tokens(rest), key);
        match slots[0] {
            None => {
                lemma_walk_slots_are_local(rest, path, state, key);
            },
            Some(Syntax::Token(token)) => {
                assert(seq![token][0].key == token.key);
                lemma_walk_slots_are_local(rest, path, state.visit(token), key);
            },
            Some(Syntax::Node(child)) => {
                lemma_first_slot_decreases(slots, child);
                lemma_walk_is_local(child, path, state, key);
                lemma_walk_slots_are_local(rest, path, walk_node(child, path, state)->Ok_0, key);
            },
        }
    }
}

/// A walk over a node changes the marks of tokens of that node only.
pub proof fn lemma_walk_is_local(node: Node, path: Seq<char>, state: WalkState, key: TokenKey)
    requires
        walk_node(node, path, state) is Ok,
        !has_key(node.tokens(), key),
    ensures
        same_marks(walk_node(node, path, state)->Ok_0, state, key),
    decreases node, 1nat,
{
    lemma_enter_is_local(node, path, state, key);
    match enter(node, path, state)->Ok_0 {
        Step::Done(next) => {},
        Step::Descend(next) => {
            lemma_walk_slots_are_local(node.slots@, path, next, key);
        },
    }
}

/// The tokens that a walk over the given slots reaches, in document order.
pub open spec fn reached_in_slots(
    slots: Seq<Option<Syntax>>,
    path: Seq<char>,
    state: WalkState,
) -> Seq<Token>
    decreases slots, 0nat,
{
    if slots.len() == 0 {
        Seq::empty()
    } else {
        match slots[0] {
            None => reached_in_slots(slots.drop_first(), path, state),
            Some(Syntax::Token(token)) => seq![token] + reached_in_slots(
                slots.drop_first(),
                path,
                state.visit(token),
            ),
            Some(Syntax::Node(child)) => reached(child, path, state) + match walk_node(
                child,
                path,
                state,
            ) {
                Ok(next) => reached_in_slots(slots.drop_first(), path, next),
                Err(_) => Seq::empty(),
            },
        }
    }
}

/// The tokens that a walk over `node` reaches, in document order: all
/// tokens but those below a node that is erased or replaced as a whole.
pub open spec fn reached(node: Node, path: Seq<char>, state: WalkState) -> Seq<Token>
    decreases node, 1nat,
{
    match enter(node, path, state) {
        Ok(Step::Descend(next)) => reached_in_slots(node.slots@, path, next),
        _ => Seq::empty(),
    }
}

/// See `lemma_reached_within`.
pub proof fn lemma_reached_in_slots_within(
    slots: Seq<Option<Syntax>>,
    path: Seq<char>,
    state: WalkState,
    key: TokenKey,
)
    requires
        has_key(reached_in_slots(slots, path, state), key),
    ensures
        has_key(slots_tokens(slots), key),
    decreases slots, 0nat,
{
    if slots.len() > 0 {
        lemma_slots_tokens_front(slots);
        let rest = slots.drop_first();
        lemma_has_key_concat(slot_tokens(slots[0]), slots_tokens(rest), key);
        match slots[0] {
            None => {
                lemma_reached_in_slots_within(rest, path, state, key);
            },
            Some(Syntax::Token(token)) => {
                let after = reached_in_slots(rest, path, state.visit(token));
                lemma_has_key_concat(seq![token], after, key);
                if has_key(after, key) {
                    lemma_reached_in_slots_within(rest, path, state.visit(token), key);
                }
            },
            Some(Syntax::Node(child)) => {
                lemma_first_slot_decreases(slots, child);
                let after = match walk_node(child, path, state) {
                    Ok(next) => reached_in_slots(rest, path, next),
                    Err(_) => Seq::empty(),
                };
                lemma_has_key_concat(reached(child, path, state), after, key);
                if has_key(reached(child, path, state), key) {
                    lemma_reached_within(child, path, state, key);
                }
                if has_key(after, key) {
                    lemma_reached_in_slots_within(
                        rest,
                        path,
                        walk_node(child, path, state)->Ok_0,
                        key,
                    );
                }
            },
        }
    }
}

/// The tokens that a walk over a node reaches are tokens of the node.
pub proof fn lemma_reached_within(node: Node, path: Seq<char>, state: WalkState, key: TokenKey)
    requires
        has_key(reached(node, path, state), key),
    ensures
        has_key(node.tokens(), key),
    decreases node, 1nat,
{
    match enter(node, path, state) {
        Ok(Step::Descend(next)) => {
            lemma_reached_in_slots_within(node.slots@, path, next, key);
        },
        _ => {},
    }
}

/// Where no two tokens of a row have the same key, none of the first part
/// has the key of one of the second part, and the same holds of either part.
pub proof fn lemma_distinct_keys_split(a: Seq<Token>, b: Seq<Token>)
    requires
        distinct_keys(a + b),
    ensures
        distinct_keys(a),
        distinct_keys(b),
        forall|key: TokenKey| !(has_key(a, key) && has_key(b, key)),
{
    let all = a + b;
    assert forall|i: int, j: int| 0 <= i < j < a.len() implies #[trigger] a[i].key
        != #[trigger] a[j].key by {
        assert(all[i].key != all[j].key);
    }
    assert forall|i: int, j: int| 0 <= i < j < b.len() implies #[trigger] b[i].key
        != #[trigger] b[j].key by {
        assert(all[a.len() + i].key != all[a.len() + j].key);
    }
    assert forall|key: TokenKey| !(has_key(a, key) && has_key(b, key)) by {
        if has_key(a, key) && has_key(b, key) {
            let i = choose|i: int| 0 <= i < a.len() && #[trigger] a[i].key == key;
            let j = choose|j: int| 0 <= j < b.len() && #[trigger] b[j].key == key;
            assert(all[i].key != all[a.len() + j].key);
        }
    }
}

/// See `lemma_reached_tokens_are_unmarked`.
pub proof fn lemma_reached_in_slots_are_unmarked(
    slots: Seq<Option<Syntax>>,
    path: Seq<char>,
    state: WalkState,
    key: TokenKey,
)
    requires
        walk_slots(slots, path, state) is Ok,
        state.well_formed(),
        distinct_keys(slots_tokens(slots)),
        has_key(reached_in_slots(slots, path, state), key),
    ensures
        is_unmarked(walk_slots(slots, path, state)->Ok_0, key),
    decreases slots, 0nat,
{
    if slots.len() > 0 {
        lemma_slots_tokens_front(slots);
        let rest = slots.drop_first();
        lemma_distinct_keys_split(slot_tokens(slots[0]), slots_tokens(rest));
        match slots[0] {
            None => {
                assert(Seq::<Token>::empty() + slots_tokens(rest) == slots_tokens(rest));
                lemma_reached_in_slots_are_unmarked(rest, path, state, key);
            },
            Some(Syntax::Token(token)) => {
                let next = state.visit(token);
                let after = reached_in_slots(rest, path, next);
                lemma_has_key_concat(seq![token], after, key);
                if has_key(after, key) {
                    lemma_reached_in_slots_are_unmarked(rest, path, next, key);
                } else {
                    assert(key == token.key);
                    assert(seq![token][0].key == token.key);
                    assert(is_unmarked(next, key));
                    lemma_walk_slots_are_local(rest, path, next, key);
                }
            },
            Some(Syntax::Node(child)) => {
                lemma_first_slot_decreases(slots, child);
                let next = walk_node(child, path, state)->Ok_0;
                let after = reached_in_slots(rest, path, next);
                lemma_has_key_concat(reached(child, path, state), after, key);
                lemma_walk_keeps_marks_apart(child, path, state);
                if has_key(after, key) {
                    lemma_reached_in_slots_are_unmarked(rest, path, next, key);
                } else {
                    lemma_reached_tokens_are_unmarked(child, path, state, key);
                    lemma_reached_within(child, path, state, key);
                    lemma_walk_slots_are_local(rest, path, next, key);
                }
            },
        }
    }
}

/// Marks are used up: where no two tokens of a node have the same key, a
/// token that a walk over the node has reached is marked neither for
/// blanking nor for skipping when the walk ends.
pub proof fn lemma_reached_tokens_are_unmarked(
    node: Node,
    path: Seq<char>,
    state: WalkState,
    key: TokenKey,
)
    requires
        walk_node(node, path, state) is Ok,
        state.well_formed(),
        distinct_keys(node.tokens()),
        has_key(reached(node, path, state), key),
    ensures
        is_unmarked(walk_node(node, path, state)->Ok_0, key),
    decreases node, 1nat,
{
    lemma_enter_keeps_marks_apart(node, path, state);
    match enter(node, path, state)->Ok_0 {
        Step::Done(next) => {},
        Step::Descend(next) => {
            lemma_reached_in_slots_are_unmarked(node.slots@, path, next, key);
        },
    }
}

} // verus!

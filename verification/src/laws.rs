//! What holds of every walk: the output only grows, code without TypeScript
//! syntax comes out as it went in, and erasure keeps every character at its
//! offset.

use vstd::prelude::*;
use biome_js_syntax::JsSyntaxKind;
use crate::error::TransformError;
use crate::policy::{
    declares_module, default_export_prefix, enter, import_call_text, is_type_syntax,
    unsupported_kind, within_trivia, Step,
};
use crate::state::{prologue, WalkState};
use crate::text::{blank_char, blanked, is_kept_whitespace, newline_count};
use crate::transform::{
    epilogue, finished, footer, is_tree_of, module_text, walk_node, walk_slots,
};
use crate::tree::{
    full_text, lemma_full_text_concat, lemma_full_text_single, slots_tokens, tokens_of,
    trimmed_text, Node, Syntax, Token,
};

verus! {

/// Whether `text` begins with `start`.
pub open spec fn starts_with(text: Seq<char>, start: Seq<char>) -> bool {
    start.len() <= text.len() && text.subrange(0, start.len() as int) == start
}

/// Whether `text` ends with `end`.
pub open spec fn ends_with(text: Seq<char>, end: Seq<char>) -> bool {
    end.len() <= text.len() && text.subrange(text.len() - end.len(), text.len() as int) == end
}

/// The tokens below a row of slots are those below the first slot, then
/// those below the others.
pub proof fn lemma_slots_tokens_front(slots: Seq<Option<Syntax>>)
    requires
        slots.len() > 0,
    ensures
        slots_tokens(slots) == match slots[0] {
            Some(element) => tokens_of(element),
            None => Seq::empty(),
        } + slots_tokens(slots.drop_first()),
    decreases slots.len(),
{
    let first = match slots[0] {
        Some(element) => tokens_of(element),
        None => Seq::<Token>::empty(),
    };
    let last = match slots.last() {
        Some(element) => tokens_of(element),
        None => Seq::<Token>::empty(),
    };
    if slots.len() == 1 {
        assert(slots.drop_last() == Seq::<Option<Syntax>>::empty());
        assert(slots.drop_first() == Seq::<Option<Syntax>>::empty());
        assert(slots_tokens(slots.drop_last()) == Seq::<Token>::empty());
        assert(slots.last() == slots[0]);
        assert(Seq::<Token>::empty() + first == first);
        assert(slots_tokens(slots) == first);
        assert(first + slots_tokens(slots.drop_first()) == first);
    } else {
        lemma_slots_tokens_front(slots.drop_last());
        assert(slots.drop_last()[0] == slots[0]);
        assert(slots.drop_last().drop_first() == slots.drop_first().drop_last());
        assert(slots.drop_first().last() == slots.last());
        assert(slots_tokens(slots) == (first + slots_tokens(slots.drop_first().drop_last()))
            + last);
        assert(slots_tokens(slots) == first + (slots_tokens(slots.drop_first().drop_last())
            + last));
    }
}

/// Marking tokens for blanking writes nothing and exports nothing.
pub proof fn lemma_blank_all_marks_only(state: WalkState, tokens: Seq<Token>)
    ensures
        state.blank_all(tokens).out == state.out,
        state.blank_all(tokens).exports == state.exports,
        state.skips == Set::<usize>::empty() ==> state.blank_all(tokens).skips == Set::<
            usize,
        >::empty(),
    decreases tokens.len(),
{
    if tokens.len() > 0 {
        lemma_blank_all_marks_only(state, tokens.drop_last());
        let before = state.blank_all(tokens.drop_last());
        if state.skips == Set::<usize>::empty() {
            assert(before.skips.remove(tokens.last().key) == Set::<usize>::empty());
        }
    }
}

/// A slot's element is smaller than the row of slots that holds it.
pub proof fn lemma_first_slot_decreases(slots: Seq<Option<Syntax>>, child: Node)
    requires
        slots.len() > 0,
        slots[0] == Some(Syntax::Node(child)),
    ensures
        decreases_to!(slots => child),
{
    let slot = slots[0];
    assert(decreases_to!(slots => slot));
    let element = slot->0;
    assert(decreases_to!(slot => element));
    assert(element->Node_0 == child);
    assert(decreases_to!(element => element->Node_0));
}

/// Whether the walk passes by a node like this one: entering it writes
/// nothing and marks nothing.
pub open spec fn is_passed_by(node: Node) -> bool {
    &&& !is_type_syntax(node.kind)
    &&& unsupported_kind(node.kind) is None
    &&& !declares_module(node)
    &&& !(node.kind is TS_NON_NULL_ASSERTION_EXPRESSION)
    &&& !(node.kind is TS_AS_EXPRESSION)
    &&& !(node.kind is TS_SATISFIES_EXPRESSION)
    &&& !(node.kind is TS_TYPE_ASSERTION_EXPRESSION)
    &&& !is_rewritten(node.kind)
    &&& (node.kind is JS_FORMAL_PARAMETER ==> node.token_at(2) is None)
}

/// Whether a node of this kind is replaced by other text.
pub open spec fn is_rewritten(kind: JsSyntaxKind) -> bool {
    kind is JS_IMPORT || kind is JS_EXPORT || kind is JS_IMPORT_META_EXPRESSION
        || kind is JS_IMPORT_CALL_EXPRESSION
}

/// Whether the nodes below the given slots hold no TypeScript syntax and
/// nothing that is rewritten.
pub open spec fn plain_slots(slots: Seq<Option<Syntax>>) -> bool
    decreases slots, 0nat,
{
    if slots.len() == 0 {
        true
    } else {
        &&& match slots[0] {
            Some(Syntax::Node(child)) => is_plain(child),
            _ => true,
        }
        &&& plain_slots(slots.drop_first())
    }
}

/// Whether `node` holds no TypeScript syntax and nothing that is rewritten:
/// the walk passes by the node and every node below it.
pub open spec fn is_plain(node: Node) -> bool
    decreases node, 1nat,
{
    is_passed_by(node) && plain_slots(node.slots@)
}

/// Whether the nodes below the given slots hold nothing that is rewritten.
pub open spec fn rewrite_free_slots(slots: Seq<Option<Syntax>>) -> bool
    decreases slots, 0nat,
{
    if slots.len() == 0 {
        true
    } else {
        &&& match slots[0] {
            Some(Syntax::Node(child)) => is_rewrite_free(child),
            _ => true,
        }
        &&& rewrite_free_slots(slots.drop_first())
    }
}

/// Whether `node` holds no `import`, no `export` and no `import.meta`: all
/// that a walk over it can do is erase.
pub open spec fn is_rewrite_free(node: Node) -> bool
    decreases node, 1nat,
{
    !is_rewritten(node.kind) && rewrite_free_slots(node.slots@)
}

/// Whether `out` is `text` after erasure: each character stands at its
/// offset, as it was or blanked.
pub open spec fn erases(out: Seq<char>, text: Seq<char>) -> bool {
    &&& out.len() == text.len()
    &&& forall|i: int|
        0 <= i < text.len() ==> #[trigger] out[i] == text[i] || out[i] == blank_char(text[i])
}

/// Blanking keeps the whitespace of a text where it is, and keeps the text's
/// length.
pub proof fn lemma_blanked_keeps_whitespace(text: Seq<char>)
    ensures
        blanked(text).len() == text.len(),
        forall|i: int|
            0 <= i < text.len() && is_kept_whitespace(text[i]) ==> #[trigger] blanked(text)[i]
                == text[i],
        forall|i: int|
            0 <= i < text.len() && !is_kept_whitespace(text[i]) ==> #[trigger] blanked(text)[i]
                == ' ',
{
}

/// A token that is marked for blanking is written with its whitespace where
/// it was: each whitespace character of the token stands in the output at
/// the offset that it had in the token.
pub proof fn lemma_blanked_token_keeps_whitespace(state: WalkState, token: Token)
    requires
        state.blanks.contains(token.key),
    ensures
        state.visit(token).out == state.out + blanked(token.full_text()),
        state.visit(token).out.len() == state.out.len() + token.full_text().len(),
        forall|i: int|
            0 <= i < token.full_text().len() && is_kept_whitespace(token.full_text()[i])
                ==> #[trigger] state.visit(token).out[state.out.len() + i]
                == token.full_text()[i],
{
}

/// Erasure of two texts, one after the other, is erasure of the whole.
pub proof fn lemma_erases_concat(
    out_a: Seq<char>,
    text_a: Seq<char>,
    out_b: Seq<char>,
    text_b: Seq<char>,
)
    requires
        erases(out_a, text_a),
        erases(out_b, text_b),
    ensures
        erases(out_a + out_b, text_a + text_b),
{
    assert forall|i: int| 0 <= i < (text_a + text_b).len() implies #[trigger] (out_a + out_b)[i]
        == (text_a + text_b)[i] || (out_a + out_b)[i] == blank_char((text_a + text_b)[i]) by {
        if i < text_a.len() {
            assert(out_a[i] == text_a[i] || out_a[i] == blank_char(text_a[i]));
        } else {
            let j = i - text_a.len();
            assert(out_b[j] == text_b[j] || out_b[j] == blank_char(text_b[j]));
        }
    }
}

/// After erasure a text has its line feeds where they were, and as many of
/// them.
pub proof fn lemma_erases_keeps_line_feeds(out: Seq<char>, text: Seq<char>)
    requires
        erases(out, text),
    ensures
        forall|i: int| 0 <= i < text.len() ==> (#[trigger] out[i] == '\n' <==> text[i] == '\n'),
        newline_count(out) == newline_count(text),
    decreases text.len(),
{
    assert forall|i: int| 0 <= i < text.len() implies (#[trigger] out[i] == '\n' <==> text[i]
        == '\n') by {
        assert(out[i] == text[i] || out[i] == blank_char(text[i]));
    }
    if text.len() > 0 {
        assert forall|i: int| 0 <= i < text.drop_last().len() implies #[trigger] out.drop_last()[i]
            == text.drop_last()[i] || out.drop_last()[i] == blank_char(text.drop_last()[i]) by {
            assert(out[i] == text[i] || out[i] == blank_char(text[i]));
        }
        lemma_erases_keeps_line_feeds(out.drop_last(), text.drop_last());
        assert(out[text.len() - 1] == '\n' <==> text[text.len() - 1] == '\n');
    }
}

/// A walk over slots that hold no TypeScript syntax and nothing that is
/// rewritten writes their text as it is, if no token is marked.
pub proof fn lemma_plain_slots_round_trip(
    slots: Seq<Option<Syntax>>,
    path: Seq<char>,
    state: WalkState,
)
    requires
        plain_slots(slots),
        state.blanks == Set::<usize>::empty(),
        state.skips == Set::<usize>::empty(),
    ensures
        walk_slots(slots, path, state) == Ok::<WalkState, TransformError>(
            state.emit(full_text(slots_tokens(slots))),
        ),
    decreases slots, 0nat,
{
    if slots.len() == 0 {
        assert(state.out + full_text(slots_tokens(slots)) == state.out);
    } else {
        lemma_slots_tokens_front(slots);
        let rest = slots.drop_first();
        let rest_text = full_text(slots_tokens(rest));
        match slots[0] {
            None => {
                lemma_plain_slots_round_trip(rest, path, state);
                assert(Seq::<Token>::empty() + slots_tokens(rest) == slots_tokens(rest));
            },
            Some(Syntax::Token(token)) => {
                let next = state.visit(token);
                lemma_plain_slots_round_trip(rest, path, next);
                lemma_full_text_concat(seq![token], slots_tokens(rest));
                lemma_full_text_single(token);
                assert(state.out + token.full_text() + rest_text == state.out + (
                token.full_text() + rest_text));
            },
            Some(Syntax::Node(child)) => {
                lemma_first_slot_decreases(slots, child);
                lemma_plain_round_trip(child, path, state);
                let next = state.emit(child.text());
                lemma_plain_slots_round_trip(rest, path, next);
                lemma_full_text_concat(child.tokens(), slots_tokens(rest));
                assert(state.out + child.text() + rest_text == state.out + (child.text()
                    + rest_text));
            },
        }
    }
}

/// Round trip of code without types: a walk over a node that holds no
/// TypeScript syntax and nothing that is rewritten writes the text of the
/// node as it is, if no token is marked.
pub proof fn lemma_plain_round_trip(node: Node, path: Seq<char>, state: WalkState)
    requires
        is_plain(node),
        state.blanks == Set::<usize>::empty(),
        state.skips == Set::<usize>::empty(),
    ensures
        walk_node(node, path, state) == Ok::<WalkState, TransformError>(state.emit(node.text())),
    decreases node, 1nat,
{
    assert(enter(node, path, state) == Ok::<Step, TransformError>(Step::Descend(state)));
    lemma_plain_slots_round_trip(node.slots@, path, state);
}

/// A module that holds no TypeScript syntax and nothing that is rewritten
/// is transformed into its own text between the prologue and the epilogue.
pub proof fn lemma_plain_module_round_trip(root: Node, path: Seq<char>)
    requires
        is_plain(root),
    ensures
        module_text(root, path) == Ok::<Seq<char>, TransformError>(
            prologue() + root.text() + epilogue(),
        ),
{
    lemma_plain_round_trip(root, path, WalkState::initial());
    let end = WalkState::initial().emit(root.text());
    assert(footer(end.exports) == Seq::<char>::empty());
    assert(end.out + footer(end.exports) + epilogue() == prologue() + root.text() + epilogue());
}

/// The state that a step leaves.
pub open spec fn state_after(step: Step) -> WalkState {
    match step {
        Step::Descend(state) => state,
        Step::Done(state) => state,
    }
}

/// Entering a node only adds to the output.
pub proof fn lemma_enter_extends(node: Node, path: Seq<char>, state: WalkState)
    requires
        enter(node, path, state) is Ok,
    ensures
        starts_with(state_after(enter(node, path, state)->Ok_0).out, state.out),
{
    let next = state_after(enter(node, path, state)->Ok_0);
    if node.kind is TS_AS_EXPRESSION || node.kind is TS_SATISFIES_EXPRESSION {
        let keyword = node.required_token(1)->Ok_0;
        let ty = node.required_node(2)->Ok_0;
        lemma_blank_all_marks_only(state.blank(keyword.key), ty.tokens());
    } else if node.kind is TS_TYPE_ASSERTION_EXPRESSION {
        let open = node.required_token(0)->Ok_0;
        let close = node.required_token(2)->Ok_0;
        let ty = node.required_node(1)->Ok_0;
        lemma_blank_all_marks_only(state.blank(open.key).blank(close.key), ty.tokens());
    }
    assert(next.out.subrange(0, state.out.len() as int) == state.out);
}

/// A walk over slots only adds to the output.
pub proof fn lemma_walk_slots_extends(
    slots: Seq<Option<Syntax>>,
    path: Seq<char>,
    state: WalkState,
)
    requires
        walk_slots(slots, path, state) is Ok,
    ensures
        starts_with(walk_slots(slots, path, state)->Ok_0.out, state.out),
    decreases slots, 0nat,
{
    let end = walk_slots(slots, path, state)->Ok_0;
    if slots.len() == 0 {
        assert(end.out.subrange(0, state.out.len() as int) == state.out);
    } else {
        let rest = slots.drop_first();
        match slots[0] {
            None => {
                lemma_walk_slots_extends(rest, path, state);
            },
            Some(Syntax::Token(token)) => {
                let next = state.visit(token);
                lemma_walk_slots_extends(rest, path, next);
                assert(next.out.subrange(0, state.out.len() as int) == state.out);
                assert(end.out.subrange(0, state.out.len() as int) == end.out.subrange(
                    0,
                    next.out.len() as int,
                ).subrange(0, state.out.len() as int));
            },
            Some(Syntax::Node(child)) => {
                lemma_first_slot_decreases(slots, child);
                lemma_walk_extends(child, path, state);
                let next = walk_node(child, path, state)->Ok_0;
                lemma_walk_slots_extends(rest, path, next);
                assert(end.out.subrange(0, state.out.len() as int) == end.out.subrange(
                    0,
                    next.out.len() as int,
                ).subrange(0, state.out.len() as int));
            },
        }
    }
}

/// A walk only adds to the output: what was written before it stays as it
/// is.
pub proof fn lemma_walk_extends(node: Node, path: Seq<char>, state: WalkState)
    requires
        walk_node(node, path, state) is Ok,
    ensures
        starts_with(walk_node(node, path, state)->Ok_0.out, state.out),
    decreases node, 1nat,
{
    lemma_enter_extends(node, path, state);
    let end = walk_node(node, path, state)->Ok_0;
    match enter(node, path, state)->Ok_0 {
        Step::Done(next) => {},
        Step::Descend(next) => {
            lemma_walk_slots_extends(node.slots@, path, next);
            assert(end.out.subrange(0, state.out.len() as int) == end.out.subrange(
                0,
                next.out.len() as int,
            ).subrange(0, state.out.len() as int));
        },
    }
}

/// Every output begins with the prologue and ends with the epilogue.
pub proof fn lemma_module_frame(root: Node, path: Seq<char>)
    requires
        module_text(root, path) is Ok,
    ensures
        starts_with(module_text(root, path)->Ok_0, prologue()),
        ends_with(module_text(root, path)->Ok_0, epilogue()),
{
    lemma_walk_extends(root, path, WalkState::initial());
    let end = walk_node(root, path, WalkState::initial())->Ok_0;
    let text = finished(end);
    assert(text.subrange(0, prologue().len() as int) == end.out.subrange(
        0,
        prologue().len() as int,
    ));
    assert(text.subrange(text.len() - epilogue().len(), text.len() as int) == epilogue());
}

/// What entering a node that is not rewritten does: it writes the node's
/// text as whitespace, or it writes nothing and the children are walked. It
/// marks no token for skipping and exports no name.
pub proof fn lemma_enter_erases(node: Node, path: Seq<char>, state: WalkState)
    requires
        !is_rewritten(node.kind),
        state.skips == Set::<usize>::empty(),
        enter(node, path, state) is Ok,
    ensures
        match enter(node, path, state)->Ok_0 {
            Step::Done(next) => next.out == state.out + blanked(node.text()),
            Step::Descend(next) => next.out == state.out,
        },
        state_after(enter(node, path, state)->Ok_0).skips == Set::<usize>::empty(),
        state_after(enter(node, path, state)->Ok_0).exports == state.exports,
{
    let next = state_after(enter(node, path, state)->Ok_0);
    if node.kind is TS_AS_EXPRESSION || node.kind is TS_SATISFIES_EXPRESSION {
        let keyword = node.required_token(1)->Ok_0;
        let ty = node.required_node(2)->Ok_0;
        assert(state.blank(keyword.key).skips == Set::<usize>::empty());
        lemma_blank_all_marks_only(state.blank(keyword.key), ty.tokens());
    } else if node.kind is TS_TYPE_ASSERTION_EXPRESSION {
        let open = node.required_token(0)->Ok_0;
        let close = node.required_token(2)->Ok_0;
        let ty = node.required_node(1)->Ok_0;
        assert(state.blank(open.key).skips == Set::<usize>::empty());
        assert(state.blank(open.key).blank(close.key).skips == Set::<usize>::empty());
        lemma_blank_all_marks_only(state.blank(open.key).blank(close.key), ty.tokens());
    } else if node.kind is JS_FORMAL_PARAMETER {
        if node.token_at(2) is Some {
            assert(state.blank(node.token_at(2)->0.key).skips == Set::<usize>::empty());
        }
    } else if node.kind is TS_NON_NULL_ASSERTION_EXPRESSION {
        assert(state.blank(node.required_token(1)->Ok_0.key).skips == Set::<usize>::empty());
    }
    assert(next.skips == Set::<usize>::empty());
}

/// A walk over slots that hold nothing that is rewritten erases: see
/// `lemma_erasure_keeps_offsets`.
pub proof fn lemma_erasure_slots_keep_offsets(
    slots: Seq<Option<Syntax>>,
    path: Seq<char>,
    state: WalkState,
)
    requires
        rewrite_free_slots(slots),
        state.skips == Set::<usize>::empty(),
        walk_slots(slots, path, state) is Ok,
    ensures
        ({
            let end = walk_slots(slots, path, state)->Ok_0;
            &&& end.skips == Set::<usize>::empty()
            &&& end.exports == state.exports
            &&& starts_with(end.out, state.out)
            &&& erases(end.out.skip(state.out.len() as int), full_text(slots_tokens(slots)))
        }),
    decreases slots, 0nat,
{
    let end = walk_slots(slots, path, state)->Ok_0;
    lemma_walk_slots_extends(slots, path, state);
    if slots.len() == 0 {
    } else {
        lemma_slots_tokens_front(slots);
        let rest = slots.drop_first();
        let rest_text = full_text(slots_tokens(rest));
        match slots[0] {
            None => {
                lemma_erasure_slots_keep_offsets(rest, path, state);
                assert(Seq::<Token>::empty() + slots_tokens(rest) == slots_tokens(rest));
            },
            Some(Syntax::Token(token)) => {
                let next = state.visit(token);
                lemma_erasure_slots_keep_offsets(rest, path, next);
                lemma_full_text_concat(seq![token], slots_tokens(rest));
                lemma_full_text_single(token);
                let written = next.out.skip(state.out.len() as int);
                if state.blanks.contains(token.key) {
                    assert(written == blanked(token.full_text()));
                } else {
                    assert(written == token.full_text());
                }
                assert(erases(written, token.full_text()));
                lemma_erases_concat(
                    written,
                    token.full_text(),
                    end.out.skip(next.out.len() as int),
                    rest_text,
                );
                assert(end.out.skip(state.out.len() as int) == written + end.out.skip(
                    next.out.len() as int,
                )) by {
                    assert(end.out.subrange(0, next.out.len() as int) == next.out);
                }
            },
            Some(Syntax::Node(child)) => {
                lemma_first_slot_decreases(slots, child);
                lemma_erasure_keeps_offsets(child, path, state);
                let next = walk_node(child, path, state)->Ok_0;
                lemma_erasure_slots_keep_offsets(rest, path, next);
                lemma_full_text_concat(child.tokens(), slots_tokens(rest));
                let written = next.out.skip(state.out.len() as int);
                lemma_erases_concat(
                    written,
                    child.text(),
                    end.out.skip(next.out.len() as int),
                    rest_text,
                );
                assert(end.out.skip(state.out.len() as int) == written + end.out.skip(
                    next.out.len() as int,
                )) by {
                    assert(end.out.subrange(0, next.out.len() as int) == next.out);
                    assert(next.out.subrange(0, state.out.len() as int) == state.out);
                }
            },
        }
    }
}

/// Erasure keeps offsets: a walk over a node that holds nothing that is
/// rewritten writes a text as long as the node's, in which each character of
/// the node stands at its offset, as it was or blanked. The walk marks no
/// token for skipping and exports no name.
pub proof fn lemma_erasure_keeps_offsets(node: Node, path: Seq<char>, state: WalkState)
    requires
        is_rewrite_free(node),
        state.skips == Set::<usize>::empty(),
        walk_node(node, path, state) is Ok,
    ensures
        ({
            let end = walk_node(node, path, state)->Ok_0;
            &&& end.skips == Set::<usize>::empty()
            &&& end.exports == state.exports
            &&& starts_with(end.out, state.out)
            &&& erases(end.out.skip(state.out.len() as int), node.text())
        }),
    decreases node, 1nat,
{
    let end = walk_node(node, path, state)->Ok_0;
    lemma_walk_extends(node, path, state);
    lemma_enter_erases(node, path, state);
    match enter(node, path, state)->Ok_0 {
        Step::Done(next) => {
            assert(end.out.skip(state.out.len() as int) == blanked(node.text()));
        },
        Step::Descend(next) => {
            lemma_erasure_slots_keep_offsets(node.slots@, path, next);
        },
    }
}

/// The body of the output for the module with the tree `root` at `path`:
/// what stands after the prologue when the walk has ended.
pub open spec fn module_body(root: Node, path: Seq<char>) -> Seq<char> {
    walk_node(root, path, WalkState::initial())->Ok_0.out.skip(prologue().len() as int)
}

/// Offsets and lines under erasure: where a module holds no `import`, no
/// `export` and no `import.meta`, its output is the prologue, a body and the
/// epilogue; the body is as long as the source, each character of the
/// source stands in it at its offset, as it was or blanked, and the line
/// feeds are where they were, and as many.
pub proof fn lemma_erasure_keeps_offsets_and_lines(root: Node, path: Seq<char>)
    requires
        is_rewrite_free(root),
        module_text(root, path) is Ok,
    ensures
        module_text(root, path)->Ok_0 == prologue() + module_body(root, path) + epilogue(),
        module_body(root, path).len() == root.text().len(),
        erases(module_body(root, path), root.text()),
        forall|i: int|
            0 <= i < root.text().len() ==> (#[trigger] module_body(root, path)[i] == '\n'
                <==> root.text()[i] == '\n'),
        newline_count(module_body(root, path)) == newline_count(root.text()),
{
    let start = WalkState::initial();
    lemma_erasure_keeps_offsets(root, path, start);
    let end = walk_node(root, path, start)->Ok_0;
    lemma_erases_keeps_line_feeds(module_body(root, path), root.text());
    assert(footer(end.exports) == Seq::<char>::empty());
    assert(end.out == prologue() + module_body(root, path)) by {
        assert(end.out.subrange(0, prologue().len() as int) == prologue());
    }
    assert(finished(end) == prologue() + module_body(root, path) + epilogue());
}

/// The text of a row of tokens is the trivia before the first of them, the
/// trimmed text, and the trivia after the last.
pub proof fn lemma_trimmed_text_within_trivia(tokens: Seq<Token>)
    ensures
        full_text(tokens) == within_trivia(tokens, trimmed_text(tokens)),
{
    if tokens.len() == 0 {
    } else if tokens.len() == 1 {
        assert(tokens == seq![tokens[0]]);
        lemma_full_text_single(tokens[0]);
    } else {
        let first = tokens[0];
        let last = tokens.last();
        let middle = tokens.subrange(1, tokens.len() - 1);
        assert(tokens == seq![first] + middle + seq![last]);
        lemma_full_text_concat(seq![first] + middle, seq![last]);
        lemma_full_text_concat(seq![first], middle);
        lemma_full_text_single(first);
        lemma_full_text_single(last);
        assert(full_text(tokens) == first.full_text() + full_text(middle) + last.full_text());
    }
}

/// The object that replaces a call `import(..)` is as long as the call.
pub proof fn lemma_import_call_keeps_length(tokens: Seq<Token>)
    requires
        import_call_text(tokens) is Ok,
    ensures
        import_call_text(tokens)->Ok_0.len() == full_text(tokens).len(),
{
    lemma_trimmed_text_within_trivia(tokens);
}

/// By how much reaching `token` in `state` changes the length of the text: a
/// token that is left out takes its length away.
pub open spec fn token_delta(token: Token, state: WalkState) -> int {
    if !state.blanks.contains(token.key) && state.skips.contains(token.key) {
        -token.full_text().len()
    } else {
        0
    }
}

/// By how much a walk over the given slots changes the length of the text:
/// the sum of the changes at each token and node.
pub open spec fn slots_delta(slots: Seq<Option<Syntax>>, path: Seq<char>, state: WalkState) -> int
    decreases slots, 0nat,
{
    if slots.len() == 0 {
        0
    } else {
        match slots[0] {
            None => slots_delta(slots.drop_first(), path, state),
            Some(Syntax::Token(token)) => token_delta(token, state) + slots_delta(
                slots.drop_first(),
                path,
                state.visit(token),
            ),
            Some(Syntax::Node(child)) => node_delta(child, path, state) + match walk_node(
                child,
                path,
                state,
            ) {
                Ok(next) => slots_delta(slots.drop_first(), path, next),
                Err(_) => 0,
            },
        }
    }
}

/// By how much a walk over `node` changes the length of the text: where the
/// node is replaced, the length of what replaces it less the length of the
/// node; else the length of what entering the node writes, and the changes
/// below the node.
pub open spec fn node_delta(node: Node, path: Seq<char>, state: WalkState) -> int
    decreases node, 1nat,
{
    match enter(node, path, state) {
        Err(_) => 0,
        Ok(Step::Done(next)) => next.out.len() - state.out.len() - node.text().len(),
        Ok(Step::Descend(next)) => next.out.len() - state.out.len() + slots_delta(
            node.slots@,
            path,
            next,
        ),
    }
}

/// See `lemma_walk_length`.
pub proof fn lemma_walk_slots_length(slots: Seq<Option<Syntax>>, path: Seq<char>, state: WalkState)
    requires
        walk_slots(slots, path, state) is Ok,
    ensures
        walk_slots(slots, path, state)->Ok_0.out.len() == state.out.len() + full_text(
            slots_tokens(slots),
        ).len() + slots_delta(slots, path, state),
    decreases slots, 0nat,
{
    if slots.len() > 0 {
        lemma_slots_tokens_front(slots);
        let rest = slots.drop_first();
        match slots[0] {
            None => {
                lemma_walk_slots_length(rest, path, state);
                assert(Seq::<Token>::empty() + slots_tokens(rest) == slots_tokens(rest));
            },
            Some(Syntax::Token(token)) => {
                lemma_walk_slots_length(rest, path, state.visit(token));
                lemma_full_text_concat(seq![token], slots_tokens(rest));
                lemma_full_text_single(token);
            },
            Some(Syntax::Node(child)) => {
                lemma_first_slot_decreases(slots, child);
                lemma_walk_length(child, path, state);
                lemma_walk_slots_length(rest, path, walk_node(child, path, state)->Ok_0);
                lemma_full_text_concat(child.tokens(), slots_tokens(rest));
            },
        }
    }
}

/// Offsets under rewriting: a walk over a node writes as many characters as
/// the node holds, and as many more as the rewrites in it add. A token that
/// is blanked and a node that is erased add none.
pub proof fn lemma_walk_length(node: Node, path: Seq<char>, state: WalkState)
    requires
        walk_node(node, path, state) is Ok,
    ensures
        walk_node(node, path, state)->Ok_0.out.len() == state.out.len() + node.text().len()
            + node_delta(node, path, state),
    decreases node, 1nat,
{
    match enter(node, path, state)->Ok_0 {
        Step::Done(next) => {},
        Step::Descend(next) => {
            lemma_walk_slots_length(node.slots@, path, next);
        },
    }
}

/// See `lemma_erasure_adds_nothing`.
pub proof fn lemma_erasure_slots_add_nothing(
    slots: Seq<Option<Syntax>>,
    path: Seq<char>,
    state: WalkState,
)
    requires
        rewrite_free_slots(slots),
        state.skips == Set::<usize>::empty(),
        walk_slots(slots, path, state) is Ok,
    ensures
        slots_delta(slots, path, state) == 0,
    decreases slots, 0nat,
{
    if slots.len() > 0 {
        let rest = slots.drop_first();
        match slots[0] {
            None => {
                lemma_erasure_slots_add_nothing(rest, path, state);
            },
            Some(Syntax::Token(token)) => {
                lemma_erasure_slots_add_nothing(rest, path, state.visit(token));
            },
            Some(Syntax::Node(child)) => {
                lemma_first_slot_decreases(slots, child);
                lemma_erasure_adds_nothing(child, path, state);
                lemma_erasure_keeps_offsets(child, path, state);
                lemma_erasure_slots_add_nothing(rest, path, walk_node(child, path, state)->Ok_0);
            },
        }
    }
}

/// A walk over a node that holds nothing that is rewritten changes no
/// length.
pub proof fn lemma_erasure_adds_nothing(node: Node, path: Seq<char>, state: WalkState)
    requires
        is_rewrite_free(node),
        state.skips == Set::<usize>::empty(),
        walk_node(node, path, state) is Ok,
    ensures
        node_delta(node, path, state) == 0,
    decreases node, 1nat,
{
    lemma_enter_erases(node, path, state);
    match enter(node, path, state)->Ok_0 {
        Step::Done(next) => {},
        Step::Descend(next) => {
            lemma_erasure_slots_add_nothing(node.slots@, path, next);
        },
    }
}

/// Offset preservation: the body of the output is as long as the source and
/// what the rewrites add; where the module holds no `import`, no `export` and
/// no `import.meta`, they add nothing.
pub proof fn lemma_module_body_length(root: Node, path: Seq<char>)
    requires
        module_text(root, path) is Ok,
    ensures
        module_body(root, path).len() == root.text().len() + node_delta(
            root,
            path,
            WalkState::initial(),
        ),
        is_rewrite_free(root) ==> node_delta(root, path, WalkState::initial()) == 0,
{
    lemma_walk_length(root, path, WalkState::initial());
    lemma_walk_extends(root, path, WalkState::initial());
    if is_rewrite_free(root) {
        lemma_erasure_adds_nothing(root, path, WalkState::initial());
    }
}

/// Whether `export` is `export default` with a value: an expression, a
/// class or a function.
pub open spec fn is_default_export(export: Node) -> bool {
    export.kind is JS_EXPORT && match export.node_at(2) {
        Some(clause) => clause.kind is JS_EXPORT_DEFAULT_EXPRESSION_CLAUSE || (clause.kind
            is JS_EXPORT_DEFAULT_DECLARATION_CLAUSE && match clause.node_at(1) {
            Some(declaration) => declaration.kind is JS_CLASS_EXPORT_DEFAULT_DECLARATION
                || declaration.kind is JS_FUNCTION_EXPORT_DEFAULT_DECLARATION,
            None => false,
        }),
        None => false,
    }
}

/// `export default` with a value: the walk over the declaration writes first
/// the trivia that stands before `export`, then the assignment to the default
/// export. The two keywords are marked for skipping unless they are marked
/// for blanking, and a token that is marked for skipping only is not written.
pub proof fn lemma_default_export_is_assigned(export: Node, path: Seq<char>, state: WalkState)
    requires
        is_default_export(export),
        walk_node(export, path, state) is Ok,
    ensures
        export.token_at(1) is Some,
        export.node_at(2)->0.token_at(0) is Some,
        starts_with(
            walk_node(export, path, state)->Ok_0.out,
            state.out + export.token_at(1)->0.leading@ + default_export_prefix(),
        ),
        ({
            let entered = state_after(enter(export, path, state)->Ok_0);
            let keyword = export.token_at(1)->0;
            let default = export.node_at(2)->0.token_at(0)->0;
            &&& entered.blanks == state.blanks
            &&& !state.blanks.contains(keyword.key) ==> entered.skips.contains(keyword.key)
            &&& !state.blanks.contains(default.key) ==> entered.skips.contains(default.key)
        }),
        forall|token: Token, before: WalkState|
            !before.blanks.contains(token.key) && before.skips.contains(token.key)
                ==> #[trigger] before.visit(token).out == before.out,
{
    let keyword = export.token_at(1)->0;
    let written = keyword.leading@ + default_export_prefix();
    let end = walk_node(export, path, state)->Ok_0;
    match enter(export, path, state)->Ok_0 {
        Step::Done(next) => {},
        Step::Descend(next) => {
            assert(next.out == state.out + written);
            assert(state.out + written == state.out + keyword.leading@ + default_export_prefix());
            lemma_walk_slots_extends(export.slots@, path, next);
        },
    }
}

/// Round trip of a source without types: where the tree that the parser
/// gives for a source holds no TypeScript syntax and nothing that is
/// rewritten, the source is transformed into itself between the prologue and
/// the epilogue.
pub proof fn lemma_source_round_trip(source: Seq<char>, path: Seq<char>, root: Node)
    requires
        is_tree_of(source, root),
        is_plain(root),
    ensures
        module_text(root, path) == Ok::<Seq<char>, TransformError>(
            prologue() + source + epilogue(),
        ),
{
    lemma_plain_module_round_trip(root, path);
}

/// Offsets and lines of a source under erasure: where the tree that the
/// parser gives for a source holds no `import`, no `export` and no
/// `import.meta`, the body of the output is as long as the source, each
/// character of the source stands in it at its offset, as it was or blanked,
/// and the line feeds are where they were, and as many.
pub proof fn lemma_source_keeps_offsets_and_lines(source: Seq<char>, path: Seq<char>, root: Node)
    requires
        is_tree_of(source, root),
        is_rewrite_free(root),
        module_text(root, path) is Ok,
    ensures
        module_text(root, path)->Ok_0 == prologue() + module_body(root, path) + epilogue(),
        module_body(root, path).len() == source.len(),
        erases(module_body(root, path), source),
        forall|i: int|
            0 <= i < source.len() ==> (#[trigger] module_body(root, path)[i] == '\n' <==> source[i]
                == '\n'),
        newline_count(module_body(root, path)) == newline_count(source),
{
    lemma_erasure_keeps_offsets_and_lines(root, path);
}

/// Offsets of a source under rewriting: the body of the output is as long as
/// the source and what the rewrites in its tree add.
pub proof fn lemma_source_body_length(source: Seq<char>, path: Seq<char>, root: Node)
    requires
        is_tree_of(source, root),
        module_text(root, path) is Ok,
    ensures
        module_body(root, path).len() == source.len() + node_delta(
            root,
            path,
            WalkState::initial(),
        ),
{
    lemma_module_body_length(root, path);
}

} // verus!

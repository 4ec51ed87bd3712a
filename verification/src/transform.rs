//! The walk over a tree, and the text of the module that it leaves.

use vstd::prelude::*;
use crate::builder::{build_tree, is_numbered, lemma_shape_text, shape_of, shape_text, tree_shape};
use crate::error::{error_text, TransformError};
use crate::gateway::{join_lines, parse_plain, parsed_events, parsed_lines, Event};
use crate::laws::{ends_with, lemma_module_frame, starts_with};
use crate::names::{matches_text, text_view};
use crate::policy::{enter, Step};
use crate::state::{prologue, WalkState, Walker};
use crate::text::{joined, views};
use crate::tree::{lemma_child_decreases, text_of, Node, Syntax};

verus! {

/// The state in which a walk over the given slots, from left to right, ends
/// if it starts in `state`.
pub open spec fn walk_slots(slots: Seq<Option<Syntax>>, path: Seq<char>, state: WalkState) -> Result<
    WalkState,
    TransformError,
>
    decreases slots, 0nat,
{
    if slots.len() == 0 {
        Ok(state)
    } else {
        match slots[0] {
            None => walk_slots(slots.drop_first(), path, state),
            Some(Syntax::Token(token)) => walk_slots(
                slots.drop_first(),
                path,
                state.visit(token),
            ),
            Some(Syntax::Node(node)) => match walk_node(node, path, state) {
                Err(error) => Err(error),
                Ok(next) => walk_slots(slots.drop_first(), path, next),
            },
        }
    }
}

/// The state in which a walk over `node` ends if it starts in `state`: the
/// node is entered, and its children are walked unless entering it has done
/// with it. The walk fails where it enters a node that is not supported or
/// that lacks a child it needs.
pub open spec fn walk_node(node: Node, path: Seq<char>, state: WalkState) -> Result<
    WalkState,
    TransformError,
>
    decreases node, 1nat,
{
    match enter(node, path, state) {
        Err(error) => Err(error),
        Ok(Step::Done(next)) => Ok(next),
        Ok(Step::Descend(next)) => walk_slots(node.slots@, path, next),
    }
}

/// What every output ends with.
pub open spec fn epilogue() -> Seq<char> {
    "\n})"@
}

/// The line that attaches one declared name to the module's exports.
pub open spec fn export_line(name: Seq<char>) -> Seq<char> {
    "module.exports."@ + name + " = "@ + name + ";\n"@
}

/// The lines that attach the given names to the module's exports.
pub open spec fn export_lines(names: Seq<Seq<char>>) -> Seq<char>
    decreases names.len(),
{
    if names.len() == 0 {
        Seq::empty()
    } else {
        export_lines(names.drop_last()) + export_line(names.last())
    }
}

/// What follows the body of the module: nothing if no declaration was
/// exported, else a line feed and one line for each exported name.
pub open spec fn footer(names: Seq<Seq<char>>) -> Seq<char> {
    if names.len() == 0 {
        Seq::empty()
    } else {
        seq!['\n'] + export_lines(names)
    }
}

/// The text that a walk leaves when it ends in `state`.
pub open spec fn finished(state: WalkState) -> Seq<char> {
    state.out + footer(state.exports) + epilogue()
}

/// The text that the module with the tree `root` at `path` is transformed
/// into.
pub open spec fn module_text(root: Node, path: Seq<char>) -> Result<Seq<char>, TransformError> {
    match walk_node(root, path, WalkState::initial()) {
        Err(error) => Err(error),
        Ok(state) => Ok(finished(state)),
    }
}

/// How the outcome of a walk answers to its description.
pub open spec fn walked(
    done: Result<(), TransformError>,
    after: WalkState,
    expected: Result<WalkState, TransformError>,
) -> bool {
    match done {
        Ok(_) => expected == Ok::<WalkState, TransformError>(after),
        Err(error) => expected == Err::<WalkState, TransformError>(error),
    }
}

impl Walker {
    /// Walks over `node`; the module is at `path`.
    pub fn walk(&mut self, node: &Node, path: &str) -> (done: Result<(), TransformError>)
        ensures
            walked(done, final(self)@, walk_node(*node, path@, old(self)@)),
            old(self)@.well_formed() && done is Ok ==> final(self)@.well_formed(),
        decreases node,
    {
        if !self.enter(node, path)? {
            return Ok(());
        }
        let ghost entered = self@;
        let mut index: usize = 0;
        assert(node.slots@.skip(0) == node.slots@);
        while index < node.slots.len()
            invariant
                index <= node.slots.len(),
                walk_node(*node, path@, old(self)@) == walk_slots(node.slots@, path@, entered),
                walk_slots(node.slots@.skip(index as int), path@, self@) == walk_slots(
                    node.slots@,
                    path@,
                    entered,
                ),
                entered.well_formed() ==> self@.well_formed(),
            decreases node.slots.len() - index,
        {
            proof {
                let rest = node.slots@.skip(index as int);
                assert(rest[0] == node.slots@[index as int]);
                assert(rest.drop_first() == node.slots@.skip(index + 1));
            }
            match &node.slots[index] {
                Some(Syntax::Token(token)) => {
                    self.visit(token);
                },
                Some(Syntax::Node(child)) => {
                    proof {
                        lemma_child_decreases(*node, index as int, *child);
                    }
                    self.walk(child, path)?;
                },
                None => {},
            }
            index = index + 1;
        }
        Ok(())
    }

    /// Ends the walk: gives the output with the lines that attach the
    /// exported names, and the epilogue.
    pub fn finish(self) -> (text: String)
        ensures
            text@ == finished(self@),
    {
        let mut text = self.buf;
        let names = self.exports;
        if names.len() > 0 {
            let ghost body = text@;
            text.push('\n');
            let mut index: usize = 0;
            while index < names.len()
                invariant
                    index <= names.len(),
                    text@ == body + seq!['\n'] + export_lines(views(names@).take(index as int)),
                decreases names.len() - index,
            {
                proof {
                    let next = views(names@).take(index + 1);
                    assert(next.drop_last() == views(names@).take(index as int));
                    assert(next.last() == names@[index as int]@);
                }
                text.push_str("module.exports.");
                text.push_str(names[index].as_str());
                text.push_str(" = ");
                text.push_str(names[index].as_str());
                text.push_str(";\n");
                index = index + 1;
            }
            proof {
                assert(views(names@).take(names.len() as int) == views(names@));
            }
        }
        text.push_str("\n})");
        text
    }
}

/// Whether `text` is written between the prologue and the epilogue.
pub open spec fn is_framed(text: Seq<char>) -> bool {
    starts_with(text, prologue()) && ends_with(text, epilogue())
}

/// Transforms the module with the tree `root` at `path`. The text that it
/// gives begins with the prologue and ends with the epilogue.
pub fn transform_tree(root: &Node, path: &str) -> (found: Result<String, TransformError>)
    ensures
        matches_text(found, module_text(*root, path@)),
        found is Ok ==> is_framed(found->Ok_0@),
{
    let mut walker = Walker::new();
    walker.walk(root, path)?;
    let text = walker.finish();
    proof {
        lemma_module_frame(*root, path@);
    }
    Ok(text)
}

/// Whether `root` is the tree of the module with the source text `source`:
/// the events that the parser gives for the source make it up, and its tokens
/// give back the source.
pub open spec fn is_tree_of(source: Seq<char>, root: Node) -> bool {
    tree_shape(parsed_events(source)) == Some(shape_of(Syntax::Node(root))) && root.text()
        == source
}

/// Whether `found` is the outcome of transforming the module with the source
/// text `source` at `path`. Where the parser raises diagnostics, the outcome
/// is the failure that holds them, one per line. Else, where the parser's
/// events make up no tree, or one that does not give back the source, the
/// outcome is the failure of a malformed tree. Else it is what the tree is
/// transformed into.
pub open spec fn is_outcome(
    source: Seq<char>,
    path: Seq<char>,
    found: Result<Seq<char>, TransformError>,
) -> bool {
    if parsed_lines(source).len() > 0 {
        found matches Err(error) && error is Parse && error_text(error) == joined(
            parsed_lines(source),
            "\n"@,
        )
    } else if tree_shape(parsed_events(source)) is None || shape_text(
        tree_shape(parsed_events(source))->0,
    ) != source {
        found == Err::<Seq<char>, TransformError>(TransformError::Malformed)
    } else {
        exists|root: Node| is_tree_of(source, root) && #[trigger] module_text(root, path) == found
    }
}

/// Refuses a module for which the parser has reported diagnostics: the error
/// holds them, one per line.
pub fn check_diagnostics(lines: &Vec<String>) -> (checked: Result<(), TransformError>)
    ensures
        match checked {
            Ok(_) => lines@.len() == 0,
            Err(error) => lines@.len() > 0 && error_text(error) == joined(views(lines@), "\n"@)
                && error is Parse,
        },
{
    if lines.len() == 0 {
        Ok(())
    } else {
        Err(TransformError::Parse(join_lines(lines)))
    }
}

/// Refuses a tree whose tokens do not give back the source text.
pub fn check_lossless(root: &Node, source: &str) -> (checked: Result<(), TransformError>)
    ensures
        match checked {
            Ok(_) => root.text() == source@,
            Err(error) => root.text() != source@ && error == TransformError::Malformed,
        },
{
    let text = text_of(&root.token_list());
    if text.as_str().eq(source) {
        Ok(())
    } else {
        Err(TransformError::Malformed)
    }
}

/// Gives the tree of the module with the source text `source`, for which the
/// parser has reported the diagnostics `lines` and the events `events`. The
/// tokens of the tree are numbered in document order. Fails with the
/// diagnostics if there are any; else fails if the events make up no tree, or
/// one that does not give back the source.
pub fn tree_from_parse(source: &str, lines: &Vec<String>, events: &Vec<Event>) -> (found: Result<
    Node,
    TransformError,
>)
    ensures
        match found {
            Ok(root) => {
                &&& lines@.len() == 0
                &&& tree_shape(events@) == Some(shape_of(Syntax::Node(root)))
                &&& root.text() == source@
                &&& is_numbered(root.tokens(), 0)
            },
            Err(error) => if lines@.len() > 0 {
                error is Parse && error_text(error) == joined(views(lines@), "\n"@)
            } else {
                &&& error == TransformError::Malformed
                &&& tree_shape(events@) is Some ==> shape_text(tree_shape(events@)->0) != source@
            },
        },
{
    check_diagnostics(lines)?;
    let root = build_tree(events)?;
    proof {
        lemma_shape_text(Syntax::Node(root));
    }
    check_lossless(&root, source)?;
    Ok(root)
}

/// Parses `source` as a TypeScript module and gives its tree, with the
/// tokens numbered in document order. Fails with the diagnostics if the
/// parser raises any; else fails if the parser's events make up no tree, or
/// one that does not give back the source.
pub fn parse_tree(source: &str) -> (found: Result<Node, TransformError>)
    ensures
        match found {
            Ok(root) => {
                &&& parsed_lines(source@).len() == 0
                &&& is_tree_of(source@, root)
                &&& is_numbered(root.tokens(), 0)
            },
            Err(error) => if parsed_lines(source@).len() > 0 {
                error is Parse && error_text(error) == joined(parsed_lines(source@), "\n"@)
            } else {
                &&& error == TransformError::Malformed
                &&& tree_shape(parsed_events(source@)) is Some ==> shape_text(
                    tree_shape(parsed_events(source@))->0,
                ) != source@
            },
        },
{
    let parsed = parse_plain(source);
    tree_from_parse(source, &parsed.0, &parsed.1)
}

/// Transforms the module with the source text `source` at `path`: parses the
/// source as TypeScript and transforms the tree. A text that it gives begins
/// with the prologue and ends with the epilogue.
pub fn transform_impl(source: &str, path: &str) -> (found: Result<String, TransformError>)
    ensures
        is_outcome(source@, path@, text_view(found)),
        found is Ok ==> is_framed(found->Ok_0@),
{
    let root = parse_tree(source)?;
    let found = transform_tree(&root, path);
    proof {
        lemma_shape_text(Syntax::Node(root));
        assert(is_tree_of(source@, root));
        assert(module_text(root, path@) == text_view(found));
    }
    found
}

/// What goes over the boundary for an outcome: the text and `1` where the
/// transformation has succeeded, the error's message and `2` where it has not.
pub open spec fn tagged_text(found: Result<Seq<char>, TransformError>) -> Seq<char> {
    match found {
        Ok(text) => text.push('1'),
        Err(error) => error_text(error).push('2'),
    }
}

/// The status at the end of what goes over the boundary tells success from
/// failure: it is `1` after success and `2` after failure, and nothing else.
pub proof fn lemma_status(found: Result<Seq<char>, TransformError>)
    ensures
        tagged_text(found).len() > 0,
        tagged_text(found).last() == '1' <==> found is Ok,
        tagged_text(found).last() == '2' <==> found is Err,
{
}

/// Gives the message of a failure as it goes over the boundary: with `2` at
/// its end.
pub fn tagged_failure(message: String) -> (text: String)
    ensures
        text@ == message@.push('2'),
{
    let mut text = message;
    text.push('2');
    text
}

/// Gives what goes over the boundary for an outcome.
pub fn tagged(found: Result<String, TransformError>) -> (text: String)
    ensures
        text@ == tagged_text(text_view(found)),
{
    match found {
        Ok(text) => {
            let mut text = text;
            text.push('1');
            text
        },
        Err(error) => tagged_failure(error.message()),
    }
}

/// Transforms the module with the source text `source` at `path`, and gives
/// what goes over the boundary: the outcome of the transformation with its
/// status, `1` after success and `2` after failure, at the end.
pub fn transform(source: &str, path: &str) -> (text: String)
    ensures
        exists|found: Result<Seq<char>, TransformError>|
            {
                &&& is_outcome(source@, path@, found)
                &&& #[trigger] tagged_text(found) == text@
                &&& found is Ok ==> is_framed(found->Ok_0)
            },
{
    let found = transform_impl(source, path);
    proof {
        let outcome = text_view(found);
        assert(tagged_text(outcome) == tagged_text(text_view(found)));
    }
    tagged(found)
}

} // verus!

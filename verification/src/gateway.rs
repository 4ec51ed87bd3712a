//! The way to the parser: `biome_js_parser` reads a module as TypeScript, and
//! what it has read comes over as plain values: the diagnostics as lines, the
//! tree as a row of events.

use vstd::prelude::*;
use biome_js_parser::{parse, JsParserOptions};
use biome_js_syntax::{JsFileSource, JsSyntaxKind};
use biome_rowan::{Direction, NodeOrToken, WalkEvent};
use itertools::Itertools;
use crate::text::{joined, views};

verus! {

/// One step of a walk over a syntax tree in document order.
#[derive(Debug)]
pub enum Event {
    /// A node begins. It has one slot for each flag, and a child in each slot
    /// whose flag is set.
    Enter(JsSyntaxKind, Vec<bool>),
    /// A token, with the trivia before and after it.
    Token { kind: JsSyntaxKind, leading: String, text: String, trailing: String },
    /// The node or the token that began last, and has not ended yet, ends.
    Leave,
}

impl Event {
    /// The event of a token of the kind `kind` with the text `text`, between
    /// the trivia `leading` and `trailing`.
    pub fn token(kind: JsSyntaxKind, leading: &str, text: &str, trailing: &str) -> (event: Event)
        ensures
            event matches Event::Token { kind: k, leading: l, text: t, trailing: r } && k == kind
                && l@ == leading@ && t@ == text@ && r@ == trailing@,
    {
        Event::Token {
            kind,
            leading: leading.to_owned(),
            text: text.to_owned(),
            trailing: trailing.to_owned(),
        }
    }
}

/// The diagnostics that `biome_js_parser::parse` raises for a source text
/// read as a TypeScript module, each rendered by its `Debug` form. The parser
/// reads nothing but the source, so they depend on the source alone.
pub uninterp spec fn parsed_lines(source: Seq<char>) -> Seq<Seq<char>>;

/// The events of a walk in document order over the tree that
/// `biome_js_parser::parse` gives for a source text read as a TypeScript
/// module. They depend on the source alone.
pub uninterp spec fn parsed_events(source: Seq<char>) -> Seq<Event>;

/// `biome_js_parser::parse`, for a TypeScript module with the parser's default
/// options, with what it gives turned into plain values: the diagnostics of
/// `Parse::diagnostics` as lines, and the events of
/// `SyntaxNode::preorder_with_tokens` on the root. A node comes with the flags
/// of `SyntaxNode::slots` (is the slot filled?), a token with its kind, its
/// trimmed text and the text of its leading and trailing trivia. The contract
/// claims only that both are what the parser gives for this source.
#[verifier::external_body]
pub(crate) fn parse_plain(source: &str) -> (parsed: (Vec<String>, Vec<Event>))
    ensures
        views(parsed.0@) == parsed_lines(source@),
        parsed.1@ == parsed_events(source@),
{
    let parsed = parse(source, JsFileSource::ts(), JsParserOptions::default());
    let lines = parsed.diagnostics().iter().map(|diagnostic| format!("{diagnostic:?}")).collect();
    let events = parsed.syntax().preorder_with_tokens(Direction::Next).map(|event| match event {
        WalkEvent::Enter(NodeOrToken::Node(node)) => {
            Event::Enter(node.kind(), node.slots().map(|slot| slot.kind().is_some()).collect())
        },
        WalkEvent::Enter(NodeOrToken::Token(token)) => Event::token(
            token.kind(),
            token.leading_trivia().text(),
            token.text_trimmed(),
            token.trailing_trivia().text(),
        ),
        WalkEvent::Leave(_) => Event::Leave,
    });
    (lines, events.collect())
}

/// `Itertools::join` with a line feed as the separator: the lines, one after
/// the other, with a line feed between each two of them.
#[verifier::external_body]
pub(crate) fn join_lines(lines: &Vec<String>) -> (text: String)
    ensures
        text@ == joined(views(lines@), "\n"@),
{
    lines.iter().join("\n")
}

} // verus!

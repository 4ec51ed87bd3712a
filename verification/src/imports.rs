//! Rewriting of static `import` declarations into `require` calls.

use vstd::prelude::*;
use biome_js_syntax::JsSyntaxKind;
use crate::error::TransformError;
use crate::names::{
    binding_name_at, binding_name_in, elements_of, inner_name_at, inner_name_in, list_elements,
    matches_text, matches_texts, name_at, name_in, node_referents,
};
use crate::text::{join, joined, views};
use crate::tree::Node;

verus! {

/// `require('source');`
pub open spec fn bare_import_text(source: Seq<char>) -> Seq<char> {
    "require('"@ + source + "');"@
}

/// `const name = require('source').default;`
pub open spec fn default_import_text(name: Seq<char>, source: Seq<char>) -> Seq<char> {
    "const "@ + name + " = require('"@ + source + "').default;"@
}

/// `const name = require('source');`
pub open spec fn namespace_import_text(name: Seq<char>, source: Seq<char>) -> Seq<char> {
    "const "@ + name + " = require('"@ + source + "');"@
}

/// `const { entries } = require('source');`
pub open spec fn named_import_text(entries: Seq<Seq<char>>, source: Seq<char>) -> Seq<char> {
    "const { "@ + joined(entries, ", "@) + " } = require('"@ + source + "');"@
}

/// `const namespace = require('source'); const name = namespace.default;`
pub open spec fn combined_namespace_import_text(
    name: Seq<char>,
    namespace: Seq<char>,
    source: Seq<char>,
) -> Seq<char> {
    namespace_import_text(namespace, source) + " const "@ + name + " = "@ + namespace
        + ".default;"@
}

/// `name: local`
pub open spec fn renamed_entry(name: Seq<char>, local: Seq<char>) -> Seq<char> {
    name + ": "@ + local
}

/// The entry that one named import specifier contributes to the destructuring
/// pattern; none if the specifier imports a type.
pub open spec fn import_entry(specifier: Node) -> Result<Option<Seq<char>>, TransformError> {
    match specifier.kind {
        JsSyntaxKind::JS_NAMED_IMPORT_SPECIFIER => if specifier.token_at(0) is Some {
            Ok(None)
        } else {
            match name_at(specifier, 1) {
                Err(error) => Err(error),
                Ok(name) => match binding_name_at(specifier, 3) {
                    Err(error) => Err(error),
                    Ok(local) => Ok(Some(renamed_entry(name, local))),
                },
            }
        },
        JsSyntaxKind::JS_SHORTHAND_NAMED_IMPORT_SPECIFIER => if specifier.token_at(0) is Some {
            Ok(None)
        } else {
            match binding_name_at(specifier, 1) {
                Err(error) => Err(error),
                Ok(local) => Ok(Some(renamed_entry(local, local))),
            }
        },
        _ => Err(TransformError::Malformed),
    }
}

/// The entries that the given specifiers contribute, in their order.
pub open spec fn import_entries(specifiers: Seq<Node>) -> Result<Seq<Seq<char>>, TransformError>
    decreases specifiers.len(),
{
    if specifiers.len() == 0 {
        Ok(Seq::empty())
    } else {
        match import_entries(specifiers.drop_last()) {
            Err(error) => Err(error),
            Ok(before) => match import_entry(specifiers.last()) {
                Err(error) => Err(error),
                Ok(Some(entry)) => Ok(before.push(entry)),
                Ok(None) => Ok(before),
            },
        }
    }
}

/// The entries of the named specifiers `{ a, b as c }`.
pub open spec fn named_import_entries(specifiers: Node) -> Result<
    Seq<Seq<char>>,
    TransformError,
> {
    match specifiers.required_node(1) {
        Err(error) => Err(error),
        Ok(list) => match list_elements(list.slots@) {
            Err(error) => Err(error),
            Ok(nodes) => import_entries(nodes),
        },
    }
}

/// The local name of the specifier in the slot `slot` of `clause`, which the
/// specifier holds in its slot `name_slot`.
pub open spec fn specifier_name(clause: Node, slot: int, name_slot: int) -> Result<
    Seq<char>,
    TransformError,
> {
    match clause.required_node(slot) {
        Err(error) => Err(error),
        Ok(specifier) => binding_name_at(specifier, name_slot),
    }
}

/// What replaces `import "source"`.
pub open spec fn bare_clause_text(clause: Node) -> Result<Seq<char>, TransformError> {
    match inner_name_at(clause, 0) {
        Err(error) => Err(error),
        Ok(source) => Ok(bare_import_text(source)),
    }
}

/// What replaces `import name from "source"`.
pub open spec fn default_clause_text(clause: Node) -> Result<Seq<char>, TransformError> {
    match specifier_name(clause, 1, 0) {
        Err(error) => Err(error),
        Ok(name) => match inner_name_at(clause, 3) {
            Err(error) => Err(error),
            Ok(source) => Ok(default_import_text(name, source)),
        },
    }
}

/// What replaces `import { a, b as c } from "source"`.
pub open spec fn named_clause_text(clause: Node) -> Result<Seq<char>, TransformError> {
    match clause.required_node(1) {
        Err(error) => Err(error),
        Ok(specifiers) => match named_import_entries(specifiers) {
            Err(error) => Err(error),
            Ok(entries) => match inner_name_at(clause, 3) {
                Err(error) => Err(error),
                Ok(source) => Ok(named_import_text(entries, source)),
            },
        },
    }
}

/// What replaces `import * as name from "source"`.
pub open spec fn namespace_clause_text(clause: Node) -> Result<Seq<char>, TransformError> {
    match specifier_name(clause, 1, 2) {
        Err(error) => Err(error),
        Ok(name) => match inner_name_at(clause, 3) {
            Err(error) => Err(error),
            Ok(source) => Ok(namespace_import_text(name, source)),
        },
    }
}

/// What replaces `import name, { a, b as c } from "source"` and
/// `import name, * as namespace from "source"`.
pub open spec fn combined_clause_text(clause: Node) -> Result<Seq<char>, TransformError> {
    match specifier_name(clause, 0, 0) {
        Err(error) => Err(error),
        Ok(name) => match inner_name_at(clause, 4) {
            Err(error) => Err(error),
            Ok(source) => match clause.required_node(2) {
                Err(error) => Err(error),
                Ok(specifier) => match specifier.kind {
                    JsSyntaxKind::JS_NAMED_IMPORT_SPECIFIERS => match named_import_entries(
                        specifier,
                    ) {
                        Err(error) => Err(error),
                        Ok(entries) => Ok(
                            named_import_text(
                                entries.push(renamed_entry("default"@, name)),
                                source,
                            ),
                        ),
                    },
                    JsSyntaxKind::JS_NAMESPACE_IMPORT_SPECIFIER => match binding_name_at(
                        specifier,
                        2,
                    ) {
                        Err(error) => Err(error),
                        Ok(namespace) => Ok(
                            combined_namespace_import_text(name, namespace, source),
                        ),
                    },
                    _ => Err(TransformError::Malformed),
                },
            },
        },
    }
}

/// What replaces an import clause. A clause that imports types only is
/// replaced by nothing.
pub open spec fn import_clause_text(clause: Node) -> Result<Seq<char>, TransformError> {
    match clause.kind {
        JsSyntaxKind::JS_IMPORT_BARE_CLAUSE => bare_clause_text(clause),
        JsSyntaxKind::JS_IMPORT_COMBINED_CLAUSE => combined_clause_text(clause),
        JsSyntaxKind::JS_IMPORT_DEFAULT_CLAUSE => if clause.token_at(0) is Some {
            Ok(Seq::empty())
        } else {
            default_clause_text(clause)
        },
        JsSyntaxKind::JS_IMPORT_NAMED_CLAUSE => if clause.token_at(0) is Some {
            Ok(Seq::empty())
        } else {
            named_clause_text(clause)
        },
        JsSyntaxKind::JS_IMPORT_NAMESPACE_CLAUSE => if clause.token_at(0) is Some {
            Ok(Seq::empty())
        } else {
            namespace_clause_text(clause)
        },
        _ => Err(TransformError::Malformed),
    }
}

/// What replaces an `import` declaration, without the trivia before it and
/// the line feeds after it.
pub open spec fn import_text(import: Node) -> Result<Seq<char>, TransformError> {
    match import.required_node(1) {
        Err(error) => Err(error),
        Ok(clause) => import_clause_text(clause),
    }
}

/// Gives the entry that one named import specifier contributes.
fn import_entry_of(specifier: &Node) -> (found: Result<Option<String>, TransformError>)
    ensures
        match found {
            Ok(Some(entry)) => import_entry(*specifier) == Ok::<
                Option<Seq<char>>,
                TransformError,
            >(Some(entry@)),
            Ok(None) => import_entry(*specifier) == Ok::<Option<Seq<char>>, TransformError>(None),
            Err(error) => import_entry(*specifier) == Err::<Option<Seq<char>>, TransformError>(
                error,
            ),
        },
{
    match specifier.kind {
        JsSyntaxKind::JS_NAMED_IMPORT_SPECIFIER => {
            if specifier.token_in(0).is_some() {
                return Ok(None);
            }
            let mut entry = name_in(specifier, 1)?;
            let local = binding_name_in(specifier, 3)?;
            entry.push_str(": ");
            entry.push_str(local.as_str());
            Ok(Some(entry))
        },
        JsSyntaxKind::JS_SHORTHAND_NAMED_IMPORT_SPECIFIER => {
            if specifier.token_in(0).is_some() {
                return Ok(None);
            }
            let local = binding_name_in(specifier, 1)?;
            let mut entry = local.clone();
            entry.push_str(": ");
            entry.push_str(local.as_str());
            Ok(Some(entry))
        },
        _ => Err(TransformError::Malformed),
    }
}

/// Gives the entries of the named specifiers `{ a, b as c }`: `name: local`
/// for each specifier that does not import a type.
pub fn collect_imports(specifiers: &Node) -> (found: Result<Vec<String>, TransformError>)
    ensures
        matches_texts(found, named_import_entries(*specifiers)),
{
    let list = specifiers.node_required(1)?;
    let nodes = elements_of(list)?;
    let ghost all = node_referents(nodes@);
    let mut imports: Vec<String> = Vec::new();
    let mut failed = false;
    let mut index: usize = 0;
    assert(views(imports@) == Seq::<Seq<char>>::empty());
    while index < nodes.len()
        invariant
            index <= nodes.len(),
            all == node_referents(nodes@),
            failed ==> import_entries(all.take(index as int)) == Err::<
                Seq<Seq<char>>,
                TransformError,
            >(TransformError::Malformed),
            !failed ==> import_entries(all.take(index as int)) == Ok::<
                Seq<Seq<char>>,
                TransformError,
            >(views(imports@)),
        decreases nodes.len() - index,
    {
        proof {
            assert(all.take(index + 1).drop_last() == all.take(index as int));
            assert(all.take(index + 1).last() == *nodes@[index as int]);
        }
        if !failed {
            let ghost before = views(imports@);
            match import_entry_of(nodes[index]) {
                Ok(Some(entry)) => {
                    let ghost text = entry@;
                    imports.push(entry);
                    assert(views(imports@) == before.push(text));
                },
                Ok(None) => {},
                Err(_) => {
                    failed = true;
                },
            }
        }
        index = index + 1;
    }
    proof {
        assert(all.take(nodes.len() as int) == all);
    }
    if failed {
        Err(TransformError::Malformed)
    } else {
        Ok(imports)
    }
}

/// Gives the local name of the specifier in the slot `slot` of `clause`.
fn specifier_name_in(clause: &Node, slot: usize, name_slot: usize) -> (found: Result<
    String,
    TransformError,
>)
    ensures
        matches_text(found, specifier_name(*clause, slot as int, name_slot as int)),
{
    let specifier = clause.node_required(slot)?;
    binding_name_in(specifier, name_slot)
}

/// Writes `const name = require('source');`.
fn namespace_import(name: &String, source: &String) -> (text: String)
    ensures
        text@ == namespace_import_text(name@, source@),
{
    let mut text = String::new();
    text.push_str("const ");
    text.push_str(name.as_str());
    text.push_str(" = require('");
    text.push_str(source.as_str());
    text.push_str("');");
    text
}

/// Writes `const { entries } = require('source');`.
fn named_import(entries: &Vec<String>, source: &String) -> (text: String)
    ensures
        text@ == named_import_text(views(entries@), source@),
{
    let mut text = String::new();
    text.push_str("const { ");
    text.push_str(join(entries, ", ").as_str());
    text.push_str(" } = require('");
    text.push_str(source.as_str());
    text.push_str("');");
    text
}

/// Gives what replaces the clause of `import name, ... from "source"`.
fn combined_clause(clause: &Node) -> (found: Result<String, TransformError>)
    ensures
        matches_text(found, combined_clause_text(*clause)),
{
    let name = specifier_name_in(clause, 0, 0)?;
    let source = inner_name_in(clause, 4)?;
    let specifier = clause.node_required(2)?;
    match specifier.kind {
        JsSyntaxKind::JS_NAMED_IMPORT_SPECIFIERS => {
            let mut imports = collect_imports(specifier)?;
            let ghost before = views(imports@);
            let mut entry = String::new();
            entry.push_str("default");
            entry.push_str(": ");
            entry.push_str(name.as_str());
            assert(entry@ == renamed_entry("default"@, name@));
            imports.push(entry);
            assert(views(imports@) == before.push(renamed_entry("default"@, name@)));
            Ok(named_import(&imports, &source))
        },
        JsSyntaxKind::JS_NAMESPACE_IMPORT_SPECIFIER => {
            let namespace = binding_name_in(specifier, 2)?;
            let mut text = namespace_import(&namespace, &source);
            text.push_str(" const ");
            text.push_str(name.as_str());
            text.push_str(" = ");
            text.push_str(namespace.as_str());
            text.push_str(".default;");
            Ok(text)
        },
        _ => Err(TransformError::Malformed),
    }
}

/// Gives what replaces an import clause.
fn import_clause(clause: &Node) -> (found: Result<String, TransformError>)
    ensures
        matches_text(found, import_clause_text(*clause)),
{
    match clause.kind {
        JsSyntaxKind::JS_IMPORT_BARE_CLAUSE => {
            let source = inner_name_in(clause, 0)?;
            let mut text = String::new();
            text.push_str("require('");
            text.push_str(source.as_str());
            text.push_str("');");
            Ok(text)
        },
        JsSyntaxKind::JS_IMPORT_COMBINED_CLAUSE => combined_clause(clause),
        JsSyntaxKind::JS_IMPORT_DEFAULT_CLAUSE => {
            if clause.token_in(0).is_some() {
                return Ok(String::new());
            }
            let name = specifier_name_in(clause, 1, 0)?;
            let source = inner_name_in(clause, 3)?;
            let mut text = String::new();
            text.push_str("const ");
            text.push_str(name.as_str());
            text.push_str(" = require('");
            text.push_str(source.as_str());
            text.push_str("').default;");
            Ok(text)
        },
        JsSyntaxKind::JS_IMPORT_NAMED_CLAUSE => {
            if clause.token_in(0).is_some() {
                return Ok(String::new());
            }
            let specifiers = clause.node_required(1)?;
            let imports = collect_imports(specifiers)?;
            let source = inner_name_in(clause, 3)?;
            Ok(named_import(&imports, &source))
        },
        JsSyntaxKind::JS_IMPORT_NAMESPACE_CLAUSE => {
            if clause.token_in(0).is_some() {
                return Ok(String::new());
            }
            let name = specifier_name_in(clause, 1, 2)?;
            let source = inner_name_in(clause, 3)?;
            Ok(namespace_import(&name, &source))
        },
        _ => Err(TransformError::Malformed),
    }
}

/// Gives what replaces an `import` declaration, without the trivia before it
/// and the line feeds after it.
pub fn import_replacement(import: &Node) -> (found: Result<String, TransformError>)
    ensures
        matches_text(found, import_text(*import)),
{
    let clause = import.node_required(1)?;
    import_clause(clause)
}

} // verus!

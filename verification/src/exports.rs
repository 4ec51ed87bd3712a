//! Rewriting of `export` declarations: the names that a declaration exports,
//! and the text that replaces a list of exported names.

use vstd::prelude::*;
use biome_js_syntax::JsSyntaxKind;
use crate::error::{TransformError, Unsupported};
use crate::imports::renamed_entry;
use crate::names::{
    binding_name_at, binding_name_in, elements_of, inner_name_at, inner_name_in, list_elements,
    matches_text, matches_texts, name_at, name_in, name_token, node_referents, text_view,
    token_name,
};
use crate::text::{join, joined, views};
use crate::tree::{lemma_child_decreases, Node, Syntax};

verus! {

/// The names that the elements of an array pattern bind, given the slots of
/// the list that holds them.
pub open spec fn array_element_names(slots: Seq<Option<Syntax>>) -> Result<
    Seq<Seq<char>>,
    TransformError,
>
    decreases slots,
{
    if slots.len() == 0 {
        Ok(Seq::empty())
    } else {
        match array_element_names(slots.drop_last()) {
            Err(error) => Err(error),
            Ok(before) => if (slots.len() - 1) % 2 == 1 {
                Ok(before)
            } else {
                match slots.last() {
                    Some(Syntax::Node(element)) => match element.kind {
                        JsSyntaxKind::JS_ARRAY_BINDING_PATTERN_ELEMENT => match nested_names(
                            element,
                            0,
                        ) {
                            Err(error) => Err(error),
                            Ok(names) => Ok(before + names),
                        },
                        JsSyntaxKind::JS_ARRAY_BINDING_PATTERN_REST_ELEMENT => match nested_names(
                            element,
                            1,
                        ) {
                            Err(error) => Err(error),
                            Ok(names) => Ok(before + names),
                        },
                        JsSyntaxKind::JS_ARRAY_HOLE => Ok(before),
                        _ => Err(TransformError::Malformed),
                    },
                    _ => Err(TransformError::Malformed),
                }
            },
        }
    }
}

/// The names that the members of an object pattern bind, given the slots of
/// the list that holds them.
pub open spec fn object_member_names(slots: Seq<Option<Syntax>>) -> Result<
    Seq<Seq<char>>,
    TransformError,
>
    decreases slots,
{
    if slots.len() == 0 {
        Ok(Seq::empty())
    } else {
        match object_member_names(slots.drop_last()) {
            Err(error) => Err(error),
            Ok(before) => if (slots.len() - 1) % 2 == 1 {
                Ok(before)
            } else {
                match slots.last() {
                    Some(Syntax::Node(member)) => match member.kind {
                        JsSyntaxKind::JS_OBJECT_BINDING_PATTERN_PROPERTY => match nested_names(
                            member,
                            2,
                        ) {
                            Err(error) => Err(error),
                            Ok(names) => Ok(before + names),
                        },
                        JsSyntaxKind::JS_OBJECT_BINDING_PATTERN_REST => match binding_name_at(
                            member,
                            1,
                        ) {
                            Err(error) => Err(error),
                            Ok(name) => Ok(before.push(name)),
                        },
                        JsSyntaxKind::JS_OBJECT_BINDING_PATTERN_SHORTHAND_PROPERTY => match binding_name_at(
                        member, 0) {
                            Err(error) => Err(error),
                            Ok(name) => Ok(before.push(name)),
                        },
                        _ => Err(TransformError::Malformed),
                    },
                    _ => Err(TransformError::Malformed),
                }
            },
        }
    }
}

/// The names that the pattern in the slot `index` of `holder` binds.
pub open spec fn nested_names(holder: Node, index: int) -> Result<Seq<Seq<char>>, TransformError>
    decreases holder, 0nat,
{
    if 0 <= index < holder.slots@.len() {
        match holder.slots@[index] {
            Some(Syntax::Node(pattern)) => pattern_names(pattern),
            _ => Err(TransformError::Malformed),
        }
    } else {
        Err(TransformError::Malformed)
    }
}

/// The names that a binding pattern binds, in document order: the identifier
/// of a plain binding, and the names of every element of an array pattern and
/// of every member of an object pattern.
pub open spec fn pattern_names(pattern: Node) -> Result<Seq<Seq<char>>, TransformError>
    decreases pattern, 1nat,
{
    match pattern.kind {
        JsSyntaxKind::JS_IDENTIFIER_BINDING => match token_name(pattern) {
            Err(error) => Err(error),
            Ok(name) => Ok(seq![name]),
        },
        JsSyntaxKind::JS_ARRAY_BINDING_PATTERN => if 1 < pattern.slots@.len() {
            match pattern.slots@[1] {
                Some(Syntax::Node(list)) => array_element_names(list.slots@),
                _ => Err(TransformError::Malformed),
            }
        } else {
            Err(TransformError::Malformed)
        },
        JsSyntaxKind::JS_OBJECT_BINDING_PATTERN => if 1 < pattern.slots@.len() {
            match pattern.slots@[1] {
                Some(Syntax::Node(list)) => object_member_names(list.slots@),
                _ => Err(TransformError::Malformed),
            }
        } else {
            Err(TransformError::Malformed)
        },
        _ => Err(TransformError::Malformed),
    }
}

/// The names that the given variable declarators bind, in their order.
pub open spec fn declarator_names(declarators: Seq<Node>) -> Result<
    Seq<Seq<char>>,
    TransformError,
>
    decreases declarators.len(),
{
    if declarators.len() == 0 {
        Ok(Seq::empty())
    } else {
        match declarator_names(declarators.drop_last()) {
            Err(error) => Err(error),
            Ok(before) => match nested_names(declarators.last(), 0) {
                Err(error) => Err(error),
                Ok(names) => Ok(before + names),
            },
        }
    }
}

/// The names that an exported variable declaration binds.
pub open spec fn variable_names(clause: Node) -> Result<Seq<Seq<char>>, TransformError> {
    match clause.required_node(0) {
        Err(error) => Err(error),
        Ok(declaration) => match declaration.required_node(2) {
            Err(error) => Err(error),
            Ok(list) => match list_elements(list.slots@) {
                Err(error) => Err(error),
                Ok(declarators) => declarator_names(declarators),
            },
        },
    }
}

/// Whether a node of this kind is a declaration that can follow `export`.
pub open spec fn is_declaration_clause(kind: JsSyntaxKind) -> bool {
    kind is JS_CLASS_DECLARATION || kind is JS_FUNCTION_DECLARATION
        || kind is JS_VARIABLE_DECLARATION_CLAUSE || kind is TS_DECLARE_FUNCTION_DECLARATION
        || kind is TS_ENUM_DECLARATION || kind is TS_EXTERNAL_MODULE_DECLARATION
        || kind is TS_GLOBAL_DECLARATION || kind is TS_IMPORT_EQUALS_DECLARATION
        || kind is TS_INTERFACE_DECLARATION || kind is TS_MODULE_DECLARATION
        || kind is TS_TYPE_ALIAS_DECLARATION
}

/// The names that an exported declaration adds to the module's exports. A
/// declaration of types adds none.
pub open spec fn declaration_names(clause: Node) -> Result<Seq<Seq<char>>, TransformError> {
    match clause.kind {
        JsSyntaxKind::JS_CLASS_DECLARATION | JsSyntaxKind::JS_FUNCTION_DECLARATION => match binding_name_at(
        clause, 3) {
            Err(error) => Err(error),
            Ok(name) => Ok(seq![name]),
        },
        JsSyntaxKind::JS_VARIABLE_DECLARATION_CLAUSE => variable_names(clause),
        JsSyntaxKind::TS_DECLARE_FUNCTION_DECLARATION
        | JsSyntaxKind::TS_INTERFACE_DECLARATION
        | JsSyntaxKind::TS_TYPE_ALIAS_DECLARATION => Ok(Seq::empty()),
        JsSyntaxKind::TS_ENUM_DECLARATION => Err(
            TransformError::Unsupported(Unsupported::EnumDeclaration),
        ),
        JsSyntaxKind::TS_EXTERNAL_MODULE_DECLARATION | JsSyntaxKind::TS_MODULE_DECLARATION => Err(
            TransformError::Unsupported(Unsupported::ModuleDeclaration),
        ),
        JsSyntaxKind::TS_GLOBAL_DECLARATION => Err(
            TransformError::Unsupported(Unsupported::GlobalDeclaration),
        ),
        JsSyntaxKind::TS_IMPORT_EQUALS_DECLARATION => Err(
            TransformError::Unsupported(Unsupported::ImportEquals),
        ),
        _ => Err(TransformError::Malformed),
    }
}

/// `Object.assign(module.exports, { entries });`
pub open spec fn export_assignment_text(entries: Seq<Seq<char>>) -> Seq<char> {
    "Object.assign(module.exports, { "@ + joined(entries, ", "@) + " });"@
}

/// The entry that one specifier of `export { a, b as c }` contributes to the
/// object of exports; none if the specifier exports a type.
pub open spec fn export_entry(specifier: Node) -> Result<Option<Seq<char>>, TransformError> {
    match specifier.kind {
        JsSyntaxKind::JS_EXPORT_NAMED_SHORTHAND_SPECIFIER => if specifier.token_at(0) is Some {
            Ok(None)
        } else {
            match name_at(specifier, 1) {
                Err(error) => Err(error),
                Ok(name) => Ok(Some(name)),
            }
        },
        JsSyntaxKind::JS_EXPORT_NAMED_SPECIFIER => if specifier.token_at(0) is Some {
            Ok(None)
        } else {
            match name_at(specifier, 3) {
                Err(error) => Err(error),
                Ok(exported) => match name_at(specifier, 1) {
                    Err(error) => Err(error),
                    Ok(local) => Ok(Some(renamed_entry(exported, local))),
                },
            }
        },
        _ => Err(TransformError::Malformed),
    }
}

/// The entries that the given export specifiers contribute, in their order.
pub open spec fn export_entries(specifiers: Seq<Node>) -> Result<Seq<Seq<char>>, TransformError>
    decreases specifiers.len(),
{
    if specifiers.len() == 0 {
        Ok(Seq::empty())
    } else {
        match export_entries(specifiers.drop_last()) {
            Err(error) => Err(error),
            Ok(before) => match export_entry(specifiers.last()) {
                Err(error) => Err(error),
                Ok(Some(entry)) => Ok(before.push(entry)),
                Ok(None) => Ok(before),
            },
        }
    }
}

/// What replaces `export { a, b as c }`, without the trivia before it and the
/// line feeds after it.
pub open spec fn named_export_text(clause: Node) -> Result<Seq<char>, TransformError> {
    match clause.required_node(2) {
        Err(error) => Err(error),
        Ok(list) => match list_elements(list.slots@) {
            Err(error) => Err(error),
            Ok(specifiers) => match export_entries(specifiers) {
                Err(error) => Err(error),
                Ok(entries) => Ok(export_assignment_text(entries)),
            },
        },
    }
}

/// `exported: require('module').name`
pub open spec fn reexport_entry_text(exported: Seq<char>, module: Seq<char>, name: Seq<char>) -> Seq<
    char,
> {
    exported + ": require('"@ + module + "')."@ + name
}

/// The name under which a specifier of `export { .. } from` exports: the one
/// after `as` if there is one, else the name in the source module.
pub open spec fn exported_name(specifier: Node, name: Seq<char>) -> Result<
    Seq<char>,
    TransformError,
> {
    match specifier.node_at(2) {
        Some(clause) => name_at(clause, 1),
        None => Ok(name),
    }
}

/// The entry that one specifier of `export { a, b as c } from "module"`
/// contributes; none if the specifier exports a type.
pub open spec fn reexport_entry(specifier: Node, module: Result<Seq<char>, TransformError>) -> Result<
    Option<Seq<char>>,
    TransformError,
> {
    if specifier.token_at(0) is Some {
        Ok(None)
    } else {
        match inner_name_at(specifier, 1) {
            Err(error) => Err(error),
            Ok(name) => match exported_name(specifier, name) {
                Err(error) => Err(error),
                Ok(exported) => match module {
                    Err(error) => Err(error),
                    Ok(module) => Ok(Some(reexport_entry_text(exported, module, name))),
                },
            },
        }
    }
}

/// The entries that the given re-export specifiers contribute, in their
/// order.
pub open spec fn reexport_entries(
    specifiers: Seq<Node>,
    module: Result<Seq<char>, TransformError>,
) -> Result<Seq<Seq<char>>, TransformError>
    decreases specifiers.len(),
{
    if specifiers.len() == 0 {
        Ok(Seq::empty())
    } else {
        match reexport_entries(specifiers.drop_last(), module) {
            Err(error) => Err(error),
            Ok(before) => match reexport_entry(specifiers.last(), module) {
                Err(error) => Err(error),
                Ok(Some(entry)) => Ok(before.push(entry)),
                Ok(None) => Ok(before),
            },
        }
    }
}

/// What replaces `export { a, b as c } from "module"`, without the trivia
/// before it and the line feeds after it.
pub open spec fn reexport_text(clause: Node) -> Result<Seq<char>, TransformError> {
    match clause.required_node(2) {
        Err(error) => Err(error),
        Ok(list) => match list_elements(list.slots@) {
            Err(error) => Err(error),
            Ok(specifiers) => match reexport_entries(specifiers, inner_name_at(clause, 5)) {
                Err(error) => Err(error),
                Ok(entries) => Ok(export_assignment_text(entries)),
            },
        },
    }
}

/// Whether `after` is `before` with names appended: what the list held stays
/// first, as it was.
pub open spec fn only_appended(before: Seq<String>, after: Seq<String>) -> bool {
    before.len() <= after.len() && after.subrange(0, before.len() as int) =~= before
}

/// What it means that a function has appended to a list the names that its
/// description gives, or has failed as the description does.
pub open spec fn appended_names(
    before: Seq<Seq<char>>,
    after: Seq<Seq<char>>,
    done: Result<(), TransformError>,
    expected: Result<Seq<Seq<char>>, TransformError>,
) -> bool {
    match done {
        Ok(_) => expected matches Ok(names) && after == before + names,
        Err(error) => expected == Err::<Seq<Seq<char>>, TransformError>(error),
    }
}

/// Appends to `exports` the names that the elements of an array pattern bind;
/// `list` holds the elements.
fn collect_array_elements(exports: &mut Vec<String>, list: &Node) -> (done: Result<
    (),
    TransformError,
>)
    ensures
        appended_names(
            views(old(exports)@),
            views(final(exports)@),
            done,
            array_element_names(list.slots@),
        ),
        only_appended(old(exports)@, final(exports)@),
    decreases list,
{
    let ghost start = views(exports@);
    let mut done: Result<(), TransformError> = Ok(());
    let mut index: usize = 0;
    assert(start + Seq::<Seq<char>>::empty() == start);
    while index < list.slots.len()
        invariant
            index <= list.slots.len(),
            appended_names(
                start,
                views(exports@),
                done,
                array_element_names(list.slots@.take(index as int)),
            ),
            only_appended(old(exports)@, exports@),
        decreases list.slots.len() - index,
    {
        proof {
            assert(list.slots@.take(index + 1).drop_last() == list.slots@.take(index as int));
        }
        let ghost before = array_element_names(list.slots@.take(index as int));
        let ghost held = views(exports@);
        if done.is_ok() && index % 2 == 0 {
            match &list.slots[index] {
                Some(Syntax::Node(element)) => {
                    proof {
                        lemma_child_decreases(*list, index as int, *element);
                    }
                    match element.kind {
                        JsSyntaxKind::JS_ARRAY_BINDING_PATTERN_ELEMENT => {
                            done = collect_nested(exports, element, 0);
                        },
                        JsSyntaxKind::JS_ARRAY_BINDING_PATTERN_REST_ELEMENT => {
                            done = collect_nested(exports, element, 1);
                        },
                        JsSyntaxKind::JS_ARRAY_HOLE => {},
                        _ => {
                            done = Err(TransformError::Malformed);
                        },
                    }
                },
                _ => {
                    done = Err(TransformError::Malformed);
                },
            }
        }
        proof {
            let after = array_element_names(list.slots@.take(index + 1));
            if done is Ok {
                assert(before is Ok);
                assert(after is Ok);
                assert(held == start + before->Ok_0);
                assert(views(exports@) == start + after->Ok_0);
            }
        }
        index = index + 1;
    }
    proof {
        assert(list.slots@.take(list.slots.len() as int) == list.slots@);
    }
    done
}

/// Appends to `exports` the names that the members of an object pattern bind;
/// `list` holds the members.
fn collect_object_members(exports: &mut Vec<String>, list: &Node) -> (done: Result<
    (),
    TransformError,
>)
    ensures
        appended_names(
            views(old(exports)@),
            views(final(exports)@),
            done,
            object_member_names(list.slots@),
        ),
        only_appended(old(exports)@, final(exports)@),
    decreases list,
{
    let ghost start = views(exports@);
    let mut done: Result<(), TransformError> = Ok(());
    let mut index: usize = 0;
    assert(start + Seq::<Seq<char>>::empty() == start);
    while index < list.slots.len()
        invariant
            index <= list.slots.len(),
            appended_names(
                start,
                views(exports@),
                done,
                object_member_names(list.slots@.take(index as int)),
            ),
            only_appended(old(exports)@, exports@),
        decreases list.slots.len() - index,
    {
        proof {
            assert(list.slots@.take(index + 1).drop_last() == list.slots@.take(index as int));
        }
        let ghost before = object_member_names(list.slots@.take(index as int));
        let ghost held = views(exports@);
        if done.is_ok() && index % 2 == 0 {
            match &list.slots[index] {
                Some(Syntax::Node(member)) => {
                    proof {
                        lemma_child_decreases(*list, index as int, *member);
                    }
                    match member.kind {
                        JsSyntaxKind::JS_OBJECT_BINDING_PATTERN_PROPERTY => {
                            done = collect_nested(exports, member, 2);
                        },
                        JsSyntaxKind::JS_OBJECT_BINDING_PATTERN_REST => {
                            done = push_binding_name(exports, member, 1);
                        },
                        JsSyntaxKind::JS_OBJECT_BINDING_PATTERN_SHORTHAND_PROPERTY => {
                            done = push_binding_name(exports, member, 0);
                        },
                        _ => {
                            done = Err(TransformError::Malformed);
                        },
                    }
                },
                _ => {
                    done = Err(TransformError::Malformed);
                },
            }
        }
        proof {
            let after = object_member_names(list.slots@.take(index + 1));
            if done is Ok {
                assert(before is Ok);
                assert(after is Ok);
                assert(held == start + before->Ok_0);
                assert(views(exports@) == start + after->Ok_0);
            }
        }
        index = index + 1;
    }
    proof {
        assert(list.slots@.take(list.slots.len() as int) == list.slots@);
    }
    done
}

/// Appends to `exports` the identifier of the binding in the slot `index` of
/// `holder`.
fn push_binding_name(exports: &mut Vec<String>, holder: &Node, index: usize) -> (done: Result<
    (),
    TransformError,
>)
    ensures
        match done {
            Ok(_) => binding_name_at(*holder, index as int) matches Ok(name) && views(
                final(exports)@,
            ) == views(old(exports)@).push(name),
            Err(error) => binding_name_at(*holder, index as int) == Err::<
                Seq<char>,
                TransformError,
            >(error),
        },
        only_appended(old(exports)@, final(exports)@),
{
    let name = binding_name_in(holder, index)?;
    let ghost before = views(exports@);
    let ghost text = name@;
    exports.push(name);
    assert(views(exports@) == before.push(text));
    Ok(())
}

/// Appends to `exports` the names that the pattern in the slot `index` of
/// `holder` binds.
fn collect_nested(exports: &mut Vec<String>, holder: &Node, index: usize) -> (done: Result<
    (),
    TransformError,
>)
    ensures
        appended_names(
            views(old(exports)@),
            views(final(exports)@),
            done,
            nested_names(*holder, index as int),
        ),
        only_appended(old(exports)@, final(exports)@),
    decreases holder,
{
    let pattern = holder.node_required(index)?;
    proof {
        lemma_child_decreases(*holder, index as int, *pattern);
    }
    collect_exports(exports, pattern)
}

/// Appends to `exports` the names that a binding pattern binds, in document
/// order.
pub fn collect_exports(exports: &mut Vec<String>, pattern: &Node) -> (done: Result<
    (),
    TransformError,
>)
    ensures
        appended_names(
            views(old(exports)@),
            views(final(exports)@),
            done,
            pattern_names(*pattern),
        ),
        only_appended(old(exports)@, final(exports)@),
    decreases pattern,
{
    match pattern.kind {
        JsSyntaxKind::JS_IDENTIFIER_BINDING => {
            let name = name_token(pattern)?;
            let ghost before = views(exports@);
            let ghost text = name@;
            exports.push(name);
            assert(views(exports@) == before + seq![text]);
            Ok(())
        },
        JsSyntaxKind::JS_ARRAY_BINDING_PATTERN => {
            let list = pattern.node_required(1)?;
            proof {
                lemma_child_decreases(*pattern, 1, *list);
            }
            collect_array_elements(exports, list)
        },
        JsSyntaxKind::JS_OBJECT_BINDING_PATTERN => {
            let list = pattern.node_required(1)?;
            proof {
                lemma_child_decreases(*pattern, 1, *list);
            }
            collect_object_members(exports, list)
        },
        _ => Err(TransformError::Malformed),
    }
}

/// Gives the names that an exported variable declaration binds.
fn variable_names_of(clause: &Node) -> (found: Result<Vec<String>, TransformError>)
    ensures
        matches_texts(found, variable_names(*clause)),
{
    let declaration = clause.node_required(0)?;
    let list = declaration.node_required(2)?;
    let declarators = elements_of(list)?;
    let ghost all = node_referents(declarators@);
    let mut names: Vec<String> = Vec::new();
    let mut done: Result<(), TransformError> = Ok(());
    let mut index: usize = 0;
    assert(views(names@) == Seq::<Seq<char>>::empty() + Seq::<Seq<char>>::empty());
    while index < declarators.len()
        invariant
            index <= declarators.len(),
            all == node_referents(declarators@),
            appended_names(
                Seq::empty(),
                views(names@),
                done,
                declarator_names(all.take(index as int)),
            ),
        decreases declarators.len() - index,
    {
        proof {
            assert(all.take(index + 1).drop_last() == all.take(index as int));
            assert(all.take(index + 1).last() == *declarators@[index as int]);
        }
        let ghost before = declarator_names(all.take(index as int));
        let ghost held = views(names@);
        if done.is_ok() {
            done = collect_nested(&mut names, declarators[index], 0);
        }
        proof {
            let after = declarator_names(all.take(index + 1));
            if done is Ok {
                assert(held == Seq::<Seq<char>>::empty() + before->Ok_0);
                assert(views(names@) == Seq::<Seq<char>>::empty() + after->Ok_0);
            }
        }
        index = index + 1;
    }
    proof {
        assert(all.take(declarators.len() as int) == all);
    }
    match done {
        Ok(_) => {
            proof {
                let expected = declarator_names(all)->Ok_0;
                assert(Seq::<Seq<char>>::empty() + expected == expected);
            }
            Ok(names)
        },
        Err(error) => Err(error),
    }
}

/// Gives the names that an exported declaration adds to the module's exports.
pub fn declared_names(clause: &Node) -> (found: Result<Vec<String>, TransformError>)
    ensures
        matches_texts(found, declaration_names(*clause)),
{
    match clause.kind {
        JsSyntaxKind::JS_CLASS_DECLARATION | JsSyntaxKind::JS_FUNCTION_DECLARATION => {
            let name = binding_name_in(clause, 3)?;
            let ghost text = name@;
            let mut names: Vec<String> = Vec::new();
            names.push(name);
            assert(views(names@) == seq![text]);
            Ok(names)
        },
        JsSyntaxKind::JS_VARIABLE_DECLARATION_CLAUSE => variable_names_of(clause),
        JsSyntaxKind::TS_DECLARE_FUNCTION_DECLARATION
        | JsSyntaxKind::TS_INTERFACE_DECLARATION
        | JsSyntaxKind::TS_TYPE_ALIAS_DECLARATION => {
            let names: Vec<String> = Vec::new();
            assert(views(names@) == Seq::<Seq<char>>::empty());
            Ok(names)
        },
        JsSyntaxKind::TS_ENUM_DECLARATION => Err(
            TransformError::Unsupported(Unsupported::EnumDeclaration),
        ),
        JsSyntaxKind::TS_EXTERNAL_MODULE_DECLARATION | JsSyntaxKind::TS_MODULE_DECLARATION => Err(
            TransformError::Unsupported(Unsupported::ModuleDeclaration),
        ),
        JsSyntaxKind::TS_GLOBAL_DECLARATION => Err(
            TransformError::Unsupported(Unsupported::GlobalDeclaration),
        ),
        JsSyntaxKind::TS_IMPORT_EQUALS_DECLARATION => Err(
            TransformError::Unsupported(Unsupported::ImportEquals),
        ),
        _ => Err(TransformError::Malformed),
    }
}

/// Writes `Object.assign(module.exports, { entries });`.
fn export_assignment(entries: &Vec<String>) -> (text: String)
    ensures
        text@ == export_assignment_text(views(entries@)),
{
    let mut text = String::new();
    text.push_str("Object.assign(module.exports, { ");
    text.push_str(join(entries, ", ").as_str());
    text.push_str(" });");
    text
}

/// Gives the entry that one specifier of `export { a, b as c }` contributes.
fn export_entry_of(specifier: &Node) -> (found: Result<Option<String>, TransformError>)
    ensures
        match found {
            Ok(Some(entry)) => export_entry(*specifier) == Ok::<
                Option<Seq<char>>,
                TransformError,
            >(Some(entry@)),
            Ok(None) => export_entry(*specifier) == Ok::<Option<Seq<char>>, TransformError>(None),
            Err(error) => export_entry(*specifier) == Err::<Option<Seq<char>>, TransformError>(
                error,
            ),
        },
{
    match specifier.kind {
        JsSyntaxKind::JS_EXPORT_NAMED_SHORTHAND_SPECIFIER => {
            if specifier.token_in(0).is_some() {
                return Ok(None);
            }
            let name = name_in(specifier, 1)?;
            Ok(Some(name))
        },
        JsSyntaxKind::JS_EXPORT_NAMED_SPECIFIER => {
            if specifier.token_in(0).is_some() {
                return Ok(None);
            }
            let mut entry = name_in(specifier, 3)?;
            let local = name_in(specifier, 1)?;
            entry.push_str(": ");
            entry.push_str(local.as_str());
            Ok(Some(entry))
        },
        _ => Err(TransformError::Malformed),
    }
}

/// Gives what replaces `export { a, b as c }`, without the trivia before it
/// and the line feeds after it.
pub fn named_export_replacement(clause: &Node) -> (found: Result<String, TransformError>)
    ensures
        matches_text(found, named_export_text(*clause)),
{
    let list = clause.node_required(2)?;
    let specifiers = elements_of(list)?;
    let ghost all = node_referents(specifiers@);
    let mut entries: Vec<String> = Vec::new();
    let mut failed = false;
    let mut index: usize = 0;
    assert(views(entries@) == Seq::<Seq<char>>::empty());
    while index < specifiers.len()
        invariant
            index <= specifiers.len(),
            all == node_referents(specifiers@),
            failed ==> export_entries(all.take(index as int)) == Err::<
                Seq<Seq<char>>,
                TransformError,
            >(TransformError::Malformed),
            !failed ==> export_entries(all.take(index as int)) == Ok::<
                Seq<Seq<char>>,
                TransformError,
            >(views(entries@)),
        decreases specifiers.len() - index,
    {
        proof {
            assert(all.take(index + 1).drop_last() == all.take(index as int));
            assert(all.take(index + 1).last() == *specifiers@[index as int]);
        }
        if !failed {
            let ghost before = views(entries@);
            match export_entry_of(specifiers[index]) {
                Ok(Some(entry)) => {
                    let ghost text = entry@;
                    entries.push(entry);
                    assert(views(entries@) == before.push(text));
                },
                Ok(None) => {},
                Err(_) => {
                    failed = true;
                },
            }
        }
        index = index + 1;
    }
    proof {
        assert(all.take(specifiers.len() as int) == all);
    }
    if failed {
        Err(TransformError::Malformed)
    } else {
        Ok(export_assignment(&entries))
    }
}

/// Gives the entry that one specifier of `export { a, b as c } from "module"`
/// contributes.
fn reexport_entry_of(specifier: &Node, module: &Result<String, TransformError>) -> (found: Result<
    Option<String>,
    TransformError,
>)
    requires
        module is Err ==> module->Err_0 == TransformError::Malformed,
    ensures
        match found {
            Ok(Some(entry)) => reexport_entry(*specifier, text_view(*module)) == Ok::<
                Option<Seq<char>>,
                TransformError,
            >(Some(entry@)),
            Ok(None) => reexport_entry(*specifier, text_view(*module)) == Ok::<
                Option<Seq<char>>,
                TransformError,
            >(None),
            Err(error) => reexport_entry(*specifier, text_view(*module)) == Err::<
                Option<Seq<char>>,
                TransformError,
            >(error),
        },
{
    if specifier.token_in(0).is_some() {
        return Ok(None);
    }
    let name = inner_name_in(specifier, 1)?;
    let mut entry = match specifier.node_in(2) {
        Some(clause) => name_in(clause, 1)?,
        None => name.clone(),
    };
    match module {
        Err(_) => Err(TransformError::Malformed),
        Ok(module) => {
            entry.push_str(": require('");
            entry.push_str(module.as_str());
            entry.push_str("').");
            entry.push_str(name.as_str());
            Ok(Some(entry))
        },
    }
}

/// Gives what replaces `export { a, b as c } from "module"`, without the
/// trivia before it and the line feeds after it.
pub fn reexport_replacement(clause: &Node) -> (found: Result<String, TransformError>)
    ensures
        matches_text(found, reexport_text(*clause)),
{
    let list = clause.node_required(2)?;
    let specifiers = elements_of(list)?;
    let module = inner_name_in(clause, 5);
    assert(text_view(module) == inner_name_at(*clause, 5));
    let ghost all = node_referents(specifiers@);
    let mut entries: Vec<String> = Vec::new();
    let mut failed = false;
    let mut index: usize = 0;
    assert(views(entries@) == Seq::<Seq<char>>::empty());
    while index < specifiers.len()
        invariant
            index <= specifiers.len(),
            all == node_referents(specifiers@),
            module is Err ==> module->Err_0 == TransformError::Malformed,
            failed ==> reexport_entries(all.take(index as int), text_view(module)) == Err::<
                Seq<Seq<char>>,
                TransformError,
            >(TransformError::Malformed),
            !failed ==> reexport_entries(all.take(index as int), text_view(module)) == Ok::<
                Seq<Seq<char>>,
                TransformError,
            >(views(entries@)),
        decreases specifiers.len() - index,
    {
        proof {
            assert(all.take(index + 1).drop_last() == all.take(index as int));
            assert(all.take(index + 1).last() == *specifiers@[index as int]);
        }
        if !failed {
            let ghost before = views(entries@);
            match reexport_entry_of(specifiers[index], &module) {
                Ok(Some(entry)) => {
                    let ghost text = entry@;
                    entries.push(entry);
                    assert(views(entries@) == before.push(text));
                },
                Ok(None) => {},
                Err(_) => {
                    failed = true;
                },
            }
        }
        index = index + 1;
    }
    proof {
        assert(all.take(specifiers.len() as int) == all);
    }
    if failed {
        Err(TransformError::Malformed)
    } else {
        Ok(export_assignment(&entries))
    }
}

} // verus!

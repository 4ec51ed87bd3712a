//! What the walk does when it enters a node: erase it, mark some of its
//! tokens, replace it, or pass it by.

use vstd::prelude::*;
use vstd::string::StrSliceExecFns;
use biome_js_syntax::JsSyntaxKind;
use crate::error::{TransformError, Unsupported};
use crate::exports::{
    declaration_names, declared_names, is_declaration_clause, named_export_replacement,
    named_export_text, reexport_replacement, reexport_text,
};
use crate::imports::{import_replacement, import_text};
use crate::state::{WalkState, Walker};
use crate::text::{blank, blanked, newline_count, newlines, push_repeated, repeated};
use crate::tree::{
    leading_trivia, referents, text_after_leading, text_after_leading_of, text_of,
    trailing_trivia, trimmed_text, trimmed_text_of, Node, Token,
};

verus! {

/// How the walk goes on after it has entered a node.
pub enum Step {
    /// The children of the node are walked, from this state.
    Descend(WalkState),
    /// The node is done with: its children are not walked.
    Done(WalkState),
}

/// Whether a node of this kind holds nothing but type syntax, so that all of
/// it is erased.
pub open spec fn is_type_syntax(kind: JsSyntaxKind) -> bool {
    kind is TS_TYPE_ARGUMENTS || kind is TS_TYPE_PARAMETERS || kind is TS_TYPE_ANNOTATION
        || kind is TS_RETURN_TYPE_ANNOTATION || kind is TS_DEFINITE_PROPERTY_ANNOTATION
        || kind is TS_OPTIONAL_PROPERTY_ANNOTATION || kind is TS_DECLARE_FUNCTION_DECLARATION
        || kind is TS_INTERFACE_DECLARATION || kind is TS_TYPE_ALIAS_DECLARATION
}

/// The construct that a node of this kind stands for, if it is one that is
/// not supported.
pub open spec fn unsupported_kind(kind: JsSyntaxKind) -> Option<Unsupported> {
    match kind {
        JsSyntaxKind::TS_THIS_PARAMETER => Some(Unsupported::ThisParameter),
        JsSyntaxKind::TS_ENUM_DECLARATION => Some(Unsupported::EnumDeclaration),
        JsSyntaxKind::TS_EXPORT_ASSIGNMENT_CLAUSE => Some(Unsupported::ExportAssignment),
        JsSyntaxKind::TS_EXPORT_AS_NAMESPACE_CLAUSE => Some(Unsupported::ExportAsNamespace),
        JsSyntaxKind::TS_EXPORT_DECLARE_CLAUSE => Some(Unsupported::ExportDeclare),
        JsSyntaxKind::TS_IMPORT_EQUALS_DECLARATION => Some(Unsupported::ImportEquals),
        JsSyntaxKind::TS_GLOBAL_DECLARATION => Some(Unsupported::GlobalDeclaration),
        JsSyntaxKind::JS_EXPORT_FROM_CLAUSE => Some(Unsupported::ExportAll),
        _ => None,
    }
}

/// Whether a node of this kind declares a module or a namespace.
pub open spec fn is_module_declaration(kind: JsSyntaxKind) -> bool {
    kind is TS_MODULE_DECLARATION || kind is TS_EXTERNAL_MODULE_DECLARATION
}

/// Whether `node` is a `declare` statement that declares a module or a
/// namespace, which is not supported. A module or namespace that is not
/// declared so is passed by like any other statement.
pub open spec fn declares_module(node: Node) -> bool {
    node.kind is TS_DECLARE_STATEMENT && match node.node_at(1) {
        Some(declaration) => is_module_declaration(declaration.kind),
        None => false,
    }
}

/// What stands before the value of `export default`.
pub open spec fn default_export_prefix() -> Seq<char> {
    "module.exports.default = "@
}

/// What replaces `import.meta`: an object that holds the module's path.
pub open spec fn import_meta_text(path: Seq<char>) -> Seq<char> {
    "({ url: '"@ + path + "' })"@
}

/// The text of the given tokens with `text` in place of everything but the
/// trivia before the first and after the last of them.
pub open spec fn within_trivia(tokens: Seq<Token>, text: Seq<char>) -> Seq<char> {
    leading_trivia(tokens) + text + trailing_trivia(tokens)
}

/// An object literal that is as long as `text`: braces with spaces between
/// them.
pub open spec fn empty_object(text: Seq<char>) -> Seq<char> {
    seq!['{'] + repeated(' ', (text.len() - 2) as nat) + seq!['}']
}

/// What replaces a call `import(..)` that the given tokens make up: an
/// object literal of the same length, between the same trivia.
pub open spec fn import_call_text(tokens: Seq<Token>) -> Result<Seq<char>, TransformError> {
    if trimmed_text(tokens).len() >= 2 {
        Ok(within_trivia(tokens, empty_object(trimmed_text(tokens))))
    } else {
        Err(TransformError::Malformed)
    }
}

/// Entering a call `import(..)`: the call is replaced.
pub open spec fn enter_import_call(node: Node, state: WalkState) -> Result<Step, TransformError> {
    match import_call_text(node.tokens()) {
        Err(error) => Err(error),
        Ok(text) => Ok(Step::Done(state.emit(text))),
    }
}

/// What stands in place of a declaration that the given tokens make up and
/// that `text` replaces: the trivia before the declaration, then `text`, then
/// as many line feeds as the declaration held after that trivia.
pub open spec fn replacement(tokens: Seq<Token>, text: Seq<char>) -> Seq<char> {
    leading_trivia(tokens) + text + repeated(
        '\n',
        newline_count(text_after_leading(tokens)),
    )
}

/// Entering `x as T` or `x satisfies T`: the keyword and the type are marked
/// for blanking.
pub open spec fn enter_annotated(node: Node, state: WalkState) -> Result<Step, TransformError> {
    match node.required_token(1) {
        Err(error) => Err(error),
        Ok(keyword) => match node.required_node(2) {
            Err(error) => Err(error),
            Ok(ty) => Ok(Step::Descend(state.blank(keyword.key).blank_all(ty.tokens()))),
        },
    }
}

/// Entering `<T>x`: the angle brackets and the type are marked for blanking.
pub open spec fn enter_type_assertion(node: Node, state: WalkState) -> Result<
    Step,
    TransformError,
> {
    match node.required_token(0) {
        Err(error) => Err(error),
        Ok(open) => match node.required_token(2) {
            Err(error) => Err(error),
            Ok(close) => match node.required_node(1) {
                Err(error) => Err(error),
                Ok(ty) => Ok(
                    Step::Descend(
                        state.blank(open.key).blank(close.key).blank_all(ty.tokens()),
                    ),
                ),
            },
        },
    }
}

/// Entering `export default` with a declaration in `clause`: the two
/// keywords are marked for skipping, and the assignment to the default export
/// is written unless the declaration declares a type.
pub open spec fn enter_default_declaration(
    keyword: Token,
    clause: Node,
    state: WalkState,
) -> Result<Step, TransformError> {
    match clause.required_token(0) {
        Err(error) => Err(error),
        Ok(default) => match clause.required_node(1) {
            Err(error) => Err(error),
            Ok(declaration) => match declaration.kind {
                JsSyntaxKind::JS_CLASS_EXPORT_DEFAULT_DECLARATION
                | JsSyntaxKind::JS_FUNCTION_EXPORT_DEFAULT_DECLARATION => Ok(
                    Step::Descend(
                        state.skip(keyword.key).skip(default.key).emit(
                            keyword.leading@ + default_export_prefix(),
                        ),
                    ),
                ),
                JsSyntaxKind::TS_DECLARE_FUNCTION_EXPORT_DEFAULT_DECLARATION
                | JsSyntaxKind::TS_INTERFACE_DECLARATION => Ok(
                    Step::Descend(state.skip(keyword.key).skip(default.key)),
                ),
                _ => Err(TransformError::Malformed),
            },
        },
    }
}

/// Entering `export default` with an expression in `clause`: the two
/// keywords are marked for skipping, and the assignment to the default export
/// is written.
pub open spec fn enter_default_expression(
    keyword: Token,
    clause: Node,
    state: WalkState,
) -> Result<Step, TransformError> {
    match clause.required_token(0) {
        Err(error) => Err(error),
        Ok(default) => Ok(
            Step::Descend(
                state.emit(keyword.leading@ + default_export_prefix()).skip(keyword.key).skip(
                    default.key,
                ),
            ),
        ),
    }
}

/// Entering `export { .. }`, with or without `from`: a clause that exports
/// types is blanked, any other is replaced by `text`.
pub open spec fn enter_export_list(
    export: Node,
    clause: Node,
    text: Result<Seq<char>, TransformError>,
    state: WalkState,
) -> Result<Step, TransformError> {
    if clause.token_at(0) is Some {
        Ok(Step::Done(state.emit(blanked(export.text()))))
    } else {
        match text {
            Err(error) => Err(error),
            Ok(text) => Ok(Step::Done(state.emit(replacement(export.tokens(), text)))),
        }
    }
}

/// Entering an `export` declaration.
pub open spec fn enter_export(export: Node, state: WalkState) -> Result<Step, TransformError> {
    match export.required_node(2) {
        Err(error) => Err(error),
        Ok(clause) => if is_declaration_clause(clause.kind) {
            match export.required_token(1) {
                Err(error) => Err(error),
                Ok(keyword) => match declaration_names(clause) {
                    Err(error) => Err(error),
                    Ok(names) => Ok(Step::Descend(state.blank(keyword.key).export_all(names))),
                },
            }
        } else {
            match clause.kind {
                JsSyntaxKind::JS_EXPORT_DEFAULT_DECLARATION_CLAUSE => match export.required_token(
                    1,
                ) {
                    Err(error) => Err(error),
                    Ok(keyword) => enter_default_declaration(keyword, clause, state),
                },
                JsSyntaxKind::JS_EXPORT_DEFAULT_EXPRESSION_CLAUSE => match export.required_token(
                    1,
                ) {
                    Err(error) => Err(error),
                    Ok(keyword) => enter_default_expression(keyword, clause, state),
                },
                JsSyntaxKind::JS_EXPORT_NAMED_CLAUSE => enter_export_list(
                    export,
                    clause,
                    named_export_text(clause),
                    state,
                ),
                JsSyntaxKind::JS_EXPORT_NAMED_FROM_CLAUSE => enter_export_list(
                    export,
                    clause,
                    reexport_text(clause),
                    state,
                ),
                JsSyntaxKind::JS_EXPORT_FROM_CLAUSE => Err(
                    TransformError::Unsupported(Unsupported::ExportAll),
                ),
                JsSyntaxKind::TS_EXPORT_AS_NAMESPACE_CLAUSE => Err(
                    TransformError::Unsupported(Unsupported::ExportAsNamespace),
                ),
                JsSyntaxKind::TS_EXPORT_ASSIGNMENT_CLAUSE => Err(
                    TransformError::Unsupported(Unsupported::ExportAssignment),
                ),
                JsSyntaxKind::TS_EXPORT_DECLARE_CLAUSE => Err(
                    TransformError::Unsupported(Unsupported::ExportDeclare),
                ),
                _ => Err(TransformError::Malformed),
            }
        },
    }
}

/// What the walk does when it enters `node` in `state`, for a module at
/// `path`.
pub open spec fn enter(node: Node, path: Seq<char>, state: WalkState) -> Result<
    Step,
    TransformError,
> {
    if is_type_syntax(node.kind) {
        Ok(Step::Done(state.emit(blanked(node.text()))))
    } else if unsupported_kind(node.kind) is Some {
        Err(TransformError::Unsupported(unsupported_kind(node.kind)->0))
    } else if declares_module(node) {
        Err(TransformError::Unsupported(Unsupported::ModuleDeclaration))
    } else {
        match node.kind {
            JsSyntaxKind::JS_FORMAL_PARAMETER => Ok(
                Step::Descend(
                    match node.token_at(2) {
                        Some(marker) => state.blank(marker.key),
                        None => state,
                    },
                ),
            ),
            JsSyntaxKind::TS_NON_NULL_ASSERTION_EXPRESSION => match node.required_token(1) {
                Err(error) => Err(error),
                Ok(marker) => Ok(Step::Descend(state.blank(marker.key))),
            },
            JsSyntaxKind::TS_AS_EXPRESSION | JsSyntaxKind::TS_SATISFIES_EXPRESSION => enter_annotated(
            node, state),
            JsSyntaxKind::TS_TYPE_ASSERTION_EXPRESSION => enter_type_assertion(node, state),
            JsSyntaxKind::JS_IMPORT_CALL_EXPRESSION => enter_import_call(node, state),
            JsSyntaxKind::JS_IMPORT_META_EXPRESSION => Ok(
                Step::Done(state.emit(within_trivia(node.tokens(), import_meta_text(path)))),
            ),
            JsSyntaxKind::JS_IMPORT => match import_text(node) {
                Err(error) => Err(error),
                Ok(text) => Ok(Step::Done(state.emit(replacement(node.tokens(), text)))),
            },
            JsSyntaxKind::JS_EXPORT => enter_export(node, state),
            _ => Ok(Step::Descend(state)),
        }
    }
}

/// How the outcome of entering a node answers to its description: `true`
/// stands for walking the children.
pub open spec fn entered(
    done: Result<bool, TransformError>,
    after: WalkState,
    expected: Result<Step, TransformError>,
) -> bool {
    match done {
        Ok(descend) => expected == Ok::<Step, TransformError>(
            if descend {
                Step::Descend(after)
            } else {
                Step::Done(after)
            },
        ),
        Err(error) => expected == Err::<Step, TransformError>(error),
    }
}

impl Walker {
    /// Writes `text` between the trivia before the first and after the last
    /// of `tokens`.
    fn emit_within_trivia(&mut self, tokens: &Vec<&Token>, text: &str)
        ensures
            final(self)@ == old(self)@.emit(within_trivia(referents(tokens@), text@)),
    {
        let mut out = String::new();
        if tokens.len() > 0 {
            out.push_str(tokens[0].leading.as_str());
        }
        out.push_str(text);
        if tokens.len() > 0 {
            out.push_str(tokens[tokens.len() - 1].trailing.as_str());
        }
        assert(out@ == within_trivia(referents(tokens@), text@));
        self.emit(out.as_str());
    }

    /// Writes what stands in place of a declaration that `tokens` make up and
    /// that `text` replaces.
    fn emit_replacement(&mut self, tokens: &Vec<&Token>, text: &str)
        ensures
            final(self)@ == old(self)@.emit(replacement(referents(tokens@), text@)),
    {
        let mut out = String::new();
        if tokens.len() > 0 {
            out.push_str(tokens[0].leading.as_str());
        }
        out.push_str(text);
        let rest = text_after_leading_of(tokens);
        push_repeated(&mut out, '\n', newlines(rest.as_str()));
        assert(out@ == replacement(referents(tokens@), text@));
        self.emit(out.as_str());
    }

    /// Writes the text of `node` as whitespace.
    fn emit_blanked(&mut self, node: &Node)
        ensures
            final(self)@ == old(self)@.emit(blanked(node.text())),
    {
        let tokens = node.token_list();
        let text = text_of(&tokens);
        blank(&mut self.buf, text.as_str());
    }

    /// Enters `x as T` or `x satisfies T`.
    fn enter_annotated(&mut self, node: &Node) -> (done: Result<bool, TransformError>)
        ensures
            entered(done, final(self)@, enter_annotated(*node, old(self)@)),
            old(self)@.well_formed() ==> final(self)@.well_formed(),
    {
        let keyword = node.token_required(1)?;
        let ty = node.node_required(2)?;
        self.mark_blank(keyword.key);
        self.mark_blank_all(&ty.token_list());
        Ok(true)
    }

    /// Enters `<T>x`.
    fn enter_type_assertion(&mut self, node: &Node) -> (done: Result<bool, TransformError>)
        ensures
            entered(done, final(self)@, enter_type_assertion(*node, old(self)@)),
            old(self)@.well_formed() ==> final(self)@.well_formed(),
    {
        let open = node.token_required(0)?;
        let close = node.token_required(2)?;
        let ty = node.node_required(1)?;
        self.mark_blank(open.key);
        self.mark_blank(close.key);
        self.mark_blank_all(&ty.token_list());
        Ok(true)
    }

    /// Enters a call `import(..)`.
    fn enter_import_call(&mut self, node: &Node) -> (done: Result<bool, TransformError>)
        ensures
            entered(done, final(self)@, enter_import_call(*node, old(self)@)),
            old(self)@.well_formed() ==> final(self)@.well_formed(),
    {
        let tokens = node.token_list();
        let trimmed = trimmed_text_of(&tokens);
        let length = trimmed.as_str().unicode_len();
        if length < 2 {
            return Err(TransformError::Malformed);
        }
        let mut object = String::new();
        object.push('{');
        push_repeated(&mut object, ' ', length - 2);
        object.push('}');
        assert(object@ == empty_object(trimmed@));
        self.emit_within_trivia(&tokens, object.as_str());
        Ok(false)
    }

    /// Enters `import.meta`.
    fn enter_import_meta(&mut self, node: &Node, path: &str)
        ensures
            final(self)@ == old(self)@.emit(
                within_trivia(node.tokens(), import_meta_text(path@)),
            ),
    {
        let mut object = String::new();
        object.push_str("({ url: '");
        object.push_str(path);
        object.push_str("' })");
        self.emit_within_trivia(&node.token_list(), object.as_str());
    }

    /// Enters `export default` with a declaration in `clause`.
    fn enter_default_declaration(&mut self, keyword: &Token, clause: &Node) -> (done: Result<
        bool,
        TransformError,
    >)
        ensures
            entered(done, final(self)@, enter_default_declaration(*keyword, *clause, old(self)@)),
            old(self)@.well_formed() ==> final(self)@.well_formed(),
    {
        let default = clause.token_required(0)?;
        let declaration = clause.node_required(1)?;
        match declaration.kind {
            JsSyntaxKind::JS_CLASS_EXPORT_DEFAULT_DECLARATION
            | JsSyntaxKind::JS_FUNCTION_EXPORT_DEFAULT_DECLARATION => {
                self.mark_skip(keyword.key);
                self.mark_skip(default.key);
                let mut prefix = keyword.leading.clone();
                prefix.push_str("module.exports.default = ");
                self.emit(prefix.as_str());
                Ok(true)
            },
            JsSyntaxKind::TS_DECLARE_FUNCTION_EXPORT_DEFAULT_DECLARATION
            | JsSyntaxKind::TS_INTERFACE_DECLARATION => {
                self.mark_skip(keyword.key);
                self.mark_skip(default.key);
                Ok(true)
            },
            _ => Err(TransformError::Malformed),
        }
    }

    /// Enters `export default` with an expression in `clause`.
    fn enter_default_expression(&mut self, keyword: &Token, clause: &Node) -> (done: Result<
        bool,
        TransformError,
    >)
        ensures
            entered(done, final(self)@, enter_default_expression(*keyword, *clause, old(self)@)),
            old(self)@.well_formed() ==> final(self)@.well_formed(),
    {
        let default = clause.token_required(0)?;
        let mut prefix = keyword.leading.clone();
        prefix.push_str("module.exports.default = ");
        self.emit(prefix.as_str());
        self.mark_skip(keyword.key);
        self.mark_skip(default.key);
        Ok(true)
    }

    /// Enters `export { .. }`; `from` tells whether the names come from
    /// another module.
    fn enter_export_list(&mut self, export: &Node, clause: &Node, from: bool) -> (done: Result<
        bool,
        TransformError,
    >)
        ensures
            entered(
                done,
                final(self)@,
                enter_export_list(
                    *export,
                    *clause,
                    if from {
                        reexport_text(*clause)
                    } else {
                        named_export_text(*clause)
                    },
                    old(self)@,
                ),
            ),
            old(self)@.well_formed() ==> final(self)@.well_formed(),
    {
        if clause.token_in(0).is_some() {
            self.emit_blanked(export);
            return Ok(false);
        }
        let text = if from {
            reexport_replacement(clause)?
        } else {
            named_export_replacement(clause)?
        };
        self.emit_replacement(&export.token_list(), text.as_str());
        Ok(false)
    }

    /// Enters an `export` declaration.
    fn enter_export(&mut self, export: &Node) -> (done: Result<bool, TransformError>)
        ensures
            entered(done, final(self)@, enter_export(*export, old(self)@)),
            old(self)@.well_formed() ==> final(self)@.well_formed(),
    {
        let clause = export.node_required(2)?;
        match clause.kind {
            JsSyntaxKind::JS_CLASS_DECLARATION
            | JsSyntaxKind::JS_FUNCTION_DECLARATION
            | JsSyntaxKind::JS_VARIABLE_DECLARATION_CLAUSE
            | JsSyntaxKind::TS_DECLARE_FUNCTION_DECLARATION
            | JsSyntaxKind::TS_ENUM_DECLARATION
            | JsSyntaxKind::TS_EXTERNAL_MODULE_DECLARATION
            | JsSyntaxKind::TS_GLOBAL_DECLARATION
            | JsSyntaxKind::TS_IMPORT_EQUALS_DECLARATION
            | JsSyntaxKind::TS_INTERFACE_DECLARATION
            | JsSyntaxKind::TS_MODULE_DECLARATION
            | JsSyntaxKind::TS_TYPE_ALIAS_DECLARATION => {
                let keyword = export.token_required(1)?;
                let names = declared_names(clause)?;
                self.mark_blank(keyword.key);
                self.export_all(names);
                Ok(true)
            },
            JsSyntaxKind::JS_EXPORT_DEFAULT_DECLARATION_CLAUSE => {
                let keyword = export.token_required(1)?;
                self.enter_default_declaration(keyword, clause)
            },
            JsSyntaxKind::JS_EXPORT_DEFAULT_EXPRESSION_CLAUSE => {
                let keyword = export.token_required(1)?;
                self.enter_default_expression(keyword, clause)
            },
            JsSyntaxKind::JS_EXPORT_NAMED_CLAUSE => self.enter_export_list(export, clause, false),
            JsSyntaxKind::JS_EXPORT_NAMED_FROM_CLAUSE => self.enter_export_list(
                export,
                clause,
                true,
            ),
            JsSyntaxKind::JS_EXPORT_FROM_CLAUSE => Err(
                TransformError::Unsupported(Unsupported::ExportAll),
            ),
            JsSyntaxKind::TS_EXPORT_AS_NAMESPACE_CLAUSE => Err(
                TransformError::Unsupported(Unsupported::ExportAsNamespace),
            ),
            JsSyntaxKind::TS_EXPORT_ASSIGNMENT_CLAUSE => Err(
                TransformError::Unsupported(Unsupported::ExportAssignment),
            ),
            JsSyntaxKind::TS_EXPORT_DECLARE_CLAUSE => Err(
                TransformError::Unsupported(Unsupported::ExportDeclare),
            ),
            _ => Err(TransformError::Malformed),
        }
    }

    /// Enters `node`; the module is at `path`. Tells whether the children of
    /// the node are to be walked.
    pub fn enter(&mut self, node: &Node, path: &str) -> (done: Result<bool, TransformError>)
        ensures
            entered(done, final(self)@, enter(*node, path@, old(self)@)),
            old(self)@.well_formed() ==> final(self)@.well_formed(),
    {
        match node.kind {
            JsSyntaxKind::TS_TYPE_ARGUMENTS
            | JsSyntaxKind::TS_TYPE_PARAMETERS
            | JsSyntaxKind::TS_TYPE_ANNOTATION
            | JsSyntaxKind::TS_RETURN_TYPE_ANNOTATION
            | JsSyntaxKind::TS_DEFINITE_PROPERTY_ANNOTATION
            | JsSyntaxKind::TS_OPTIONAL_PROPERTY_ANNOTATION
            | JsSyntaxKind::TS_DECLARE_FUNCTION_DECLARATION
            | JsSyntaxKind::TS_INTERFACE_DECLARATION
            | JsSyntaxKind::TS_TYPE_ALIAS_DECLARATION => {
                self.emit_blanked(node);
                Ok(false)
            },
            JsSyntaxKind::TS_THIS_PARAMETER => Err(
                TransformError::Unsupported(Unsupported::ThisParameter),
            ),
            JsSyntaxKind::TS_ENUM_DECLARATION => Err(
                TransformError::Unsupported(Unsupported::EnumDeclaration),
            ),
            JsSyntaxKind::TS_EXPORT_ASSIGNMENT_CLAUSE => Err(
                TransformError::Unsupported(Unsupported::ExportAssignment),
            ),
            JsSyntaxKind::TS_EXPORT_AS_NAMESPACE_CLAUSE => Err(
                TransformError::Unsupported(Unsupported::ExportAsNamespace),
            ),
            JsSyntaxKind::TS_EXPORT_DECLARE_CLAUSE => Err(
                TransformError::Unsupported(Unsupported::ExportDeclare),
            ),
            JsSyntaxKind::TS_IMPORT_EQUALS_DECLARATION => Err(
                TransformError::Unsupported(Unsupported::ImportEquals),
            ),
            JsSyntaxKind::TS_GLOBAL_DECLARATION => Err(
                TransformError::Unsupported(Unsupported::GlobalDeclaration),
            ),
            JsSyntaxKind::JS_EXPORT_FROM_CLAUSE => Err(
                TransformError::Unsupported(Unsupported::ExportAll),
            ),
            JsSyntaxKind::TS_DECLARE_STATEMENT => {
                match node.node_in(1) {
                    Some(declaration) => match declaration.kind {
                        JsSyntaxKind::TS_MODULE_DECLARATION
                        | JsSyntaxKind::TS_EXTERNAL_MODULE_DECLARATION => Err(
                            TransformError::Unsupported(Unsupported::ModuleDeclaration),
                        ),
                        _ => Ok(true),
                    },
                    None => Ok(true),
                }
            },
            JsSyntaxKind::JS_FORMAL_PARAMETER => {
                match node.token_in(2) {
                    Some(marker) => {
                        self.mark_blank(marker.key);
                    },
                    None => {},
                }
                Ok(true)
            },
            JsSyntaxKind::TS_NON_NULL_ASSERTION_EXPRESSION => {
                let marker = node.token_required(1)?;
                self.mark_blank(marker.key);
                Ok(true)
            },
            JsSyntaxKind::TS_AS_EXPRESSION | JsSyntaxKind::TS_SATISFIES_EXPRESSION => {
                self.enter_annotated(node)
            },
            JsSyntaxKind::TS_TYPE_ASSERTION_EXPRESSION => self.enter_type_assertion(node),
            JsSyntaxKind::JS_IMPORT_CALL_EXPRESSION => self.enter_import_call(node),
            JsSyntaxKind::JS_IMPORT_META_EXPRESSION => {
                self.enter_import_meta(node, path);
                Ok(false)
            },
            JsSyntaxKind::JS_IMPORT => {
                let text = import_replacement(node)?;
                self.emit_replacement(&node.token_list(), text.as_str());
                Ok(false)
            },
            JsSyntaxKind::JS_EXPORT => self.enter_export(node),
            _ => Ok(true),
        }
    }
}

} // verus!

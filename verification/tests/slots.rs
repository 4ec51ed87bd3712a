use biome_js_parser::{parse, JsParserOptions};
use biome_js_syntax::{
    AnyJsBinding, JsArrayBindingPattern, JsArrayBindingPatternElement,
    JsArrayBindingPatternRestElement, JsClassDeclaration, JsDefaultImportSpecifier, JsExport,
    JsExportAsClause, JsExportDefaultDeclarationClause, JsExportDefaultExpressionClause,
    JsExportNamedClause, JsExportNamedFromClause, JsExportNamedFromSpecifier,
    JsExportNamedShorthandSpecifier, JsExportNamedSpecifier, JsFileSource, JsFormalParameter,
    JsFunctionDeclaration, JsImport, JsImportBareClause, JsImportCombinedClause,
    JsImportDefaultClause, JsImportNamedClause, JsImportNamespaceClause, JsLanguage,
    JsNamedImportSpecifier, JsNamedImportSpecifiers, JsNamespaceImportSpecifier,
    JsObjectBindingPattern, JsObjectBindingPatternProperty, JsObjectBindingPatternRest,
    JsObjectBindingPatternShorthandProperty, JsShorthandNamedImportSpecifier, JsSyntaxKind,
    JsSyntaxNode, JsSyntaxToken, JsVariableDeclaration, JsVariableDeclarationClause,
    JsVariableDeclarator, TsAsExpression, TsNonNullAssertionExpression, TsSatisfiesExpression,
    TsTypeAssertionExpression,
};
use biome_rowan::{AstNode, AstNodeList, AstSeparatedList, SyntaxResult};
use ts_erase::names::elements_of;
use ts_erase::transform::parse_tree;
use ts_erase::tree::{text_of, Node, Syntax, Token};

fn syntax(source: &str) -> JsSyntaxNode {
    let parsed = parse(source, JsFileSource::ts(), JsParserOptions::default());
    assert!(parsed.diagnostics().is_empty());
    parsed.syntax()
}

fn typed<N: AstNode<Language = JsLanguage>>(root: &JsSyntaxNode) -> N {
    root.descendants().find_map(N::cast).unwrap()
}

fn find(root: &Node, kind: JsSyntaxKind) -> Option<&Node> {
    if root.kind == kind {
        return Some(root);
    }
    for slot in &root.slots {
        if let Some(Syntax::Node(child)) = slot {
            if let Some(found) = find(child, kind) {
                return Some(found);
            }
        }
    }
    None
}

fn same_token(expected: SyntaxResult<JsSyntaxToken>, found: Option<&Token>) {
    let expected = expected.unwrap();
    let found = found.unwrap();
    assert_eq!(found.kind, expected.kind());
    assert_eq!(found.text, expected.text_trimmed());
    assert_eq!(found.leading, expected.leading_trivia().text());
    assert_eq!(found.trailing, expected.trailing_trivia().text());
}

fn same_optional_token(expected: Option<JsSyntaxToken>, found: Option<&Token>) {
    match expected {
        Some(expected) => same_token(Ok(expected), found),
        None => assert!(found.is_none()),
    }
}

fn same_node(expected: &JsSyntaxNode, found: Option<&Node>) {
    let found = found.unwrap();
    assert_eq!(found.kind, expected.kind());
    assert_eq!(text_of(&found.token_list()), expected.text().to_string());
}

fn same_binding(expected: SyntaxResult<AnyJsBinding>, found: Option<&Node>) {
    same_node(expected.unwrap().syntax(), found);
}

#[test]
fn slots_of_type_expressions() {
    let source = "f(a?: T, b = (<T>x satisfies T as T)!) {}";
    let source = format!("function {source}");
    let root = syntax(&source);
    let tree = parse_tree(&source).unwrap();

    let expected: JsFormalParameter = typed(&root);
    let found = find(&tree, JsSyntaxKind::JS_FORMAL_PARAMETER).unwrap();
    same_optional_token(expected.question_mark_token(), found.token_in(2));

    let expected: TsNonNullAssertionExpression = typed(&root);
    let found = find(&tree, JsSyntaxKind::TS_NON_NULL_ASSERTION_EXPRESSION).unwrap();
    same_token(expected.excl_token(), found.token_in(1));

    let expected: TsAsExpression = typed(&root);
    let found = find(&tree, JsSyntaxKind::TS_AS_EXPRESSION).unwrap();
    same_token(expected.as_token(), found.token_in(1));
    same_node(expected.ty().unwrap().syntax(), found.node_in(2));

    let expected: TsSatisfiesExpression = typed(&root);
    let found = find(&tree, JsSyntaxKind::TS_SATISFIES_EXPRESSION).unwrap();
    same_token(expected.satisfies_token(), found.token_in(1));
    same_node(expected.ty().unwrap().syntax(), found.node_in(2));

    let expected: TsTypeAssertionExpression = typed(&root);
    let found = find(&tree, JsSyntaxKind::TS_TYPE_ASSERTION_EXPRESSION).unwrap();
    same_token(expected.l_angle_token(), found.token_in(0));
    same_token(expected.r_angle_token(), found.token_in(2));
    same_node(expected.ty().unwrap().syntax(), found.node_in(1));
}

#[test]
fn slots_of_a_parameter_without_marker() {
    let source = "function f(a: T) {}";
    let root = syntax(source);
    let tree = parse_tree(source).unwrap();
    let expected: JsFormalParameter = typed(&root);
    let found = find(&tree, JsSyntaxKind::JS_FORMAL_PARAMETER).unwrap();
    assert!(expected.question_mark_token().is_none());
    assert!(found.token_in(2).is_none());
}

#[test]
fn slots_of_import_clauses() {
    let source = "import \"a\";\nimport type B from \"b\";\nimport type { C } from \"c\";\nimport type * as D from \"d\";\nimport E, { type F, g as H, I } from \"e\";\nimport J, * as K from \"j\";";
    let root = syntax(source);
    let tree = parse_tree(source).unwrap();

    let expected: JsImport = typed(&root);
    let found = find(&tree, JsSyntaxKind::JS_IMPORT).unwrap();
    same_node(expected.import_clause().unwrap().syntax(), found.node_in(1));

    let expected: JsImportBareClause = typed(&root);
    let found = find(&tree, JsSyntaxKind::JS_IMPORT_BARE_CLAUSE).unwrap();
    same_node(expected.source().unwrap().syntax(), found.node_in(0));
    same_token(expected.source().unwrap().value_token(), found.node_in(0).unwrap().token_in(0));

    let expected: JsImportDefaultClause = typed(&root);
    let found = find(&tree, JsSyntaxKind::JS_IMPORT_DEFAULT_CLAUSE).unwrap();
    same_optional_token(expected.type_token(), found.token_in(0));
    same_node(expected.default_specifier().unwrap().syntax(), found.node_in(1));
    same_node(expected.source().unwrap().syntax(), found.node_in(3));

    let expected: JsImportNamedClause = typed(&root);
    let found = find(&tree, JsSyntaxKind::JS_IMPORT_NAMED_CLAUSE).unwrap();
    same_optional_token(expected.type_token(), found.token_in(0));
    same_node(expected.named_specifiers().unwrap().syntax(), found.node_in(1));
    same_node(expected.source().unwrap().syntax(), found.node_in(3));

    let expected: JsImportNamespaceClause = typed(&root);
    let found = find(&tree, JsSyntaxKind::JS_IMPORT_NAMESPACE_CLAUSE).unwrap();
    same_optional_token(expected.type_token(), found.token_in(0));
    same_node(expected.namespace_specifier().unwrap().syntax(), found.node_in(1));
    same_node(expected.source().unwrap().syntax(), found.node_in(3));

    let expected: JsImportCombinedClause = typed(&root);
    let found = find(&tree, JsSyntaxKind::JS_IMPORT_COMBINED_CLAUSE).unwrap();
    same_node(expected.default_specifier().unwrap().syntax(), found.node_in(0));
    same_node(expected.specifier().unwrap().syntax(), found.node_in(2));
    same_node(expected.source().unwrap().syntax(), found.node_in(4));

    let expected: JsDefaultImportSpecifier = typed(&root);
    let found = find(&tree, JsSyntaxKind::JS_DEFAULT_IMPORT_SPECIFIER).unwrap();
    same_binding(expected.local_name(), found.node_in(0));
    let binding = expected.local_name().unwrap();
    let binding = binding.as_js_identifier_binding().unwrap();
    same_token(binding.name_token(), found.node_in(0).unwrap().token_in(0));

    let expected: JsNamespaceImportSpecifier = typed(&root);
    let found = find(&tree, JsSyntaxKind::JS_NAMESPACE_IMPORT_SPECIFIER).unwrap();
    same_binding(expected.local_name(), found.node_in(2));

    let expected: JsNamedImportSpecifiers = typed(&root);
    let found = find(&tree, JsSyntaxKind::JS_NAMED_IMPORT_SPECIFIERS).unwrap();
    same_node(expected.specifiers().syntax(), found.node_in(1));

    let expected: JsNamedImportSpecifier = typed(&root);
    let found = find(&tree, JsSyntaxKind::JS_NAMED_IMPORT_SPECIFIER).unwrap();
    same_optional_token(expected.type_token(), found.token_in(0));
    same_node(expected.name().unwrap().syntax(), found.node_in(1));
    same_token(expected.name().unwrap().value(), found.node_in(1).unwrap().token_in(0));
    same_binding(expected.local_name(), found.node_in(3));

    let expected: JsShorthandNamedImportSpecifier = typed(&root);
    let found = find(&tree, JsSyntaxKind::JS_SHORTHAND_NAMED_IMPORT_SPECIFIER).unwrap();
    same_optional_token(expected.type_token(), found.token_in(0));
    same_binding(expected.local_name(), found.node_in(1));
}

#[test]
fn elements_of_separated_lists() {
    let source = "import E, { type F, g as H, I, } from \"e\";";
    let root = syntax(source);
    let tree = parse_tree(source).unwrap();
    let expected: JsNamedImportSpecifiers = typed(&root);
    let found = find(&tree, JsSyntaxKind::JS_NAMED_IMPORT_SPECIFIER_LIST).unwrap();
    let found = elements_of(found).unwrap();
    let expected: Vec<_> = expected.specifiers().iter().map(|node| node.unwrap()).collect();
    assert_eq!(found.len(), expected.len());
    for (found, expected) in found.iter().zip(expected.iter()) {
        same_node(expected.syntax(), Some(*found));
    }
}

#[test]
fn slots_of_default_exports() {
    let source = "@d export default class {}";
    let root = syntax(source);
    let tree = parse_tree(source).unwrap();

    let expected: JsExport = typed(&root);
    let found = find(&tree, JsSyntaxKind::JS_EXPORT).unwrap();
    same_node(expected.decorators().syntax(), found.node_in(0));
    same_token(expected.export_token(), found.token_in(1));
    same_node(expected.export_clause().unwrap().syntax(), found.node_in(2));

    let expected: JsExportDefaultDeclarationClause = typed(&root);
    let found = find(&tree, JsSyntaxKind::JS_EXPORT_DEFAULT_DECLARATION_CLAUSE).unwrap();
    same_token(expected.default_token(), found.token_in(0));
    same_node(expected.declaration().unwrap().syntax(), found.node_in(1));

    let source = "export default 1;";
    let root = syntax(source);
    let tree = parse_tree(source).unwrap();
    let expected: JsExportDefaultExpressionClause = typed(&root);
    let found = find(&tree, JsSyntaxKind::JS_EXPORT_DEFAULT_EXPRESSION_CLAUSE).unwrap();
    same_token(expected.default_token(), found.token_in(0));
}

#[test]
fn slots_of_named_exports() {
    let source = "export { type a, b as c, d };\nexport { e, type f, g as h } from \"m\";";
    let root = syntax(source);
    let tree = parse_tree(source).unwrap();

    let expected: JsExportNamedClause = typed(&root);
    let found = find(&tree, JsSyntaxKind::JS_EXPORT_NAMED_CLAUSE).unwrap();
    same_optional_token(expected.type_token(), found.token_in(0));
    same_node(expected.specifiers().syntax(), found.node_in(2));

    let expected: JsExportNamedShorthandSpecifier = typed(&root);
    let found = find(&tree, JsSyntaxKind::JS_EXPORT_NAMED_SHORTHAND_SPECIFIER).unwrap();
    same_optional_token(expected.type_token(), found.token_in(0));
    same_node(expected.name().unwrap().syntax(), found.node_in(1));
    same_token(expected.name().unwrap().value_token(), found.node_in(1).unwrap().token_in(0));

    let expected: JsExportNamedSpecifier = typed(&root);
    let found = find(&tree, JsSyntaxKind::JS_EXPORT_NAMED_SPECIFIER).unwrap();
    same_optional_token(expected.type_token(), found.token_in(0));
    same_node(expected.local_name().unwrap().syntax(), found.node_in(1));
    same_node(expected.exported_name().unwrap().syntax(), found.node_in(3));

    let expected: JsExportNamedFromClause = typed(&root);
    let found = find(&tree, JsSyntaxKind::JS_EXPORT_NAMED_FROM_CLAUSE).unwrap();
    same_optional_token(expected.type_token(), found.token_in(0));
    same_node(expected.specifiers().syntax(), found.node_in(2));
    same_node(expected.source().unwrap().syntax(), found.node_in(5));

    let expected: JsExportNamedFromSpecifier = root
        .descendants()
        .filter_map(JsExportNamedFromSpecifier::cast)
        .find(|specifier| specifier.export_as().is_some())
        .unwrap();
    let list = find(&tree, JsSyntaxKind::JS_EXPORT_NAMED_FROM_SPECIFIER_LIST).unwrap();
    let found = elements_of(list).unwrap()[2];
    same_optional_token(expected.type_token(), found.token_in(0));
    same_node(expected.source_name().unwrap().syntax(), found.node_in(1));
    same_node(expected.export_as().unwrap().syntax(), found.node_in(2));

    let expected: JsExportAsClause = typed(&root);
    let found = find(&tree, JsSyntaxKind::JS_EXPORT_AS_CLAUSE).unwrap();
    same_node(expected.exported_name().unwrap().syntax(), found.node_in(1));
}

#[test]
fn slots_of_exported_declarations() {
    let source = "export class C {}\nexport function f() {}\nexport const i = 1;";
    let root = syntax(source);
    let tree = parse_tree(source).unwrap();

    let expected: JsClassDeclaration = typed(&root);
    let found = find(&tree, JsSyntaxKind::JS_CLASS_DECLARATION).unwrap();
    same_binding(expected.id(), found.node_in(3));

    let expected: JsFunctionDeclaration = typed(&root);
    let found = find(&tree, JsSyntaxKind::JS_FUNCTION_DECLARATION).unwrap();
    same_binding(expected.id(), found.node_in(3));

    let expected: JsVariableDeclarationClause = typed(&root);
    let found = find(&tree, JsSyntaxKind::JS_VARIABLE_DECLARATION_CLAUSE).unwrap();
    same_node(expected.declaration().unwrap().syntax(), found.node_in(0));

    let expected: JsVariableDeclaration = typed(&root);
    let found = find(&tree, JsSyntaxKind::JS_VARIABLE_DECLARATION).unwrap();
    same_node(expected.declarators().syntax(), found.node_in(2));

    let expected: JsVariableDeclarator = typed(&root);
    let found = find(&tree, JsSyntaxKind::JS_VARIABLE_DECLARATOR).unwrap();
    same_node(expected.id().unwrap().syntax(), found.node_in(0));
}

#[test]
fn slots_of_binding_patterns() {
    let source = "const [a = 1, ...b] = c, { d: e = 2, f = 3, ...g } = h;";
    let root = syntax(source);
    let tree = parse_tree(source).unwrap();

    let expected: JsArrayBindingPattern = typed(&root);
    let found = find(&tree, JsSyntaxKind::JS_ARRAY_BINDING_PATTERN).unwrap();
    same_node(expected.elements().syntax(), found.node_in(1));

    let expected: JsArrayBindingPatternElement = typed(&root);
    let found = find(&tree, JsSyntaxKind::JS_ARRAY_BINDING_PATTERN_ELEMENT).unwrap();
    same_node(expected.pattern().unwrap().syntax(), found.node_in(0));

    let expected: JsArrayBindingPatternRestElement = typed(&root);
    let found = find(&tree, JsSyntaxKind::JS_ARRAY_BINDING_PATTERN_REST_ELEMENT).unwrap();
    same_node(expected.pattern().unwrap().syntax(), found.node_in(1));

    let expected: JsObjectBindingPattern = typed(&root);
    let found = find(&tree, JsSyntaxKind::JS_OBJECT_BINDING_PATTERN).unwrap();
    same_node(expected.properties().syntax(), found.node_in(1));

    let expected: JsObjectBindingPatternProperty = typed(&root);
    let found = find(&tree, JsSyntaxKind::JS_OBJECT_BINDING_PATTERN_PROPERTY).unwrap();
    same_node(expected.pattern().unwrap().syntax(), found.node_in(2));

    let expected: JsObjectBindingPatternRest = typed(&root);
    let found = find(&tree, JsSyntaxKind::JS_OBJECT_BINDING_PATTERN_REST).unwrap();
    same_binding(expected.binding(), found.node_in(1));

    let expected: JsObjectBindingPatternShorthandProperty = typed(&root);
    let found = find(&tree, JsSyntaxKind::JS_OBJECT_BINDING_PATTERN_SHORTHAND_PROPERTY).unwrap();
    same_binding(expected.identifier(), found.node_in(0));
}

#[test]
fn inner_text_of_sources() {
    let source = "import \"a-b\";\nexport { \"c d\" as e } from 'f';";
    let root = syntax(source);
    let tree = parse_tree(source).unwrap();
    let expected: JsImportBareClause = typed(&root);
    let found = find(&tree, JsSyntaxKind::JS_MODULE_SOURCE).unwrap();
    assert_eq!(
        ts_erase::names::inner_name_of(found).unwrap(),
        expected.source().unwrap().inner_string_text().unwrap().text()
    );
    let expected: JsExportNamedFromSpecifier = typed(&root);
    let found = find(&tree, JsSyntaxKind::JS_LITERAL_EXPORT_NAME).unwrap();
    assert_eq!(
        ts_erase::names::inner_name_of(found).unwrap(),
        expected.source_name().unwrap().inner_string_text().unwrap().text()
    );
}

use biome_js_syntax::JsSyntaxKind;
use ts_erase::builder::build_tree;
use ts_erase::error::{TransformError, Unsupported};
use ts_erase::exports::{collect_exports, declared_names, named_export_replacement};
use ts_erase::gateway::Event;
use ts_erase::imports::{collect_imports, import_replacement};
use ts_erase::names::{elements_of, inner_string_text_of, name_token};
use ts_erase::state::Walker;
use ts_erase::text::join;
use ts_erase::transform::{
    check_diagnostics, check_lossless, parse_tree, tagged, transform_impl, transform_tree,
    tree_from_parse,
};
use ts_erase::tree::{text_of, trimmed_text_of, Node, Syntax, Token};

fn token(kind: JsSyntaxKind, key: usize, leading: &str, text: &str, trailing: &str) -> Token {
    Token {
        kind,
        key,
        leading: leading.to_string(),
        text: text.to_string(),
        trailing: trailing.to_string(),
    }
}

fn leaf(kind: JsSyntaxKind, key: usize, leading: &str, text: &str, trailing: &str) -> Option<Syntax> {
    Some(Syntax::Token(token(kind, key, leading, text, trailing)))
}

fn node(kind: JsSyntaxKind, slots: Vec<Option<Syntax>>) -> Node {
    Node { kind, slots }
}

fn inner(kind: JsSyntaxKind, slots: Vec<Option<Syntax>>) -> Option<Syntax> {
    Some(Syntax::Node(node(kind, slots)))
}

fn find<'a>(root: &'a Node, kind: JsSyntaxKind) -> Option<&'a Node> {
    if root.kind == kind {
        return Some(root);
    }
    for slot in &root.slots {
        if let Some(Syntax::Node(child)) = slot {
            if let Some(found) = find(child, kind) {
                return Some(found);
            }
        }
    }
    None
}

fn parsed(source: &str) -> Node {
    match parse_tree(source) {
        Ok(root) => root,
        Err(error) => panic!("parse failed: {}", error.message()),
    }
}

#[test]
fn tree_of_a_non_null_assertion() {
    let root = node(
        JsSyntaxKind::TS_NON_NULL_ASSERTION_EXPRESSION,
        vec![
            inner(
                JsSyntaxKind::JS_IDENTIFIER_EXPRESSION,
                vec![leaf(JsSyntaxKind::IDENT, 0, " ", "x", "")],
            ),
            leaf(JsSyntaxKind::BANG, 1, "", "!", "\n"),
        ],
    );
    assert_eq!(
        transform_tree(&root, "/m.ts").unwrap(),
        "(function(exports,require,module){ x \n\n})"
    );
}

#[test]
fn missing_required_child_is_malformed() {
    let root = node(
        JsSyntaxKind::TS_AS_EXPRESSION,
        vec![
            inner(
                JsSyntaxKind::JS_IDENTIFIER_EXPRESSION,
                vec![leaf(JsSyntaxKind::IDENT, 0, "", "x", " ")],
            ),
            leaf(JsSyntaxKind::AS_KW, 1, "", "as", " "),
            None,
        ],
    );
    assert!(matches!(transform_tree(&root, "/m.ts"), Err(TransformError::Malformed)));
}

#[test]
fn import_call_shorter_than_its_braces_is_malformed() {
    let root = node(
        JsSyntaxKind::JS_IMPORT_CALL_EXPRESSION,
        vec![leaf(JsSyntaxKind::IMPORT_KW, 0, " ", "i", " ")],
    );
    assert!(matches!(transform_tree(&root, "/m.ts"), Err(TransformError::Malformed)));
}

#[test]
fn import_call_of_two_characters() {
    let root = node(
        JsSyntaxKind::JS_IMPORT_CALL_EXPRESSION,
        vec![leaf(JsSyntaxKind::IMPORT_KW, 0, " ", "im", "\t")],
    );
    assert_eq!(
        transform_tree(&root, "/m.ts").unwrap(),
        "(function(exports,require,module){ {}\t\n})"
    );
}

#[test]
fn import_call_counts_characters() {
    assert_eq!(
        transform_impl("let m = import(\"é\");", "/m.ts").unwrap(),
        "(function(exports,require,module){let m = {         };\n})"
    );
}

#[test]
fn empty_node_is_written_as_nothing() {
    let root = node(JsSyntaxKind::JS_MODULE, vec![None, None]);
    assert_eq!(transform_tree(&root, "/m.ts").unwrap(), "(function(exports,require,module){\n})");
}

#[test]
fn marked_tokens_are_blanked_and_skipped() {
    let mut walker = Walker::new();
    walker.mark_blank(7);
    walker.mark_skip(8);
    walker.visit(&token(JsSyntaxKind::IDENT, 7, "\t", "ab", "\n"));
    walker.visit(&token(JsSyntaxKind::IDENT, 8, " ", "cd", " "));
    walker.visit(&token(JsSyntaxKind::IDENT, 9, " ", "ef", " "));
    walker.visit(&token(JsSyntaxKind::IDENT, 7, "", "gh", ""));
    assert!(walker.blanks.is_empty());
    assert!(walker.skips.is_empty());
    assert_eq!(walker.finish(), "(function(exports,require,module){\t  \n ef gh\n})");
}

#[test]
fn blanking_wins_over_skipping() {
    let mut walker = Walker::new();
    walker.mark_skip(3);
    walker.mark_blank(3);
    assert!(walker.blanks.contains(&3));
    assert!(!walker.skips.contains(&3));
    walker.mark_skip(3);
    assert!(!walker.skips.contains(&3));
    walker.visit(&token(JsSyntaxKind::IDENT, 3, "", "ab", ""));
    assert_eq!(walker.finish(), "(function(exports,require,module){  \n})");
}

#[test]
fn exported_names_make_the_footer() {
    let mut walker = Walker::new();
    walker.export_all(vec!["a".to_string(), "a".to_string()]);
    assert_eq!(
        walker.finish(),
        "(function(exports,require,module){\nmodule.exports.a = a;\nmodule.exports.a = a;\n\n})"
    );
}

#[test]
fn events_build_a_tree() {
    let events = vec![
        Event::Enter(JsSyntaxKind::JS_MODULE, vec![false, true, true]),
        Event::Enter(JsSyntaxKind::JS_DIRECTIVE_LIST, vec![]),
        Event::Leave,
        Event::Token {
            kind: JsSyntaxKind::EOF,
            leading: " ".to_string(),
            text: String::new(),
            trailing: String::new(),
        },
        Event::Leave,
        Event::Leave,
    ];
    let root = build_tree(&events).unwrap();
    assert_eq!(root.kind, JsSyntaxKind::JS_MODULE);
    assert_eq!(root.slots.len(), 3);
    assert!(root.slots[0].is_none());
    assert!(matches!(&root.slots[1], Some(Syntax::Node(list)) if list.slots.is_empty()));
    assert!(matches!(&root.slots[2], Some(Syntax::Token(eof)) if eof.key == 0 && eof.leading == " "));
}

#[test]
fn events_that_do_not_close_are_malformed() {
    let events = vec![Event::Enter(JsSyntaxKind::JS_MODULE, vec![])];
    assert!(matches!(build_tree(&events), Err(TransformError::Malformed)));
    let events = vec![
        Event::Enter(JsSyntaxKind::JS_MODULE, vec![true]),
        Event::Leave,
    ];
    assert!(matches!(build_tree(&events), Err(TransformError::Malformed)));
    let events = vec![
        Event::Enter(JsSyntaxKind::JS_MODULE, vec![]),
        Event::Leave,
        Event::Leave,
    ];
    assert!(matches!(build_tree(&events), Err(TransformError::Malformed)));
    assert!(matches!(build_tree(&vec![]), Err(TransformError::Malformed)));
}

#[test]
fn tokens_are_numbered_in_document_order() {
    let root = parsed("let a = b;");
    let keys: Vec<usize> = root.token_list().iter().map(|token| token.key).collect();
    assert_eq!(keys, vec![0, 1, 2, 3, 4, 5]);
}

#[test]
fn parsed_tree_gives_back_the_source() {
    let source = "\u{feff}// c\nlet a = `t${b}` /* d */;\r\n";
    let root = parsed(source);
    assert_eq!(text_of(&root.token_list()), source);
}

#[test]
fn diagnostics_are_joined_by_line_feeds() {
    assert!(check_diagnostics(&vec![]).is_ok());
    match check_diagnostics(&vec!["one".to_string(), "two".to_string()]) {
        Err(TransformError::Parse(text)) => assert_eq!(text, "one\ntwo"),
        other => panic!("unexpected outcome: {:?}", other),
    }
}

#[test]
fn lossy_tree_is_refused() {
    let root = parsed("let a;");
    assert!(check_lossless(&root, "let a;").is_ok());
    assert!(matches!(check_lossless(&root, "let b;"), Err(TransformError::Malformed)));
}

#[test]
fn outcomes_are_tagged() {
    assert_eq!(tagged(Ok("x".to_string())), "x1");
    assert_eq!(
        tagged(Err(TransformError::Malformed)),
        "malformed syntax tree: a required child is missing2"
    );
    assert_eq!(tagged(Err(TransformError::Parse("bad".to_string()))), "bad2");
    assert_eq!(
        tagged(Err(TransformError::Unsupported(Unsupported::EnumDeclaration))),
        "unsupported syntax: `enum` declaration2"
    );
}

#[test]
fn join_puts_the_separator_between_parts() {
    assert_eq!(join(&vec![], ", "), "");
    assert_eq!(join(&vec!["a".to_string()], ", "), "a");
    assert_eq!(join(&vec!["a".to_string(), "b".to_string(), "c".to_string()], ", "), "a, b, c");
}

#[test]
fn trimmed_text_leaves_out_the_outer_trivia() {
    let first = token(JsSyntaxKind::IDENT, 0, " ", "a", " ");
    let second = token(JsSyntaxKind::DOT, 1, "", ".", "\n");
    let third = token(JsSyntaxKind::IDENT, 2, "\t", "b", " // c");
    assert_eq!(trimmed_text_of(&vec![&first, &second, &third]), "a .\n\tb");
    assert_eq!(trimmed_text_of(&vec![&first]), "a");
    assert_eq!(trimmed_text_of(&vec![]), "");
}

#[test]
fn string_literals_lose_their_delimiters() {
    let quoted = token(JsSyntaxKind::JS_STRING_LITERAL, 0, "", "'é-b'", "");
    assert_eq!(inner_string_text_of(&quoted).unwrap(), "é-b");
    let name = token(JsSyntaxKind::IDENT, 0, "", "'x'", "");
    assert_eq!(inner_string_text_of(&name).unwrap(), "'x'");
    let broken = token(JsSyntaxKind::JS_STRING_LITERAL, 0, "", "'", "");
    assert!(matches!(inner_string_text_of(&broken), Err(TransformError::Malformed)));
}

#[test]
fn names_of_bindings() {
    let root = parsed("let  value /* c */ = 1;");
    let binding = find(&root, JsSyntaxKind::JS_IDENTIFIER_BINDING).unwrap();
    assert_eq!(name_token(binding).unwrap(), "value");
    let other = find(&root, JsSyntaxKind::JS_VARIABLE_DECLARATOR).unwrap();
    assert!(matches!(name_token(other), Err(TransformError::Malformed)));
}

#[test]
fn imports_of_named_specifiers() {
    let root = parsed("import { a, type T, \"x-y\" as z, b as c, } from \"m\";");
    let specifiers = find(&root, JsSyntaxKind::JS_NAMED_IMPORT_SPECIFIERS).unwrap();
    assert_eq!(collect_imports(specifiers).unwrap(), vec!["a: a", "\"x-y\": z", "b: c"]);
    let list = find(&root, JsSyntaxKind::JS_NAMED_IMPORT_SPECIFIER_LIST).unwrap();
    assert_eq!(elements_of(list).unwrap().len(), 4);
    let import = find(&root, JsSyntaxKind::JS_IMPORT).unwrap();
    assert_eq!(
        import_replacement(import).unwrap(),
        "const { a: a, \"x-y\": z, b: c } = require('m');"
    );
}

#[test]
fn imports_of_an_empty_list() {
    assert_eq!(
        transform_impl("import {} from \"m\";", "/m.ts").unwrap(),
        "(function(exports,require,module){const {  } = require('m');\n})"
    );
}

#[test]
fn exports_of_patterns() {
    let root = parsed("const { a, b: [c, , ...d], ...e } = v;");
    let pattern = find(&root, JsSyntaxKind::JS_OBJECT_BINDING_PATTERN).unwrap();
    let mut exports = vec!["first".to_string()];
    collect_exports(&mut exports, pattern).unwrap();
    assert_eq!(exports, vec!["first", "a", "c", "d", "e"]);
}

#[test]
fn names_of_declarations() {
    let root = parsed("export async function* g<T>() {}");
    let export = find(&root, JsSyntaxKind::JS_FUNCTION_DECLARATION).unwrap();
    assert_eq!(declared_names(export).unwrap(), vec!["g"]);
    let root = parsed("export abstract class K<T> extends B {}");
    let export = find(&root, JsSyntaxKind::JS_CLASS_DECLARATION).unwrap();
    assert_eq!(declared_names(export).unwrap(), vec!["K"]);
    let root = parsed("export let a: number, [b] = c;");
    let export = find(&root, JsSyntaxKind::JS_VARIABLE_DECLARATION_CLAUSE).unwrap();
    assert_eq!(declared_names(export).unwrap(), vec!["a", "b"]);
    let root = parsed("export type T = number;");
    let export = find(&root, JsSyntaxKind::TS_TYPE_ALIAS_DECLARATION).unwrap();
    assert!(declared_names(export).unwrap().is_empty());
}

#[test]
fn named_exports_with_string_names() {
    let root = parsed("export { a as \"x-y\", b, };");
    let clause = find(&root, JsSyntaxKind::JS_EXPORT_NAMED_CLAUSE).unwrap();
    assert_eq!(
        named_export_replacement(clause).unwrap(),
        "Object.assign(module.exports, { \"x-y\": a, b });"
    );
}

#[test]
fn re_exports_with_string_names() {
    assert_eq!(
        transform_impl("export { \"a-b\" as c, d as \"e-f\" } from \"m\";", "/m.ts").unwrap(),
        "(function(exports,require,module){Object.assign(module.exports, { c: require('m').a-b, \"e-f\": require('m').d });\n})"
    );
}

#[test]
fn declared_module_is_unsupported() {
    for source in [
        "declare module \"m\" { }",
        "declare module M { }",
        "declare namespace N { const a: number; }",
        "export namespace N { const a = 1; }",
    ] {
        assert!(matches!(
            transform_impl(source, "/m.ts"),
            Err(TransformError::Unsupported(Unsupported::ModuleDeclaration))
        ));
    }
}

#[test]
fn plain_namespace_is_passed_by() {
    assert_eq!(
        transform_impl("namespace N { const a = 1; }\nlet b;", "/m.ts").unwrap(),
        "(function(exports,require,module){namespace N { const a = 1; }\nlet b;\n})"
    );
    assert!(ts_erase::transform::transform("namespace N {}", "/m.ts").ends_with("\n})1"));
}

#[test]
fn other_declare_statements_are_passed_by() {
    assert_eq!(
        transform_impl("declare const a: number;", "/m.ts").unwrap(),
        "(function(exports,require,module){declare const a        ;\n})"
    );
}

#[test]
fn global_declaration_is_unsupported() {
    assert!(matches!(
        transform_impl("declare global { interface Window { a: number } }\nexport {};", "/m.ts"),
        Err(TransformError::Unsupported(Unsupported::GlobalDeclaration))
    ));
}

#[test]
fn export_declare_is_unsupported() {
    assert!(matches!(
        transform_impl("export declare const a: number;", "/m.ts"),
        Err(TransformError::Unsupported(Unsupported::ExportDeclare))
    ));
}

#[test]
fn plain_enum_is_unsupported() {
    assert!(matches!(
        transform_impl("enum E { A }", "/m.ts"),
        Err(TransformError::Unsupported(Unsupported::EnumDeclaration))
    ));
}

#[test]
fn unsupported_syntax_inside_erased_syntax_is_passed() {
    assert_eq!(
        transform_impl("let f: (this: Window) => void;", "/m.ts").unwrap(),
        "(function(exports,require,module){let f                        ;\n})"
    );
}

#[test]
fn marks_of_reached_tokens_are_used_up() {
    let root = parsed("export default (a as B)! satisfies C;\nexport const d = <E>f;");
    let mut walker = Walker::new();
    walker.walk(&root, "/m.ts").unwrap();
    assert!(walker.blanks.is_empty());
    assert!(walker.skips.is_empty());
}

#[test]
fn marks_of_tokens_below_erased_nodes_stay() {
    let root = parsed("let v = x as T<U>;");
    let keys: Vec<usize> = root
        .token_list()
        .iter()
        .filter(|token| matches!(token.text.as_str(), "<" | "U" | ">"))
        .map(|token| token.key)
        .collect();
    assert_eq!(keys, vec![6, 7, 8]);
    let mut walker = Walker::new();
    walker.walk(&root, "/m.ts").unwrap();
    let mut left: Vec<usize> = walker.blanks.iter().copied().collect();
    left.sort();
    assert_eq!(left, keys);
    assert!(walker.skips.is_empty());
    assert_eq!(walker.finish(), "(function(exports,require,module){let v = x        ;\n})");
}

#[test]
fn parse_results_make_the_tree() {
    let events = vec![
        Event::Enter(JsSyntaxKind::JS_MODULE, vec![true]),
        Event::Token {
            kind: JsSyntaxKind::IDENT,
            leading: " ".to_string(),
            text: "a".to_string(),
            trailing: "\n".to_string(),
        },
        Event::Leave,
        Event::Leave,
    ];
    let root = tree_from_parse(" a\n", &vec![], &events).unwrap();
    assert_eq!(text_of(&root.token_list()), " a\n");
    assert!(matches!(
        tree_from_parse("a", &vec![], &events),
        Err(TransformError::Malformed)
    ));
    assert!(matches!(
        tree_from_parse(" a\n", &vec![], &vec![]),
        Err(TransformError::Malformed)
    ));
    match tree_from_parse(" a\n", &vec!["first".to_string(), "second".to_string()], &events) {
        Err(TransformError::Parse(text)) => assert_eq!(text, "first\nsecond"),
        other => panic!("unexpected outcome: {:?}", other),
    }
}

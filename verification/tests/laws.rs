use ts_erase::text::{blank, newlines};
use ts_erase::transform::transform_impl;

const PROLOGUE: &str = "(function(exports,require,module){";
const EPILOGUE: &str = "\n})";

const ERASED: [&str; 5] = [
    "let x: number = 1;\nfunction f<T>(a?: T, b: Array<\n\tT\n> = []): T | undefined {\n  return (a as T)!;\n}\n",
    "interface I {\r\n  a: string;\r\n}\r\ntype T =\n  | 1\n  | 2;\nlet v = <T>1 satisfies\n\tT;\n",
    "class C<T> {\n  a!: T;\n  b?: number;\n  m(): void {}\n}\ndeclare function g(a: number): void;\n",
    "// \u{e9}\u{2713} comment\nlet s: \"\u{e9}\u{2713}\" /* \u{1f600} */ = '\u{e9}';\n",
    "",
];

fn module_body(source: &str) -> Vec<char> {
    let text = transform_impl(source, "/m.ts").unwrap();
    assert!(text.starts_with(PROLOGUE));
    assert!(text.ends_with(EPILOGUE));
    text[PROLOGUE.len()..text.len() - EPILOGUE.len()].chars().collect()
}

fn is_kept(c: char) -> bool {
    matches!(c, ' ' | '\n' | '\t' | '\r' | '\u{c}' | '\u{b}')
}

#[test]
fn erasure_keeps_the_length() {
    for source in ERASED {
        assert_eq!(module_body(source).len(), source.chars().count());
    }
}

#[test]
fn erasure_keeps_every_character_or_blanks_it() {
    for source in ERASED {
        let body = module_body(source);
        for (index, c) in source.chars().enumerate() {
            assert!(body[index] == c || (body[index] == ' ' && !is_kept(c)));
        }
    }
}

#[test]
fn erasure_keeps_the_line_feeds() {
    for source in ERASED {
        let body = module_body(source);
        let written: String = body.iter().collect();
        assert_eq!(newlines(&written), newlines(source));
        for (index, c) in source.chars().enumerate() {
            assert_eq!(body[index] == '\n', c == '\n');
        }
    }
}

#[test]
fn blanking_keeps_whitespace_where_it_is() {
    let text = "a\tb\nc\rd\u{c}e\u{b}f g\u{a0}h\u{2028}i";
    let mut buf = String::from("..");
    blank(&mut buf, text);
    assert_eq!(buf, ".. \t \n \r \u{c} \u{b}       ");
    let written: Vec<char> = buf.chars().skip(2).collect();
    assert_eq!(written.len(), text.chars().count());
    for (index, c) in text.chars().enumerate() {
        if is_kept(c) {
            assert_eq!(written[index], c);
        } else {
            assert_eq!(written[index], ' ');
        }
    }
}

#[test]
fn blanked_tokens_keep_their_whitespace() {
    let source = "let v = x as\n\tMap<\n  string,\tnumber\r\n> ;";
    let body = module_body(source);
    let written: String = body.iter().collect();
    assert_eq!(written, "let v = x   \n\t    \n         \t      \r\n  ;");
}

#[test]
fn code_without_types_comes_out_as_it_went_in() {
    let sources = [
        "const a = 1;\n",
        "/** doc */\nasync function* f(a, { b, c = 2 }, ...d) {\n  for await (const x of a) yield x?.[b] ?? c;\n}\n",
        "class A extends B { static #p = 1; get v() { return A.#p; } }\n",
        "label: for (;;) { if (a < b && c > d) break label; }\nx = a ? b : c;\ny = `t${a}u`;\n",
    ];
    for source in sources {
        let written: String = module_body(source).iter().collect();
        assert_eq!(written, source);
    }
}

#[test]
fn every_output_is_framed() {
    for source in ["", "let a;", "import a from 'm';", "export const a = 1;", "export default a;"] {
        let text = transform_impl(source, "/m.ts").unwrap();
        assert!(text.starts_with("(function(exports,require,module){"));
        assert!(text.ends_with("\n})"));
    }
}

#[test]
fn rewrites_change_the_length_by_what_they_write() {
    let source = "import a from \"m\";\nlet b: number = a;\n";
    let body = module_body(source);
    let replaced = "import a from \"m\";".chars().count();
    let replacement = "const a = require('m').default;".chars().count();
    assert_eq!(body.len(), source.chars().count() - replaced + replacement);
    let source = "  export default f(1 as number);";
    let body = module_body(source);
    let skipped = "  export default ".chars().count();
    let written = "  module.exports.default = ".chars().count();
    assert_eq!(body.len(), source.chars().count() - skipped + written);
}

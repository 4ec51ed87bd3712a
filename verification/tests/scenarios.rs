use ts_erase::error::{TransformError, Unsupported};
use ts_erase::transform::{transform, transform_impl};

const PROLOGUE: &str = "(function(exports,require,module){";
const EPILOGUE: &str = "\n})";

fn output(source: &str) -> String {
    match transform_impl(source, "/virtual/module.ts") {
        Ok(text) => text,
        Err(error) => panic!("transform failed: {}", error.message()),
    }
}

fn body(source: &str) -> String {
    let text = output(source);
    assert!(text.starts_with(PROLOGUE));
    assert!(text.ends_with(EPILOGUE));
    text[PROLOGUE.len()..text.len() - EPILOGUE.len()].to_string()
}

#[test]
fn pure_erasure() {
    assert_eq!(body("let x: number = 1;"), "let x         = 1;");
}

#[test]
fn non_null_and_as() {
    assert_eq!(body("const y = (z as string)!;"), "const y = (z          ) ;");
}

#[test]
fn named_import_with_rename_and_type_member() {
    assert_eq!(
        body("import { a, type T, b as c } from \"m\";"),
        "const { a: a, b: c } = require('m');"
    );
}

#[test]
fn combined_import() {
    assert_eq!(
        body("import D, { a } from \"m\";"),
        "const { a: a, default: D } = require('m');"
    );
}

#[test]
fn export_default_expression() {
    assert_eq!(
        body("                      export default 42;"),
        "                      module.exports.default = 42;"
    );
}

#[test]
fn export_default_expression_without_leading_trivia() {
    assert_eq!(body("export default 42;"), "module.exports.default = 42;");
}

#[test]
fn re_export_from() {
    assert_eq!(
        body("export { a, b as c } from \"m\";"),
        "Object.assign(module.exports, { a: require('m').a, c: require('m').b });"
    );
}

#[test]
fn transform_tags_success() {
    assert_eq!(
        transform("let x: number = 1;", "/m.ts"),
        "(function(exports,require,module){let x         = 1;\n})1"
    );
}

#[test]
fn transform_tags_failure() {
    let text = transform("let = ;", "/m.ts");
    assert!(text.ends_with('2'));
    assert!(text.len() > 1);
}

#[test]
fn parse_failure_is_reported() {
    match transform_impl("function (", "/m.ts") {
        Err(TransformError::Parse(text)) => assert!(!text.is_empty()),
        other => panic!("unexpected outcome: {:?}", other),
    }
}

#[test]
fn this_parameter_is_unsupported() {
    match transform_impl("function f(this: Window, x: number) {}", "/m.ts") {
        Err(TransformError::Unsupported(Unsupported::ThisParameter)) => {}
        other => panic!("unexpected outcome: {:?}", other),
    }
}

#[test]
fn exported_enum_is_unsupported() {
    match transform_impl("export enum E { A }", "/m.ts") {
        Err(TransformError::Unsupported(Unsupported::EnumDeclaration)) => {}
        other => panic!("unexpected outcome: {:?}", other),
    }
}

#[test]
fn export_all_is_unsupported() {
    match transform_impl("export * from \"m\";", "/m.ts") {
        Err(TransformError::Unsupported(Unsupported::ExportAll)) => {}
        other => panic!("unexpected outcome: {:?}", other),
    }
}

#[test]
fn export_assignment_is_unsupported() {
    match transform_impl("export = x;", "/m.ts") {
        Err(TransformError::Unsupported(Unsupported::ExportAssignment)) => {}
        other => panic!("unexpected outcome: {:?}", other),
    }
}

#[test]
fn export_as_namespace_is_unsupported() {
    match transform_impl("export as namespace N;", "/m.d.ts") {
        Err(TransformError::Unsupported(Unsupported::ExportAsNamespace)) => {}
        other => panic!("unexpected outcome: {:?}", other),
    }
}

#[test]
fn import_equals_is_unsupported() {
    match transform_impl("import x = require(\"m\");", "/m.ts") {
        Err(TransformError::Unsupported(Unsupported::ImportEquals)) => {}
        other => panic!("unexpected outcome: {:?}", other),
    }
}

#[test]
fn bare_import() {
    assert_eq!(body("import \"m\";"), "require('m');");
}

#[test]
fn default_import() {
    assert_eq!(body("import D from \"m\";"), "const D = require('m').default;");
}

#[test]
fn namespace_import() {
    assert_eq!(body("import * as N from 'm';"), "const N = require('m');");
}

#[test]
fn combined_namespace_import() {
    assert_eq!(
        body("import D, * as N from \"m\";"),
        "const N = require('m'); const D = N.default;"
    );
}

#[test]
fn type_import_is_omitted() {
    assert_eq!(body("import type { T } from \"m\";\nlet x = 1;"), "\nlet x = 1;");
    assert_eq!(body("import type D from \"m\";"), "");
    assert_eq!(body("import type * as N from \"m\";"), "");
}

#[test]
fn import_keeps_line_count() {
    assert_eq!(
        body("// lead\nimport {\n  a,\n  b,\n} from \"m\";\nlet x = 1;"),
        "// lead\nconst { a: a, b: b } = require('m');\n\n\n\nlet x = 1;"
    );
}

#[test]
fn export_declarations_are_listed_in_the_footer() {
    assert_eq!(
        output("export function f() {}\nexport class C {}\nexport const x = 1, y = 2;"),
        "(function(exports,require,module){       function f() {}\n       class C {}\n       const x = 1, y = 2;\nmodule.exports.f = f;\nmodule.exports.C = C;\nmodule.exports.x = x;\nmodule.exports.y = y;\n\n})"
    );
}

#[test]
fn export_destructuring_collects_every_binding() {
    assert_eq!(
        output("export const [a, , [b, ...c], { d, e: f, ...g }] = v;"),
        "(function(exports,require,module){       const [a, , [b, ...c], { d, e: f, ...g }] = v;\nmodule.exports.a = a;\nmodule.exports.b = b;\nmodule.exports.c = c;\nmodule.exports.d = d;\nmodule.exports.f = f;\nmodule.exports.g = g;\n\n})"
    );
}

#[test]
fn export_of_types_collects_nothing() {
    assert_eq!(
        body("export interface I { a: number }\nexport type T = string;"),
        "                                \n                       "
    );
}

#[test]
fn export_default_declaration() {
    assert_eq!(
        body("export default function f() {}"),
        "module.exports.default = function f() {}"
    );
    assert_eq!(
        body("/* c */ export default class {}"),
        "/* c */ module.exports.default = class {}"
    );
}

#[test]
fn export_default_interface_is_erased() {
    assert_eq!(body("export default interface I {}"), "              ");
}

#[test]
fn named_export() {
    assert_eq!(
        body("export { a, b as c, type T };"),
        "Object.assign(module.exports, { a, c: b });"
    );
}

#[test]
fn named_type_export_is_blanked() {
    assert_eq!(body("export type { T };\nlet x;"), "                  \nlet x;");
    assert_eq!(body("export type { T } from \"m\";"), "                           ");
}

#[test]
fn re_export_with_type_member() {
    assert_eq!(
        body("export { a, type T } from 'm';"),
        "Object.assign(module.exports, { a: require('m').a });"
    );
}

#[test]
fn import_meta_is_replaced_by_the_path() {
    assert_eq!(
        body("const u = import.meta.url;"),
        "const u = ({ url: '/virtual/module.ts' }).url;"
    );
}

#[test]
fn import_meta_keeps_its_trivia() {
    assert_eq!(
        body("f( import.meta /* m */ );"),
        "f( ({ url: '/virtual/module.ts' }) /* m */ );"
    );
}

#[test]
fn dynamic_import_becomes_an_object_of_equal_length() {
    assert_eq!(body("const m = import(\"mod\") ;"), "const m = {           } ;");
}

#[test]
fn optional_parameter_marker_is_blanked() {
    assert_eq!(body("function f(a?: number, b = 1) {}"), "function f(a         , b = 1) {}");
}

#[test]
fn angle_bracket_assertion_is_blanked() {
    assert_eq!(body("let v = <Foo<Bar>>x;"), "let v =           x;");
}

#[test]
fn satisfies_is_blanked() {
    assert_eq!(body("let v = x satisfies T;"), "let v = x            ;");
}

#[test]
fn type_arguments_and_parameters_are_blanked() {
    assert_eq!(
        body("function f<T>(a: T): T { return g<T>(a); }"),
        "function f   (a   )    { return g   (a); }"
    );
}

#[test]
fn interface_keeps_its_line_feeds() {
    assert_eq!(
        body("interface I {\n\ta: number;\r\n}\nlet x = 1;"),
        "             \n\t          \r\n \nlet x = 1;"
    );
}

#[test]
fn plain_javascript_is_unchanged() {
    let source = "// comment\nconst a = [1, 2, 3].map((v) => v * 2);\nfunction f(x) { return x ?? a; }\n";
    assert_eq!(body(source), source);
}

#[test]
fn empty_source() {
    assert_eq!(output(""), "(function(exports,require,module){\n})");
}

#[test]
fn characters_outside_ascii_are_blanked_one_for_one() {
    assert_eq!(body("let s: \"é✓\" = v;"), "let s       = v;");
}

#[test]
fn module_with_many_constructs() {
    let source = r#"// header comment
import fs, { readFile as rf, type Stats } from "node:fs";
import * as path from 'node:path';
import type { Foo } from "./foo";
import "./side-effect";

export interface Options<T = unknown> {
  name: string;
  value?: T;
}

export abstract class Base<T> implements Foo {
  private readonly items: T[] = [];
  protected count!: number;
  constructor(public name: string, private opts?: Options<T>) {}
  get size(): number { return this.items.length; }
  add<U extends T>(item: U): this { this.items.push(item); return this; }
}

export default class Impl extends Base<string> {
  run(): void {
    const p = path.join(__dirname, (this.name as string)!);
    rf(p, (err: Error | null, data?: Buffer) => {
      console.log(<string>data!.toString(), import.meta.url);
    });
  }
}

export const [first, second = 2, ...rest] = [1, 2, 3] as const,
  { a, b: { c }, ...others } = obj satisfies Record<string, unknown>;

export async function load() { return await import("./lazy"); }
export { load as l, type Options, fs };
export { x as y, type Z } from "./other";
"#;
    let text = output(source);
    let written: Vec<&str> = text.split('\n').collect();
    let given: Vec<&str> = source.split('\n').collect();
    assert_eq!(written.len(), given.len() + 10);
    assert_eq!(written[0], "(function(exports,require,module){// header comment");
    assert_eq!(written[1], "const { readFile: rf, default: fs } = require('node:fs');");
    assert_eq!(written[2], "const path = require('node:path');");
    assert_eq!(written[3], "");
    assert_eq!(written[4], "require('./side-effect');");
    for line in 5..11 {
        assert_eq!(written[line].chars().count(), given[line].chars().count());
        assert!(written[line].chars().all(|c| c == ' '));
    }
    let expected = r#"       abstract class Base    implements Foo {
  private readonly items      = [];
  protected count         ;
  constructor(public name        , private opts             ) {}
  get size()         { return this.items.length; }
  add             (item   )       { this.items.push(item); return this; }
}

module.exports.default = class Impl extends Base         {
  run()       {
    const p = path.join(__dirname, (this.name          ) );
    rf(p, (err              , data         ) => {
      console.log(        data .toString(), ({ url: '/virtual/module.ts' }).url);
    });
  }
}

       const [first, second = 2, ...rest] = [1, 2, 3]         ,
  { a, b: { c }, ...others } = obj                                  ;

       async function load() { return await {              }; }
Object.assign(module.exports, { l: load, fs });
Object.assign(module.exports, { y: require('./other').x });

module.exports.Base = Base;
module.exports.first = first;
module.exports.second = second;
module.exports.rest = rest;
module.exports.a = a;
module.exports.c = c;
module.exports.others = others;
module.exports.load = load;

})"#;
    let expected: Vec<&str> = expected.split('\n').collect();
    assert_eq!(written.len() - 11, expected.len());
    for (line, expected) in expected.iter().enumerate() {
        assert_eq!(&written[11 + line], expected);
    }
}

#[test]
fn export_default_writes_the_leading_trivia_first() {
    let text = transform_impl("// c\nexport default 42;", "").unwrap();
    assert!(text.starts_with(PROLOGUE));
    assert!(text.ends_with(EPILOGUE));
    let written = &text[PROLOGUE.len()..text.len() - EPILOGUE.len()];
    assert!(written.starts_with("// c\n"));
    assert!(written.ends_with("module.exports.default = 42;"));
    assert!(!written.contains("export default"));
    assert_eq!(written, "// c\nmodule.exports.default = 42;");
}

use seoggi::scaffold::scaffold_text;
use seoggi::translate::translate_to_rust;

fn with_scaffold(body: &str) -> String {
    format!("{}{}", scaffold_text(), body)
}

#[test]
fn empty_source_gives_bare_scaffold() {
    assert_eq!(translate_to_rust(""), with_scaffold(""));
}

#[test]
fn blank_and_comment_lines_give_bare_scaffold() {
    let src = "\n   \n// a comment\n\t\n// another // one\n";
    assert_eq!(translate_to_rust(src), with_scaffold(""));
}

#[test]
fn import_lines_are_dropped() {
    let src = "import core.io\nlet y = 1";
    assert_eq!(translate_to_rust(src), with_scaffold("let y = 1\n"));
}

#[test]
fn struct_line_gains_derive_and_visibility() {
    let src = "struct Foo { name: String }";
    assert_eq!(
        translate_to_rust(src),
        with_scaffold("#[derive(Default)]\npub struct Foo { name: &str }\n")
    );
}

#[test]
fn struct_line_constructor_is_qualified() {
    let src = "struct Pair { new(a, b) }";
    assert_eq!(
        translate_to_rust(src),
        with_scaffold("#[derive(Default)]\npub struct Pair { fn new(a, b) }\n")
    );
}

#[test]
fn fn_line_gains_visibility() {
    let src = "fn main() -> Result<State, Error>";
    assert_eq!(
        translate_to_rust(src),
        with_scaffold("pub fn main() -> Result<State, Error>\n")
    );
}

#[test]
fn embedded_quotes_are_escaped() {
    let src = "let x = \"hi\";";
    assert_eq!(translate_to_rust(src), with_scaffold("let x = \\\"hi\\\";\n"));
}

#[test]
fn every_quote_is_escaped_and_nothing_else_changes() {
    let src = "print(\"a\", \"b\")";
    assert_eq!(
        translate_to_rust(src),
        with_scaffold("print(\\\"a\\\", \\\"b\\\")\n")
    );
}

#[test]
fn line_order_is_preserved() {
    let src = "let a = 1\nlet b = 2\nlet c = 3";
    assert_eq!(
        translate_to_rust(src),
        with_scaffold("let a = 1\nlet b = 2\nlet c = 3\n")
    );
}

#[test]
fn translation_is_deterministic() {
    let src = "struct S { x: String }\nfn f()\nlet s = \"q\"";
    assert_eq!(translate_to_rust(src), translate_to_rust(src));
}

#[test]
fn output_begins_with_scaffold() {
    let out = translate_to_rust("import x\nfn f()\nwhatever \"text\"");
    assert!(out.starts_with(scaffold_text()));
}

#[test]
fn lines_are_trimmed_and_crlf_terminators_handled() {
    let src = "   let a = 1   \r\n\tfn g()\r\n";
    assert_eq!(translate_to_rust(src), with_scaffold("let a = 1\npub fn g()\n"));
}

#[test]
fn lone_trailing_carriage_return_is_trimmed_as_whitespace() {
    let src = "let a = 1\r";
    assert_eq!(translate_to_rust(src), with_scaffold("let a = 1\n"));
}

#[test]
fn mixed_program_end_to_end() {
    let src = "// demo\nimport std.io\n\nstruct Foo { name: String }\nfn run() -> State\nlet x = \"hi\";\n";
    let body = "#[derive(Default)]\npub struct Foo { name: &str }\npub fn run() -> State\nlet x = \\\"hi\\\";\n";
    assert_eq!(translate_to_rust(src), with_scaffold(body));
}

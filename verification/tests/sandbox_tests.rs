use xbot::harness::Language;
use xbot::render::Rendered;
use xbot::sandbox::casm_collect;
use xbot::sandbox::casm_prepare;
use xbot::sandbox::eval_finish;
use xbot::sandbox::eval_prepare;
use xbot::sandbox::ftfy_request;

#[test]
fn eval_prepare_wraps_bare_expression() {
    let r = eval_prepare(Language::Cpp, "-O2 `2 + 2`");
    assert_eq!(r.stdin, "");
    assert_eq!(r.code, "mv code{,.cpp}; clang++ -std=c++17 -Wall -Wextra -O2 code.cpp && ./a.out");
    let program = r.file.expect("a file is submitted");
    assert!(program.contains("return ({2 + 2;});"));
    assert!(program.contains("int main() { std::cout << expr(); }"));
}

#[test]
fn eval_prepare_keeps_complete_program() {
    let r = eval_prepare(Language::Cpp, "```c++\nint main() { return 0; }\n```");
    assert_eq!(r.file.expect("a file is submitted"), "int main() { return 0; }\n");
}

#[test]
fn eval_prepare_trims_before_wrapping() {
    let r = eval_prepare(Language::Rust, "`  1 + 1  `");
    let program = r.file.expect("a file is submitted");
    assert!(program.contains("\n1 + 1\n"));
    assert!(!program.contains("  1 + 1  "));
}

#[test]
fn eval_prepare_python_passes_snippet_through() {
    let r = eval_prepare(Language::Python, "print(2 + 2)");
    assert_eq!(r.file.expect("a file is submitted"), "print(2 + 2)");
    assert!(r.code.starts_with("python3  -u -c '"));
}

#[test]
fn eval_finish_filters_then_renders() {
    let r = eval_finish("a\u{7F}Eb", Some(0));
    match r {
        Rendered::Inline { text } => assert_eq!(text, "```\nab\n```"),
        Rendered::Attachment { .. } => panic!("expected an inline message"),
    }
}

#[test]
fn ftfy_request_shape() {
    let r = ftfy_request("weird \u{FFFD} text");
    assert_eq!(r.stdin, "weird \u{FFFD} text");
    assert_eq!(r.code, "ftfy");
    assert!(r.file.is_none());
}

#[test]
fn casm_prepare_adds_include_and_fixed_flags() {
    let r = casm_prepare("-O1 `int f() { return 1; }`");
    assert_eq!(r.source, "#include <cstdint>\nint f() { return 1; }");
    assert_eq!(r.user_arguments, "-Os -fno-color-diagnostics -g0 -mcpu=mosw65816 --std=c++20 -O1");
}

#[test]
fn casm_collect_joins_sections_in_order() {
    let stdout = vec![String::from("out")];
    let stderr = vec![String::from("err1"), String::from("err2")];
    let assembly = vec![String::from("lda #1")];
    assert_eq!(casm_collect(&stdout, &stderr, &assembly), "out\nerr1\nerr2\nlda #1\n");
}

#[test]
fn casm_collect_empty_sections() {
    let none: Vec<String> = Vec::new();
    assert_eq!(casm_collect(&none, &none, &none), "");
}

use xbot::harness::feature_prefix_len;
use xbot::harness::needs_wrapping;
use xbot::harness::Language;

const CPP_HEAD: &str = "#include <cstdio>\n#include <iostream>\n#include <string>\n#include <string_view>\n#include <vector>\nauto expr() { \n";
const CPP_TAIL: &str = "\n } int main() { std::cout << expr(); }";

const RUST_HEAD: &str = "fn expr() -> impl std::fmt::Debug + 'static {\n";
const RUST_TAIL: &str = "}\nfn main() {\n    fn is_unit<T: 'static>(_: &T) -> bool {\n        std::any::TypeId::of::<()>() == std::any::TypeId::of::<T>()\n    }\n    let v = expr();\n    if !is_unit(&v) {\n        println!(\"{v:#?}\");\n    }\n}\n";

#[test]
fn entry_markers() {
    assert_eq!(Language::Cpp.entry_marker(), "int main");
    assert_eq!(Language::Rust.entry_marker(), "fn main");
    assert_eq!(Language::Python.entry_marker(), "");
}

#[test]
fn wrapping_needed_without_marker() {
    assert!(needs_wrapping("1 + 1", "int main"));
    assert!(!needs_wrapping("int main() {}", "int main"));
    // the empty marker is contained in everything
    assert!(!needs_wrapping("print(2 + 2)", ""));
}

#[test]
fn cpp_expression_gains_statement_expression() {
    let program = Language::Cpp.wrap("2 + 2");
    assert_eq!(program, format!("{}return ({{2 + 2;}});{}", CPP_HEAD, CPP_TAIL));
}

#[test]
fn cpp_statement_keeps_its_terminator() {
    let program = Language::Cpp.wrap("int x = 1;");
    assert_eq!(program, format!("{}return ({{int x = 1;}});{}", CPP_HEAD, CPP_TAIL));
}

#[test]
fn cpp_return_snippet_stays_plain() {
    let program = Language::Cpp.wrap("return 42;");
    assert_eq!(program, format!("{}return 42;{}", CPP_HEAD, CPP_TAIL));
}

#[test]
fn rust_snippet_without_features() {
    let program = Language::Rust.wrap("1 + 1");
    assert_eq!(program, format!("\n{}1 + 1\n{}", RUST_HEAD, RUST_TAIL));
}

#[test]
fn rust_features_are_hoisted() {
    let program = Language::Rust.wrap("#![feature(box_syntax)]\n1 + 1");
    assert_eq!(
        program,
        format!("#![feature(box_syntax)]\n{}\n1 + 1\n{}", RUST_HEAD, RUST_TAIL)
    );
}

#[test]
fn feature_prefix_lengths() {
    assert_eq!(feature_prefix_len(""), 0);
    assert_eq!(feature_prefix_len("1 + 1"), 0);
    assert_eq!(feature_prefix_len("#![feature(x)]rest"), "#![feature(x)]".len());
    assert_eq!(
        feature_prefix_len("#![feature(a)] #![feature(b)] more"),
        "#![feature(a)] #![feature(b)]".len()
    );
    assert_eq!(feature_prefix_len(" # ! [ feature (a) ] x"), " # ! [ feature (a) ]".len());
    assert_eq!(feature_prefix_len("#![feature()]x"), 0);
    assert_eq!(feature_prefix_len("#![allow(dead_code)]x"), 0);
}

#[test]
fn runner_commands() {
    assert_eq!(
        Language::Cpp.runner("-O2"),
        "mv code{,.cpp}; clang++ -std=c++17 -Wall -Wextra -O2 code.cpp && ./a.out"
    );
    assert_eq!(
        Language::Rust.runner(""),
        "mv code{,.rs}; $RUST_NIGHTLY/bin/rustc --edition 2021  code.rs && ./code"
    );
    let py = Language::Python.runner("-O");
    assert!(py.starts_with("python3 -O -u -c '\nimport ast\n"));
    assert!(py.ends_with("\"single\"), g, l)\n'"));
}

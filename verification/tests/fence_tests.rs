use xbot::fence::parse_code;
use xbot::fence::Parsed;

#[test]
fn strip_code() {
    assert_eq!(
        parse_code("test"),
        Parsed {
            options: String::new(),
            code: String::from("test"),
        },
    );
    assert_eq!(
        parse_code("`code`"),
        Parsed {
            options: String::new(),
            code: String::from("code"),
        },
    );
    assert_eq!(
        parse_code("``foo``"),
        Parsed {
            options: String::new(),
            code: String::from("foo"),
        },
    );
    assert_eq!(
        parse_code("```\nbar\n```"),
        Parsed {
            options: String::new(),
            code: String::from("bar\n"),
        },
    );
    assert_eq!(
        parse_code("```example code here\n```"),
        Parsed {
            options: String::new(),
            code: String::from("example code here\n"),
        },
    );
    assert_eq!(
        parse_code("```c++\nexample\n```"),
        Parsed {
            options: String::new(),
            code: String::from("example\n"),
        },
    );
    assert_eq!(
        parse_code("-Wall ```c++\nhi\n```"),
        Parsed {
            options: String::from("-Wall"),
            code: String::from("hi\n"),
        },
    );
    assert_eq!(
        parse_code("-Wall `hi`"),
        Parsed {
            options: String::from("-Wall"),
            code: String::from("hi"),
        },
    );
    assert_eq!(
        parse_code("-Wall\n```c++\nhi\n```"),
        Parsed {
            options: String::from("-Wall"),
            code: String::from("hi\n"),
        },
    );
}

#[test]
fn plain_text_is_code_with_empty_options() {
    let p = parse_code("test");
    assert_eq!(p.options, "");
    assert_eq!(p.code, "test");
}

#[test]
fn single_backticks_strip() {
    let p = parse_code("`code`");
    assert_eq!(p.options, "");
    assert_eq!(p.code, "code");
    let p = parse_code("``foo``");
    assert_eq!(p.options, "");
    assert_eq!(p.code, "foo");
}

#[test]
fn fence_with_language_tag() {
    let p = parse_code("```c++\nexample\n```");
    assert_eq!(p.options, "");
    assert_eq!(p.code, "example\n");
}

#[test]
fn fence_with_preceding_options() {
    let p = parse_code("-Wall ```c++\nhi\n```");
    assert_eq!(p.options, "-Wall");
    assert_eq!(p.code, "hi\n");
}

#[test]
fn options_before_backtick_snippet() {
    let p = parse_code("-Wall `hi`");
    assert_eq!(p.options, "-Wall");
    assert_eq!(p.code, "hi");
}

#[test]
fn unmatched_fence_degrades() {
    // no closing fence: falls through, whole text is the code
    let p = parse_code("```c++\nhi");
    assert_eq!(p.options, "");
    assert_eq!(p.code, "```c++\nhi");
    // options kept even when the closing backtick is missing
    let p = parse_code("-O2 `hi");
    assert_eq!(p.options, "-O2");
    assert_eq!(p.code, "-O2 `hi");
}

#[test]
fn fence_tag_with_spaces_falls_to_backtick_rule() {
    let p = parse_code("```not a tag\nbody\n```");
    assert_eq!(p.options, "");
    assert_eq!(p.code, "not a tag\nbody\n");
}

#[test]
fn parsed_new_trims_options() {
    let p = Parsed::new("  -Wall \t", "x");
    assert_eq!(p.options, "-Wall");
    assert_eq!(p.code, "x");
}

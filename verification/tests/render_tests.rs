use xbot::render::more_than_15_newlines;
use xbot::render::render;
use xbot::render::status_line;
use xbot::render::Rendered;

fn expect_inline(r: Rendered) -> String {
    match r {
        Rendered::Inline { text } => text,
        Rendered::Attachment { .. } => panic!("expected an inline message"),
    }
}

fn expect_attachment(r: Rendered) -> (String, String, String) {
    match r {
        Rendered::Attachment { caption, filename, data } => (caption, filename, data),
        Rendered::Inline { .. } => panic!("expected an attachment"),
    }
}

#[test]
fn status_line_success_is_empty() {
    assert_eq!(status_line(Some(0)), "");
}

#[test]
fn status_line_exit_code() {
    assert_eq!(status_line(Some(2)), "Exited with status code 2\n");
    assert_eq!(status_line(Some(-1)), "Exited with status code -1\n");
    assert_eq!(status_line(Some(139)), "Exited with status code 139\n");
}

#[test]
fn status_line_timeout() {
    assert_eq!(status_line(None), "Killed the process due to timeout\n");
}

#[test]
fn boundary_800_bytes_inline() {
    let out = "a".repeat(800);
    let text = expect_inline(render(&out, Some(0)));
    assert_eq!(text, format!("```\n{}\n```", out));
}

#[test]
fn boundary_801_bytes_attaches() {
    let out = "a".repeat(801);
    let (caption, filename, data) = expect_attachment(render(&out, Some(0)));
    assert_eq!(caption, "");
    assert_eq!(filename, "output.txt");
    assert_eq!(data, out);
}

#[test]
fn boundary_15_newlines_attaches() {
    let out = "\n".repeat(15);
    let (caption, filename, data) = expect_attachment(render(&out, Some(0)));
    assert_eq!(caption, "");
    assert_eq!(filename, "output.txt");
    assert_eq!(data, out);
}

#[test]
fn boundary_14_newlines_inline() {
    let out = "\n".repeat(14);
    let text = expect_inline(render(&out, Some(0)));
    assert_eq!(text, format!("```\n{}\n```", out));
}

#[test]
fn newline_counter() {
    assert!(!more_than_15_newlines(""));
    assert!(!more_than_15_newlines(&"\n".repeat(14)));
    assert!(more_than_15_newlines(&"\n".repeat(15)));
    assert!(more_than_15_newlines(&"x\n".repeat(40)));
}

#[test]
fn empty_output_renders_italic_marker() {
    let text = expect_inline(render("", Some(0)));
    assert_eq!(text, "_(no output)_");
}

#[test]
fn status_precedes_code_block() {
    let text = expect_inline(render("hi", Some(2)));
    assert_eq!(text, "Exited with status code 2\n```\nhi\n```");
}

#[test]
fn timeout_status_on_attachment() {
    let out = "b".repeat(900);
    let (caption, _, _) = expect_attachment(render(&out, None));
    assert_eq!(caption, "Killed the process due to timeout\n");
}

#[test]
fn inline_content_cannot_close_the_block() {
    let text = expect_inline(render("x``` break", Some(0)));
    assert_eq!(text, "```\nx  break\n```");
}

#[test]
fn inline_content_is_normalized() {
    let text = expect_inline(render("see discord.gg now @everyone", Some(0)));
    assert_eq!(text, "```\nsee discord\u{2024}gg now @\u{200B}everyone\n```");
}

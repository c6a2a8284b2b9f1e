use xbot::filter::filter;

#[test]
fn removes_toolchain_path() {
    let raw = "/nix/store/abcd-gcc-12.2.0/include/c++/12.2.0/bits/basic_string.h:1: error";
    assert_eq!(filter(raw), "bits/basic_string.h:1: error");
}

#[test]
fn keeps_other_paths() {
    let raw = "/nix/store/abcd-clang-15/include/c++/15/x.h: note";
    assert_eq!(filter(raw), raw);
}

#[test]
fn removes_framing_bytes() {
    assert_eq!(filter("a\u{7F}Eb"), "ab");
    assert_eq!(filter("a\u{7F}Ob"), "ab");
    assert_eq!(filter("a\u{7F}Xb"), "a\u{7F}Xb");
}

#[test]
fn unescapes_doubled_control_byte() {
    assert_eq!(filter("a\u{7F}\u{7F}b"), "a\u{7F}b");
    assert_eq!(filter("\u{7F}\u{7F}\u{7F}E"), "\u{7F}");
}

#[test]
fn idempotent_on_clean_output() {
    let samples = [
        "ordinary compiler output\nwith lines\n",
        "unicode: héllo wörld",
        "",
        "/usr/include/stdio.h:1: warning",
    ];
    for s in samples {
        let once = filter(s);
        assert_eq!(filter(&once), once);
        assert_eq!(once, s);
    }
}

#[test]
fn idempotent_after_removal() {
    let raw = "x\u{7F}Ey /nix/store/a-gcc-1/include/c++/1/z/ tail";
    let once = filter(raw);
    assert_eq!(filter(&once), once);
}

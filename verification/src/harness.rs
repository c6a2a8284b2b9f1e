//! Per-language snippet harnesses: given a snippet that lacks the
//! language's entry point, each harness produces a complete program around
//! it, and each language carries the shell command that compiles and runs
//! the submitted file in the sandbox.
use crate::text::contains_str;
use crate::text::contains_sub;
use crate::text::check_match_at;
use crate::text::find_from;
use crate::text::find_sub;
use crate::text::is_space;
use crate::text::is_space_char;
use crate::text::lemma_find_from;
use crate::text::match_at;
use vstd::prelude::*;
use vstd::string::StrSliceExecFns;
use vstd::string::StringExecFns;

verus! {

/// Whether `code` still needs a harness: it does not contain the
/// language's entry-point marker as a literal substring.
pub fn needs_wrapping(code: &str, entry_marker: &str) -> (r: bool)
    ensures
        r == !contains_sub(code@, entry_marker@),
{
    !contains_str(code, entry_marker)
}

/// First position at or after `i` holding a non-whitespace character, or
/// the length of `s`.
pub open spec fn skip_ws(s: Seq<char>, i: int) -> int
    decreases s.len() - i,
{
    if 0 <= i < s.len() {
        if is_space(s[i]) {
            skip_ws(s, i + 1)
        } else {
            i
        }
    } else {
        s.len() as int
    }
}

/// End position of one feature-opt-in attribute starting at `i` (leading
/// whitespace included), or `-1` when none starts there. An attribute is
/// `#`, `!`, `[`, the word `feature`, a parenthesized non-empty argument
/// list, and `]`, with whitespace allowed between the tokens.
pub open spec fn parse_item(s: Seq<char>, i: int) -> int {
    let a = skip_ws(s, i);
    let b = skip_ws(s, a + 1);
    let c = skip_ws(s, b + 1);
    let d = skip_ws(s, c + 1);
    let e = skip_ws(s, d + 7);
    let p = find_from(s, ")"@, e + 1);
    let q = skip_ws(s, p + 1);
    if a < s.len() && s[a] == '#' && b < s.len() && s[b] == '!' && c < s.len() && s[c] == '['
        && match_at(s, "feature"@, d) && e < s.len() && s[e] == '(' && p >= e + 2 && q < s.len()
        && s[q] == ']' {
        q + 1
    } else {
        -1
    }
}

/// End of the longest prefix of `s` made of feature-opt-in attributes,
/// starting the scan at `i`.
pub open spec fn feature_prefix_end(s: Seq<char>, i: int) -> int
    decreases s.len() - i,
{
    let j = parse_item(s, i);
    if 0 <= i <= s.len() && i < j <= s.len() {
        feature_prefix_end(s, j)
    } else {
        i
    }
}

#[verifier::loop_isolation(false)]
fn skip_ws_exec(s: &str, n: usize, i: usize) -> (r: usize)
    requires
        n == s@.len(),
        i <= n,
    ensures
        r == skip_ws(s@, i as int),
        i <= r <= n,
{
    let mut k: usize = i;
    while k < n && is_space_char(s.get_char(k))
        invariant
            i <= k <= n,
            skip_ws(s@, i as int) == skip_ws(s@, k as int),
        decreases n - k,
    {
        k = k + 1;
    }
    k
}

#[verifier::loop_isolation(false)]
fn parse_item_exec(s: &str, n: usize, i: usize) -> (r: Option<usize>)
    requires
        n == s@.len(),
        i <= n,
    ensures
        r matches Some(j) ==> j == parse_item(s@, i as int) && i < j <= n,
        r is None ==> parse_item(s@, i as int) == -1,
{
    proof {
        reveal_strlit("feature");
        reveal_strlit(")");
    }
    let a = skip_ws_exec(s, n, i);
    if a >= n || s.get_char(a) != '#' {
        return None;
    }
    let b = skip_ws_exec(s, n, a + 1);
    if b >= n || s.get_char(b) != '!' {
        return None;
    }
    let c = skip_ws_exec(s, n, b + 1);
    if c >= n || s.get_char(c) != '[' {
        return None;
    }
    let d = skip_ws_exec(s, n, c + 1);
    if !check_match_at(s, n, "feature", 7, d) {
        return None;
    }
    let e = skip_ws_exec(s, n, d + 7);
    if e >= n || s.get_char(e) != '(' {
        return None;
    }
    let p = match find_sub(s, n, ")", 1, e + 1) {
        Some(p) => p,
        None => {
            return None;
        },
    };
    proof {
        lemma_find_from(s@, ")"@, e + 1);
    }
    if p < e + 2 {
        return None;
    }
    let q = skip_ws_exec(s, n, p + 1);
    if q >= n || s.get_char(q) != ']' {
        return None;
    }
    Some(q + 1)
}

/// Length of the leading run of feature-opt-in attributes of `s`, as
/// `feature_prefix_end` gives it. The snippet harness hoists this prefix
/// above the synthesized entry point.
pub fn feature_prefix_len(s: &str) -> (r: usize)
    ensures
        r == feature_prefix_end(s@, 0),
        r <= s@.len(),
{
    let n = s.unicode_len();
    let mut i: usize = 0;
    loop
        invariant_except_break
            i <= n,
            n == s@.len(),
            feature_prefix_end(s@, 0) == feature_prefix_end(s@, i as int),
        ensures
            i <= n,
            feature_prefix_end(s@, 0) == i,
        decreases n - i,
    {
        match parse_item_exec(s, n, i) {
            Some(j) => {
                i = j;
            },
            None => {
                proof {
                    assert(feature_prefix_end(s@, i as int) == i);
                }
                break ;
            },
        }
    }
    i
}

/// The languages the sandbox runs, each with its entry marker, harness and
/// run command.
#[derive(Clone, Copy, Debug, PartialEq, Eq, Structural)]
pub enum Language {
    Cpp,
    Rust,
    Python,
}

/// The program text around a C++ snippet: the snippet becomes the body of a
/// helper whose value is printed from a synthesized entry point; a snippet
/// holding `return` is kept as a plain body, any other is wrapped in a
/// statement expression, with `;` supplied when the snippet does not already
/// end in `;` or `}`.
pub open spec fn spec_wrap_cpp(rest: Seq<char>) -> Seq<char> {
    let semi: Seq<char> = if rest.len() > 0 && (rest.last() == ';' || rest.last() == '}') {
        Seq::<char>::empty()
    } else {
        ";"@
    };
    let body: Seq<char> = if contains_sub(rest, "return"@) {
        rest + semi
    } else {
        "return ({"@ + rest + semi + "});"@
    };
    "#include <cstdio>\n#include <iostream>\n#include <string>\n#include <string_view>\n#include <vector>\nauto expr() { \n"@
        + body + "\n } int main() { std::cout << expr(); }"@
}

fn wrap_cpp(rest: &str) -> (r: String)
    ensures
        r@ == spec_wrap_cpp(rest@),
{
    let has_return = contains_str(rest, "return");
    let n = rest.unicode_len();
    let ends_closed = n > 0 && {
        let c = rest.get_char(n - 1);
        c == ';' || c == '}'
    };
    let mut r =
        "#include <cstdio>\n#include <iostream>\n#include <string>\n#include <string_view>\n#include <vector>\nauto expr() { \n".to_owned();
    if has_return {
        r.append(rest);
        if !ends_closed {
            r.append(";");
        }
    } else {
        r.append("return ({");
        r.append(rest);
        if !ends_closed {
            r.append(";");
        }
        r.append("});");
    }
    r.append("\n } int main() { std::cout << expr(); }");
    proof {
        assert(r@ =~= spec_wrap_cpp(rest@));
    }
    r
}

/// The program text around a Rust snippet: any leading feature-opt-in
/// attributes are hoisted above the synthesized code, and the remainder
/// becomes the body of a helper returning a debug-printable value that the
/// entry point prints only when it is not the unit value.
pub open spec fn spec_wrap_rust(rest: Seq<char>) -> Seq<char> {
    let fe = feature_prefix_end(rest, 0);
    let features = rest.subrange(0, fe);
    let inner = rest.subrange(fe, rest.len() as int);
    features + "\n"@ + "fn expr() -> impl std::fmt::Debug + 'static {\n"@ + inner + "\n"@
        + "}\nfn main() {\n    fn is_unit<T: 'static>(_: &T) -> bool {\n        std::any::TypeId::of::<()>() == std::any::TypeId::of::<T>()\n    }\n    let v = expr();\n    if !is_unit(&v) {\n        println!(\"{v:#?}\");\n    }\n}\n"@
}

fn wrap_rust(rest: &str) -> (r: String)
    ensures
        r@ == spec_wrap_rust(rest@),
{
    let n = rest.unicode_len();
    let fe = feature_prefix_len(rest);
    let mut r = rest.substring_char(0, fe).to_owned();
    r.append("\n");
    r.append("fn expr() -> impl std::fmt::Debug + 'static {\n");
    r.append(rest.substring_char(fe, n));
    r.append("\n");
    r.append(
        "}\nfn main() {\n    fn is_unit<T: 'static>(_: &T) -> bool {\n        std::any::TypeId::of::<()>() == std::any::TypeId::of::<T>()\n    }\n    let v = expr();\n    if !is_unit(&v) {\n        println!(\"{v:#?}\");\n    }\n}\n",
    );
    proof {
        assert(r@ =~= spec_wrap_rust(rest@));
    }
    r
}

/// The driver script that evaluates a Python snippet inside the sandbox:
/// it splits a trailing bare expression off the statements, runs the
/// statements, then evaluates and prints the expression if there is one.
pub open spec fn spec_python_driver() -> Seq<char> {
    "\nimport ast\ncode = open(\"code\").read()\na = ast.parse(code, \"code\")\nlast_expression = None\nif a.body and isinstance(a.body[-1], ast.Expr):\n    last_expression = a.body.pop()\ng = {}\nl = {}\nexec(compile(a, \"code\", \"exec\"), g, l)\nif last_expression:\n    eval(compile(ast.Interactive([last_expression]), \"code\", \"single\"), g, l)\n"@
}

impl Language {
    /// The entry-point marker whose presence means the snippet is already a
    /// complete program. The scripting language has none: its driver takes
    /// any snippet as it stands.
    pub open spec fn spec_entry_marker(self) -> Seq<char> {
        match self {
            Language::Cpp => "int main"@,
            Language::Rust => "fn main"@,
            Language::Python => ""@,
        }
    }

    /// Executable form of `spec_entry_marker`.
    pub fn entry_marker(self) -> (r: &'static str)
        ensures
            r@ == self.spec_entry_marker(),
    {
        match self {
            Language::Cpp => "int main",
            Language::Rust => "fn main",
            Language::Python => "",
        }
    }

    /// The harness around a snippet of this language.
    pub open spec fn spec_wrap(self, rest: Seq<char>) -> Seq<char> {
        match self {
            Language::Cpp => spec_wrap_cpp(rest),
            Language::Rust => spec_wrap_rust(rest),
            Language::Python => rest,
        }
    }

    /// Wraps a snippet that lacks this language's entry point into a
    /// complete program. The scripting language never reaches this call:
    /// its empty entry marker is contained in every snippet.
    pub fn wrap(self, rest: &str) -> (r: String)
        requires
            !(self is Python),
        ensures
            r@ == self.spec_wrap(rest@),
    {
        match self {
            Language::Cpp => wrap_cpp(rest),
            Language::Rust => wrap_rust(rest),
            Language::Python => rest.to_owned(),
        }
    }

    /// The shell command that compiles and runs the submitted file, with
    /// the user's options spliced in.
    pub open spec fn spec_runner(self, options: Seq<char>) -> Seq<char> {
        match self {
            Language::Cpp => "mv code{,.cpp}; clang++ -std=c++17 -Wall -Wextra "@ + options
                + " code.cpp && ./a.out"@,
            Language::Rust => "mv code{,.rs}; $RUST_NIGHTLY/bin/rustc --edition 2021 "@ + options
                + " code.rs && ./code"@,
            Language::Python => "python3 "@ + options + " -u -c '"@ + spec_python_driver() + "'"@,
        }
    }

    /// Executable form of `spec_runner`.
    pub fn runner(self, options: &str) -> (r: String)
        ensures
            r@ == self.spec_runner(options@),
    {
        match self {
            Language::Cpp => {
                let mut r = "mv code{,.cpp}; clang++ -std=c++17 -Wall -Wextra ".to_owned();
                r.append(options);
                r.append(" code.cpp && ./a.out");
                proof {
                    assert(r@ =~= self.spec_runner(options@));
                }
                r
            },
            Language::Rust => {
                let mut r = "mv code{,.rs}; $RUST_NIGHTLY/bin/rustc --edition 2021 ".to_owned();
                r.append(options);
                r.append(" code.rs && ./code");
                proof {
                    assert(r@ =~= self.spec_runner(options@));
                }
                r
            },
            Language::Python => {
                let mut r = "python3 ".to_owned();
                r.append(options);
                r.append(" -u -c '");
                r.append(
                    "\nimport ast\ncode = open(\"code\").read()\na = ast.parse(code, \"code\")\nlast_expression = None\nif a.body and isinstance(a.body[-1], ast.Expr):\n    last_expression = a.body.pop()\ng = {}\nl = {}\nexec(compile(a, \"code\", \"exec\"), g, l)\nif last_expression:\n    eval(compile(ast.Interactive([last_expression]), \"code\", \"single\"), g, l)\n",
                );
                r.append("'");
                proof {
                    assert(r@ =~= self.spec_runner(options@));
                }
                r
            },
        }
    }
}

} // verus!

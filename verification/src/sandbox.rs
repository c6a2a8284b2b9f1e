//! Construction of sandbox execution requests from raw chat input, and the
//! filtering and rendering of the results that come back. The remote call
//! itself lives outside this crate; these functions compute everything
//! around it.
use crate::fence::parse_code;
use crate::fence::spec_parse;
use crate::filter::filter;
use crate::filter::spec_filter;
use crate::harness::needs_wrapping;
use crate::harness::Language;
use crate::render::render;
use crate::render::spec_attaches;
use crate::render::spec_inline_text;
use crate::render::spec_status_line;
use crate::render::Rendered;
use crate::text::contains_sub;
use crate::text::spec_trim;
use crate::text::trim;
use vstd::prelude::*;
use vstd::string::StrSliceExecFns;
use vstd::string::StringExecFns;
use vstd::string::StringSliceAdditionalSpecFns;
use vstd::utf8::encode_utf8;

verus! {

/// A job description for the remote executor: the standard input, the shell
/// command to run, and the contents of the one submitted file when the job
/// carries one.
pub struct ExecutionRequest {
    pub stdin: String,
    pub code: String,
    pub file: Option<String>,
}

/// The program text submitted for a snippet: the snippet itself when it
/// already holds the language's entry marker, else the trimmed snippet
/// wrapped in the language's harness.
pub open spec fn spec_program(lang: Language, code: Seq<char>) -> Seq<char> {
    if contains_sub(code, lang.spec_entry_marker()) {
        code
    } else {
        lang.spec_wrap(spec_trim(code))
    }
}

/// Builds the execution request for one snippet command: the raw chat text
/// is split into options and code, the code is wrapped when it lacks the
/// entry marker, and the language's run command carries the options.
pub fn eval_prepare(lang: Language, raw: &str) -> (r: ExecutionRequest)
    ensures
        r.stdin@ == Seq::<char>::empty(),
        r.code@ == lang.spec_runner(spec_parse(raw@).0),
        r.file matches Some(f) && f@ == spec_program(lang, spec_parse(raw@).1),
{
    let parsed = parse_code(raw);
    let marker = lang.entry_marker();
    let program = if !needs_wrapping(parsed.code.as_str(), marker) {
        parsed.code
    } else {
        proof {
            if lang is Python {
                reveal_strlit("");
                assert(parsed.code@.subrange(0, 0) =~= ""@);
                assert(crate::text::match_at(parsed.code@, ""@, 0));
                assert(false);
            }
        }
        lang.wrap(trim(parsed.code.as_str()))
    };
    ExecutionRequest {
        stdin: String::new(),
        code: lang.runner(parsed.options.as_str()),
        file: Some(program),
    }
}

/// Filters the sandbox output and renders it with the process status, as
/// one step: what the snippet commands do with every result that comes
/// back.
pub fn eval_finish(output: &str, status: Option<i32>) -> (r: Rendered)
    ensures
        spec_attaches(encode_utf8(spec_filter(output@))) ==> (r matches Rendered::Attachment {
            caption,
            filename,
            data,
        } && caption@ == spec_status_line(status) && filename@ == "output.txt"@ && data@
            == spec_filter(output@)),
        !spec_attaches(encode_utf8(spec_filter(output@))) ==> (r matches Rendered::Inline { text }
            && text@ == spec_inline_text(spec_filter(output@), status)),
{
    let filtered = filter(output);
    render(filtered.as_str(), status)
}

/// Builds the no-file request of the text-repair command: the raw text
/// goes to the fixed tool's standard input.
pub fn ftfy_request(text: &str) -> (r: ExecutionRequest)
    ensures
        r.stdin@ == text@,
        r.code@ == "ftfy"@,
        r.file is None,
{
    ExecutionRequest { stdin: text.to_owned(), code: "ftfy".to_owned(), file: None }
}

/// A compile-only job for the compile-explorer service: the source text and
/// the compiler's argument string.
pub struct CompileRequest {
    pub source: String,
    pub user_arguments: String,
}

/// Builds the compile-explorer request of the assembly-output command: the
/// snippet gains a fixed include line, and the user's options follow the
/// fixed argument set.
pub fn casm_prepare(raw: &str) -> (r: CompileRequest)
    ensures
        r.source@ == "#include <cstdint>\n"@ + spec_parse(raw@).1,
        r.user_arguments@ == "-Os -fno-color-diagnostics -g0 -mcpu=mosw65816 --std=c++20 "@
            + spec_parse(raw@).0,
{
    let parsed = parse_code(raw);
    let mut source = "#include <cstdint>\n".to_owned();
    source.append(parsed.code.as_str());
    let mut user_arguments = "-Os -fno-color-diagnostics -g0 -mcpu=mosw65816 --std=c++20 ".to_owned();
    user_arguments.append(parsed.options.as_str());
    CompileRequest { source, user_arguments }
}

/// The lines of `v` concatenated, each followed by one newline.
pub open spec fn spec_join_lines(v: Seq<Seq<char>>) -> Seq<char>
    decreases v.len(),
{
    if v.len() == 0 {
        Seq::<char>::empty()
    } else {
        v[0] + "\n"@ + spec_join_lines(v.skip(1))
    }
}

proof fn lemma_join_lines_push(v: Seq<Seq<char>>, x: Seq<char>)
    ensures
        spec_join_lines(v.push(x)) == spec_join_lines(v) + x + "\n"@,
    decreases v.len(),
{
    if v.len() == 0 {
        assert(v.push(x)[0] == x);
        assert(v.push(x).skip(1) =~= Seq::<Seq<char>>::empty());
        assert(spec_join_lines(Seq::<Seq<char>>::empty()) == Seq::<char>::empty());
        assert(spec_join_lines(v.push(x)) == v.push(x)[0] + "\n"@ + spec_join_lines(
            v.push(x).skip(1),
        ));
        assert(spec_join_lines(v.push(x)) =~= Seq::<char>::empty() + x + "\n"@);
    } else {
        assert(v.push(x)[0] == v[0]);
        assert(v.push(x).skip(1) =~= v.skip(1).push(x));
        lemma_join_lines_push(v.skip(1), x);
        assert(spec_join_lines(v.push(x)) == v.push(x)[0] + "\n"@ + spec_join_lines(
            v.push(x).skip(1),
        ));
        assert(spec_join_lines(v) == v[0] + "\n"@ + spec_join_lines(v.skip(1)));
        assert(spec_join_lines(v.push(x)) =~= spec_join_lines(v) + x + "\n"@);
    }
}

#[verifier::loop_isolation(false)]
fn append_lines(acc: &mut String, v: &Vec<String>)
    ensures
        final(acc)@ == old(acc)@ + spec_join_lines(v.deep_view()),
{
    let ghost base = acc@;
    let mut i: usize = 0;
    proof {
        assert(v.deep_view().take(0) =~= Seq::<Seq<char>>::empty());
        assert(acc@ =~= base + spec_join_lines(v.deep_view().take(0)));
    }
    while i < v.len()
        invariant
            i <= v.len(),
            acc@ == base + spec_join_lines(v.deep_view().take(i as int)),
        decreases v.len() - i,
    {
        acc.append(v[i].as_str());
        acc.append("\n");
        proof {
            let dv = v.deep_view();
            assert(dv.take(i + 1) =~= dv.take(i as int).push(dv[i as int]));
            lemma_join_lines_push(dv.take(i as int), dv[i as int]);
            assert(dv[i as int] == v@[i as int]@);
            assert(acc@ =~= base + spec_join_lines(dv.take(i + 1)));
        }
        i = i + 1;
    }
    proof {
        assert(v.deep_view().take(v@.len() as int) =~= v.deep_view());
    }
}

/// Concatenates the compile-explorer's output sections, line by line with a
/// newline after each: standard output, then diagnostics, then assembly.
pub fn casm_collect(stdout: &Vec<String>, stderr: &Vec<String>, assembly: &Vec<String>) -> (r: String)
    ensures
        r@ == spec_join_lines(stdout.deep_view()) + spec_join_lines(stderr.deep_view())
            + spec_join_lines(assembly.deep_view()),
{
    let mut r = String::new();
    append_lines(&mut r, stdout);
    append_lines(&mut r, stderr);
    append_lines(&mut r, assembly);
    proof {
        assert(r@ =~= spec_join_lines(stdout.deep_view()) + spec_join_lines(stderr.deep_view())
            + spec_join_lines(assembly.deep_view()));
    }
    r
}

} // verus!

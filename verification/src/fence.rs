//! Extraction of `(options, code)` from raw chat text that may carry a
//! markdown code fence or backtick quoting around the code.
//!
//! The rules, first match wins:
//! 1. a triple-backtick fence with a language tag line and a closing fence;
//! 2. a single-backtick span, with symmetric nested backticks stripped;
//! 3. otherwise the whole input is the code and the options are empty.
//! The parser never fails: a partial fence falls through to the next rule.
use crate::text::all_tag_chars;
use crate::text::check_match_at;
use crate::text::find_from;
use crate::text::find_sub;
use crate::text::is_tag_char_exec;
use crate::text::lemma_find_from;
use crate::text::spec_trim;
use crate::text::trim;
use vstd::prelude::*;
use vstd::string::StrSliceExecFns;
use vstd::string::StringExecFns;

verus! {

/// An option string and a code snippet, as split off one raw input.
#[derive(Debug, PartialEq, Eq)]
pub struct Parsed {
    pub options: String,
    pub code: String,
}

impl Parsed {
    /// Packs the two parts, trimming whitespace around the options.
    pub fn new(options: &str, code: &str) -> (r: Parsed)
        ensures
            r.options@ == spec_trim(options@),
            r.code@ == code@,
    {
        Parsed { options: trim(options).to_owned(), code: code.to_owned() }
    }
}

/// `s` with one layer of backticks stripped from both ends, repeatedly,
/// while both ends carry one.
pub open spec fn spec_strip_ticks(s: Seq<char>) -> Seq<char>
    decreases s.len(),
{
    if s.len() >= 2 && s[0] == '`' && s.last() == '`' {
        spec_strip_ticks(s.subrange(1, s.len() - 1))
    } else {
        s
    }
}

/// The `(options, code)` pair under the single-backtick rule: the text before
/// the first backtick is the options; if the remainder ends with a backtick,
/// symmetric backtick layers are stripped off the code, otherwise the code
/// stays the whole input.
pub open spec fn spec_parse_single(s: Seq<char>) -> (Seq<char>, Seq<char>) {
    let b = find_from(s, "`"@, 0);
    if b >= 0 {
        let rest = s.subrange(b + 1, s.len() as int);
        if rest.len() >= 1 && rest.last() == '`' {
            (s.subrange(0, b), spec_strip_ticks(rest.subrange(0, rest.len() - 1)))
        } else {
            (s.subrange(0, b), s)
        }
    } else {
        (Seq::<char>::empty(), s)
    }
}

/// Whether the triple-fence rule applies: a first `` ``` `` is found, a
/// newline follows it, the line between them is a language tag (ASCII
/// alphanumerics and `+` only), and the remainder ends with a closing fence.
pub open spec fn spec_fence_ok(s: Seq<char>) -> bool {
    let f = find_from(s, "```"@, 0);
    let rem = s.subrange(f + 3, s.len() as int);
    let nl = find_from(rem, "\n"@, 0);
    let rest = rem.subrange(nl + 1, rem.len() as int);
    f >= 0 && nl >= 0 && all_tag_chars(rem.subrange(0, nl)) && rest.len() >= 3 && rest.subrange(
        rest.len() - 3,
        rest.len() as int,
    ) == "```"@
}

/// The `(options, code)` pair when the triple-fence rule applies: the text
/// before the fence, and the lines after the tag with the closing fence
/// stripped.
pub open spec fn spec_fence_result(s: Seq<char>) -> (Seq<char>, Seq<char>) {
    let f = find_from(s, "```"@, 0);
    let rem = s.subrange(f + 3, s.len() as int);
    let nl = find_from(rem, "\n"@, 0);
    let rest = rem.subrange(nl + 1, rem.len() as int);
    (s.subrange(0, f), rest.subrange(0, rest.len() - 3))
}

/// The full parse: the fence rule when it applies, the backtick rule
/// otherwise, with the options trimmed either way.
pub open spec fn spec_parse(s: Seq<char>) -> (Seq<char>, Seq<char>) {
    let raw = if spec_fence_ok(s) {
        spec_fence_result(s)
    } else {
        spec_parse_single(s)
    };
    (spec_trim(raw.0), raw.1)
}

#[verifier::loop_isolation(false)]
fn try_fenced(s: &str, n: usize) -> (r: Option<Parsed>)
    requires
        n == s@.len(),
    ensures
        r is Some ==> spec_fence_ok(s@) && r->Some_0.options@ == spec_trim(spec_fence_result(s@).0)
            && r->Some_0.code@ == spec_fence_result(s@).1,
        r is None ==> !spec_fence_ok(s@),
{
    proof {
        reveal_strlit("```");
        reveal_strlit("\n");
    }
    let m3 = "```".unicode_len();
    let f = match find_sub(s, n, "```", m3, 0) {
        Some(f) => f,
        None => {
            return None;
        },
    };
    proof {
        lemma_find_from(s@, "```"@, 0);
        assert(f + 3 <= n);
    }
    let rem = s.substring_char(f + m3, n);
    let rl = n - f - m3;
    let ghost grem = s@.subrange(f + 3, s@.len() as int);
    let m1 = "\n".unicode_len();
    let nl = match find_sub(rem, rl, "\n", m1, 0) {
        Some(nl) => nl,
        None => {
            return None;
        },
    };
    proof {
        lemma_find_from(rem@, "\n"@, 0);
        assert(nl + 1 <= rl);
    }
    let mut k: usize = 0;
    while k < nl
        invariant
            n == s@.len(),
            rem@ == grem,
            nl < rl == grem.len(),
            k <= nl,
            forall|j: int| 0 <= j < k ==> crate::text::is_tag_char(grem.subrange(0, nl as int)[j]),
        decreases nl - k,
    {
        if !is_tag_char_exec(rem.get_char(k)) {
            proof {
                assert(grem.subrange(0, nl as int)[k as int] == grem[k as int]);
                assert(!all_tag_chars(grem.subrange(0, nl as int)));
            }
            return None;
        }
        k = k + 1;
    }
    proof {
        assert(all_tag_chars(grem.subrange(0, nl as int)));
    }
    let rest = rem.substring_char(nl + 1, rl);
    let restl = rl - nl - 1;
    let ghost grest = grem.subrange(nl + 1, grem.len() as int);
    if restl < m3 {
        return None;
    }
    if !check_match_at(rest, restl, "```", m3, restl - m3) {
        proof {
            assert(grest.subrange(grest.len() - 3, grest.len() as int) =~= rest@.subrange(
                restl - 3,
                restl as int,
            ));
        }
        return None;
    }
    let code = rest.substring_char(0, restl - m3);
    let opts = s.substring_char(0, f);
    proof {
        assert(rest@.subrange(restl - 3, restl as int) =~= grest.subrange(
            grest.len() - 3,
            grest.len() as int,
        ));
        assert(spec_fence_ok(s@));
        assert(code@ =~= grest.subrange(0, grest.len() - 3));
    }
    Some(Parsed::new(opts, code))
}

#[verifier::loop_isolation(false)]
fn parse_single_tick(s: &str, n: usize) -> (r: Parsed)
    requires
        n == s@.len(),
    ensures
        r.options@ == spec_trim(spec_parse_single(s@).0),
        r.code@ == spec_parse_single(s@).1,
{
    proof {
        reveal_strlit("`");
        reveal_strlit("");
    }
    let m1 = "`".unicode_len();
    let b = match find_sub(s, n, "`", m1, 0) {
        Some(b) => b,
        None => {
            proof {
                assert(""@ =~= Seq::<char>::empty());
            }
            return Parsed::new("", s.substring_char(0, n));
        },
    };
    proof {
        lemma_find_from(s@, "`"@, 0);
        assert(b + 1 <= n);
    }
    let opts = s.substring_char(0, b);
    let ghost grest = s@.subrange(b + 1, s@.len() as int);
    if n - b - 1 >= 1 && s.get_char(n - 1) == '`' {
        proof {
            assert(grest.last() == s@[n - 1]);
        }
        let mut lo: usize = b + 1;
        let mut hi: usize = n - 1;
        proof {
            assert(grest.subrange(0, grest.len() - 1) =~= s@.subrange(lo as int, hi as int));
        }
        while hi - lo >= 2 && s.get_char(lo) == '`' && s.get_char(hi - 1) == '`'
            invariant
                n == s@.len(),
                b + 1 <= lo <= hi <= n - 1,
                spec_strip_ticks(grest.subrange(0, grest.len() - 1)) == spec_strip_ticks(
                    s@.subrange(lo as int, hi as int),
                ),
            decreases hi - lo,
        {
            let ghost cur = s@.subrange(lo as int, hi as int);
            proof {
                assert(cur[0] == s@[lo as int]);
                assert(cur.last() == s@[hi - 1]);
                assert(cur.subrange(1, cur.len() - 1) =~= s@.subrange(lo + 1, hi - 1));
            }
            lo = lo + 1;
            hi = hi - 1;
        }
        let code = s.substring_char(lo, hi);
        proof {
            let cur = s@.subrange(lo as int, hi as int);
            if cur.len() >= 2 {
                assert(cur[0] == s@[lo as int]);
                assert(cur.last() == s@[hi - 1]);
            }
            assert(spec_strip_ticks(cur) == cur);
        }
        Parsed::new(opts, code)
    } else {
        let whole = s.substring_char(0, n);
        proof {
            assert(whole@ =~= s@);
        }
        Parsed::new(opts, whole)
    }
}

/// A parse yields options only when backtick markup encloses the code:
/// without any backtick in the input, the options are empty and the code is
/// the whole input, unchanged.
pub proof fn lemma_parse_no_markup(s: Seq<char>)
    requires
        find_from(s, "`"@, 0) == -1,
    ensures
        spec_parse(s).0 == Seq::<char>::empty(),
        spec_parse(s).1 == s,
{
    reveal_strlit("`");
    reveal_strlit("```");
    lemma_find_from(s, "`"@, 0);
    lemma_find_from(s, "```"@, 0);
    let f = find_from(s, "```"@, 0);
    if f >= 0 {
        assert(s.subrange(f, f + 3)[0] == s[f]);
        assert(s.subrange(f, f + 1) =~= "`"@);
        assert(crate::text::match_at(s, "`"@, f));
        assert(false);
    }
    assert(!spec_fence_ok(s));
    assert(crate::text::spec_trim_start(Seq::<char>::empty()) == Seq::<char>::empty());
    assert(crate::text::spec_trim_end(Seq::<char>::empty()) == Seq::<char>::empty());
}

/// Splits a raw chat message into compiler options and the code snippet,
/// following the fence and backtick rules of `spec_parse`. Never fails:
/// unmatched fences degrade to "no options, raw text as code".
pub fn parse_code(s: &str) -> (r: Parsed)
    ensures
        r.options@ == spec_parse(s@).0,
        r.code@ == spec_parse(s@).1,
{
    let n = s.unicode_len();
    match try_fenced(s, n) {
        Some(p) => p,
        None => parse_single_tick(s, n),
    }
}

} // verus!

//! Scrubbing of sandbox-internal artifacts from program output: toolchain
//! installation paths that leak into compiler diagnostics, and the executor's
//! control-byte framing (a `\u{7F}` before `E` or `O` is deleted; a doubled
//! `\u{7F}` is an escape for a literal one).
use crate::text::find_from;
use crate::text::lemma_find_from;
use crate::text::match_at;
use crate::text::spec_replace;
use crate::text::check_match_at;
use crate::text::find_sub;
use crate::text::replace_str;
use vstd::prelude::*;
use vstd::string::StrSliceExecFns;
use vstd::string::StringExecFns;

verus! {

/// Whether the toolchain-path segment between `lo` and `j` (exclusive) holds
/// a compiler-version marker with at least one character on either side.
pub open spec fn gcc_interior(s: Seq<char>, lo: int, j: int) -> bool {
    exists|k: int| lo + 1 <= k && k + 5 <= j - 1 && match_at(s, "-gcc-"@, k)
}

/// Length of the toolchain-path pattern starting at `i`, or 0 when it does
/// not match there. The pattern is a store path whose first segment holds a
/// compiler-version marker, followed by the standard-library include
/// directory and one further segment, each segment free of `/`.
pub open spec fn path_match_len(s: Seq<char>, i: int) -> int {
    let j = find_from(s, "/"@, i + 11);
    let m = find_from(s, "/"@, j + 13);
    if match_at(s, "/nix/store/"@, i) && j >= i + 12 && gcc_interior(s, i + 11, j) && match_at(
        s,
        "/include/c++/"@,
        j,
    ) && m >= j + 14 {
        m + 1 - i
    } else {
        0
    }
}

/// Whether the executor's framing artifact (`\u{7F}` before `E` or `O`)
/// stands at `i`.
pub open spec fn del_match(s: Seq<char>, i: int) -> bool {
    0 <= i && i + 2 <= s.len() && s[i] == '\u{7F}' && (s[i + 1] == 'E' || s[i + 1] == 'O')
}

/// Length of the pattern to remove at `i`, or 0 when none matches there.
pub open spec fn filter_match_len(s: Seq<char>, i: int) -> int {
    if path_match_len(s, i) > 0 {
        path_match_len(s, i)
    } else if del_match(s, i) {
        2
    } else {
        0
    }
}

/// `s` from position `i` on, with every pattern occurrence removed, scanning
/// left to right without overlap.
pub open spec fn spec_strip_from(s: Seq<char>, i: int) -> Seq<char>
    decreases s.len() - i,
{
    if i < 0 || i >= s.len() {
        Seq::<char>::empty()
    } else {
        let l = filter_match_len(s, i);
        if 1 <= l && i + l <= s.len() {
            spec_strip_from(s, i + l)
        } else {
            seq![s[i]] + spec_strip_from(s, i + 1)
        }
    }
}

/// The whole output filter: pattern removal, then un-escaping of doubled
/// `\u{7F}` bytes to single ones.
pub open spec fn spec_filter(s: Seq<char>) -> Seq<char> {
    spec_replace(spec_strip_from(s, 0), "\u{7F}\u{7F}"@, "\u{7F}"@)
}

#[verifier::loop_isolation(false)]
fn path_match_len_exec(s: &str, n: usize, i: usize) -> (l: usize)
    requires
        n == s@.len(),
        i < n,
    ensures
        l == path_match_len(s@, i as int),
        i + l <= n,
{
    proof {
        reveal_strlit("/nix/store/");
        reveal_strlit("/include/c++/");
        reveal_strlit("-gcc-");
        reveal_strlit("/");
    }
    let p11 = "/nix/store/".unicode_len();
    let p13 = "/include/c++/".unicode_len();
    let p5 = "-gcc-".unicode_len();
    let p1 = "/".unicode_len();
    if !check_match_at(s, n, "/nix/store/", p11, i) {
        return 0;
    }
    let j = match find_sub(s, n, "/", p1, i + p11) {
        Some(j) => j,
        None => {
            return 0;
        },
    };
    proof {
        lemma_find_from(s@, "/"@, i + 11);
    }
    if j < i + p11 + 1 {
        return 0;
    }
    // scan the first segment for the version marker, interior only
    let mut found = false;
    let mut k: usize = i + p11 + 1;
    while k <= j - p5 - 1 && !found
        invariant
            n == s@.len(),
            i + 12 <= k <= j,
            found ==> gcc_interior(s@, i + 11, j as int),
            !found ==> forall|q: int| i + 12 <= q < k ==> !match_at(s@, "-gcc-"@, q),
        decreases j - k,
    {
        if check_match_at(s, n, "-gcc-", p5, k) {
            found = true;
        }
        k = k + 1;
    }
    if !found {
        proof {
            assert forall|q: int| !(i + 11 + 1 <= q && q + 5 <= j - 1 && match_at(
                s@,
                "-gcc-"@,
                q,
            )) by {
                if i + 12 <= q && q + 5 <= j - 1 {
                    assert(q < k);
                }
            }
        }
        return 0;
    }
    if !check_match_at(s, n, "/include/c++/", p13, j) {
        return 0;
    }
    let m = match find_sub(s, n, "/", p1, j + p13) {
        Some(m) => m,
        None => {
            return 0;
        },
    };
    proof {
        lemma_find_from(s@, "/"@, j + 13);
    }
    if m < j + p13 + 1 {
        return 0;
    }
    proof {
        assert(path_match_len(s@, i as int) == m + 1 - i);
    }
    m + 1 - i
}

#[verifier::loop_isolation(false)]
fn filter_match_len_exec(s: &str, n: usize, i: usize) -> (l: usize)
    requires
        n == s@.len(),
        i < n,
    ensures
        l == filter_match_len(s@, i as int),
        i + l <= n,
{
    let p = path_match_len_exec(s, n, i);
    if p > 0 {
        return p;
    }
    if n - i >= 2 && s.get_char(i) == '\u{7F}' {
        let c = s.get_char(i + 1);
        if c == 'E' || c == 'O' {
            return 2;
        }
    }
    0
}

/// Removes sandbox-internal artifacts from raw program output: toolchain
/// path prefixes and control-byte framing, with doubled control bytes
/// un-escaped back to single ones. Pure text transformation.
#[verifier::loop_isolation(false)]
pub fn filter(output: &str) -> (r: String)
    ensures
        r@ == spec_filter(output@),
{
    let n = output.unicode_len();
    let mut acc = String::new();
    let mut i: usize = 0;
    proof {
        assert(acc@ + spec_strip_from(output@, 0) =~= spec_strip_from(output@, 0));
    }
    while i < n
        invariant
            i <= n,
            acc@ + spec_strip_from(output@, i as int) == spec_strip_from(output@, 0),
        decreases n - i,
    {
        let l = filter_match_len_exec(output, n, i);
        if l > 0 {
            i = i + l;
        } else {
            let piece = output.substring_char(i, i + 1);
            acc.append(piece);
            proof {
                assert(piece@ =~= seq![output@[i as int]]);
                assert(acc@ + spec_strip_from(output@, i + 1) =~= spec_strip_from(output@, 0));
            }
            i = i + 1;
        }
    }
    proof {
        assert(acc@ + spec_strip_from(output@, n as int) =~= acc@);
        reveal_strlit("\u{7F}\u{7F}");
        reveal_strlit("\u{7F}");
    }
    replace_str(acc.as_str(), "\u{7F}\u{7F}", "\u{7F}")
}

/// Whether `s` holds none of the patterns the filter acts on: no
/// toolchain-path match, no framing artifact, and no doubled control byte.
pub open spec fn spec_clean(s: Seq<char>) -> bool {
    (forall|i: int| 0 <= i < s.len() ==> filter_match_len(s, i) == 0) && (forall|i: int|
        0 <= i && i + 1 < s.len() ==> !(#[trigger] s[i] == '\u{7F}' && s[i + 1] == '\u{7F}'))
}

proof fn lemma_strip_clean(s: Seq<char>, i: int)
    requires
        0 <= i <= s.len(),
        forall|j: int| 0 <= j < s.len() ==> filter_match_len(s, j) == 0,
    ensures
        spec_strip_from(s, i) == s.skip(i),
    decreases s.len() - i,
{
    if i >= s.len() {
        assert(s.skip(i) =~= Seq::<char>::empty());
    } else {
        lemma_strip_clean(s, i + 1);
        assert(seq![s[i]] + s.skip(i + 1) =~= s.skip(i));
    }
}

proof fn lemma_unescape_clean(s: Seq<char>)
    requires
        forall|i: int|
            0 <= i && i + 1 < s.len() ==> !(#[trigger] s[i] == '\u{7F}' && s[i + 1] == '\u{7F}'),
    ensures
        spec_replace(s, "\u{7F}\u{7F}"@, "\u{7F}"@) == s,
    decreases s.len(),
{
    reveal_strlit("\u{7F}\u{7F}");
    reveal_strlit("\u{7F}");
    if s.len() == 0 {
    } else {
        if match_at(s, "\u{7F}\u{7F}"@, 0) {
            assert(s.subrange(0, 2)[0] == s[0]);
            assert(s.subrange(0, 2)[1] == s[1]);
            assert(false);
        }
        let t = s.skip(1);
        assert forall|i: int| 0 <= i && i + 1 < t.len() implies !(#[trigger] t[i] == '\u{7F}' && t[i
            + 1] == '\u{7F}') by {
            assert(t[i] == s[i + 1] && t[i + 1] == s[i + 2]);
        }
        lemma_unescape_clean(t);
        assert(seq![s[0]] + t =~= s);
    }
}

/// The filter leaves a string unchanged when the string holds none of the
/// patterns it acts on; in particular it is idempotent on such strings.
pub proof fn lemma_filter_clean_fixed(s: Seq<char>)
    requires
        spec_clean(s),
    ensures
        spec_filter(s) == s,
{
    lemma_strip_clean(s, 0);
    assert(s.skip(0) =~= s);
    lemma_unescape_clean(s);
}

/// One filter application followed by another gives the same result as one,
/// whenever the first application leaves a string with none of the patterns.
pub proof fn lemma_filter_idempotent(s: Seq<char>)
    requires
        spec_clean(spec_filter(s)),
    ensures
        spec_filter(spec_filter(s)) == spec_filter(s),
{
    lemma_filter_clean_fixed(spec_filter(s));
}

proof fn lemma_match_len_bound(s: Seq<char>, i: int)
    requires
        0 <= i < s.len(),
    ensures
        0 <= filter_match_len(s, i),
        i + filter_match_len(s, i) <= s.len(),
{
    reveal_strlit("/");
    if path_match_len(s, i) > 0 {
        let j = find_from(s, "/"@, i + 11);
        let m = find_from(s, "/"@, j + 13);
        lemma_find_from(s, "/"@, i + 11);
        lemma_find_from(s, "/"@, j + 13);
    }
}

proof fn lemma_strip_len(s: Seq<char>, i: int)
    requires
        0 <= i <= s.len(),
    ensures
        spec_strip_from(s, i).len() <= s.len() - i,
    decreases s.len() - i,
{
    if i < s.len() {
        let l = filter_match_len(s, i);
        if 1 <= l && i + l <= s.len() {
            lemma_strip_len(s, i + l);
        } else {
            lemma_strip_len(s, i + 1);
        }
    }
}

proof fn lemma_strip_strict(s: Seq<char>, i: int, j: int)
    requires
        0 <= i <= j < s.len(),
        filter_match_len(s, j) > 0,
    ensures
        spec_strip_from(s, i).len() < s.len() - i,
    decreases j - i,
{
    let l = filter_match_len(s, i);
    if 1 <= l && i + l <= s.len() {
        lemma_strip_len(s, i + l);
    } else if i == j {
        lemma_match_len_bound(s, j);
        assert(false);
    } else {
        lemma_strip_strict(s, i + 1, j);
    }
}

proof fn lemma_unescape_len(s: Seq<char>)
    ensures
        spec_replace(s, "\u{7F}\u{7F}"@, "\u{7F}"@).len() <= s.len(),
    decreases s.len(),
{
    reveal_strlit("\u{7F}\u{7F}");
    reveal_strlit("\u{7F}");
    if s.len() == 0 {
    } else if match_at(s, "\u{7F}\u{7F}"@, 0) {
        lemma_unescape_len(s.skip(2));
    } else {
        lemma_unescape_len(s.skip(1));
    }
}

proof fn lemma_unescape_strict(s: Seq<char>, p: int)
    requires
        0 <= p,
        p + 1 < s.len(),
        s[p] == '\u{7F}',
        s[p + 1] == '\u{7F}',
    ensures
        spec_replace(s, "\u{7F}\u{7F}"@, "\u{7F}"@).len() < s.len(),
    decreases s.len(),
{
    reveal_strlit("\u{7F}\u{7F}");
    reveal_strlit("\u{7F}");
    if match_at(s, "\u{7F}\u{7F}"@, 0) {
        lemma_unescape_len(s.skip(2));
    } else {
        if p == 0 {
            assert(s.subrange(0, 2) =~= "\u{7F}\u{7F}"@);
            assert(false);
        }
        let t = s.skip(1);
        assert(t[p - 1] == s[p] && t[p] == s[p + 1]);
        lemma_unescape_strict(t, p - 1);
    }
}

/// On a string whose filtered form still holds one of the patterns, a second
/// filter application strictly shrinks it. Together with
/// `lemma_filter_idempotent` this pins down where the filter is idempotent:
/// at exactly the strings whose filtered form is clean.
pub proof fn lemma_filter_shrinks_unclean(s: Seq<char>)
    requires
        !spec_clean(spec_filter(s)),
    ensures
        spec_filter(spec_filter(s)).len() < spec_filter(s).len(),
{
    let t = spec_filter(s);
    if exists|j: int| 0 <= j < t.len() && filter_match_len(t, j) != 0 {
        let j = choose|j: int| 0 <= j < t.len() && filter_match_len(t, j) != 0;
        lemma_match_len_bound(t, j);
        lemma_strip_strict(t, 0, j);
        lemma_unescape_len(spec_strip_from(t, 0));
    } else {
        lemma_strip_clean(t, 0);
        assert(t.skip(0) =~= t);
        let p = choose|p: int|
            0 <= p && p + 1 < t.len() && #[trigger] t[p] == '\u{7F}' && t[p + 1] == '\u{7F}';
        lemma_unescape_strict(t, p);
    }
}

} // verus!

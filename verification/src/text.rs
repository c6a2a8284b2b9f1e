//! Character-level utilities shared by the parsing, filtering and rendering
//! modules: substring search, whitespace trimming and literal replacement,
//! each with an exact functional specification over `Seq<char>`.
use vstd::prelude::*;

verus! {

/// Whether `c` is a whitespace character (the Unicode `White_Space` set,
/// the set that `char::is_whitespace` recognises).
pub open spec fn is_space(c: char) -> bool {
    (c as u32) == 0x9 || (c as u32) == 0xA || (c as u32) == 0xB || (c as u32) == 0xC || (c
        as u32) == 0xD || (c as u32) == 0x20 || (c as u32) == 0x85 || (c as u32) == 0xA0 || (c
        as u32) == 0x1680 || (0x2000 <= (c as u32) && (c as u32) <= 0x200A) || (c as u32)
        == 0x2028 || (c as u32) == 0x2029 || (c as u32) == 0x202F || (c as u32) == 0x205F || (c
        as u32) == 0x3000
}

/// Executable form of `is_space`.
pub fn is_space_char(c: char) -> (r: bool)
    ensures
        r == is_space(c),
{
    let u = c as u32;
    u == 0x9 || u == 0xA || u == 0xB || u == 0xC || u == 0xD || u == 0x20 || u == 0x85 || u == 0xA0
        || u == 0x1680 || (0x2000 <= u && u <= 0x200A) || u == 0x2028 || u == 0x2029 || u == 0x202F
        || u == 0x205F || u == 0x3000
}

/// Whether `c` may stand in a fence language tag: an ASCII alphanumeric
/// or `+`.
pub open spec fn is_tag_char(c: char) -> bool {
    (0x30 <= (c as u32) && (c as u32) <= 0x39) || (0x61 <= (c as u32) && (c as u32) <= 0x7A) || (
    0x41 <= (c as u32) && (c as u32) <= 0x5A) || (c as u32) == 0x2B
}

/// Executable form of `is_tag_char`.
pub fn is_tag_char_exec(c: char) -> (r: bool)
    ensures
        r == is_tag_char(c),
{
    let u = c as u32;
    (0x30 <= u && u <= 0x39) || (0x61 <= u && u <= 0x7A) || (0x41 <= u && u <= 0x5A) || u == 0x2B
}

/// Whether every character of `s` may stand in a fence language tag.
pub open spec fn all_tag_chars(s: Seq<char>) -> bool {
    forall|i: int| 0 <= i < s.len() ==> is_tag_char(s[i])
}

/// Whether `pat` occurs in `s` starting at position `i`.
pub open spec fn match_at(s: Seq<char>, pat: Seq<char>, i: int) -> bool {
    0 <= i && i + pat.len() <= s.len() && s.subrange(i, i + pat.len() as int) == pat
}

/// Whether `pat` occurs anywhere in `s`.
pub open spec fn contains_sub(s: Seq<char>, pat: Seq<char>) -> bool {
    exists|i: int| match_at(s, pat, i)
}

/// Position of the first occurrence of `pat` in `s` at or after `i`,
/// or `-1` if there is none.
pub open spec fn find_from(s: Seq<char>, pat: Seq<char>, i: int) -> int
    decreases s.len() + 1 - i,
{
    if i + pat.len() > s.len() {
        -1
    } else if match_at(s, pat, i) {
        i
    } else {
        find_from(s, pat, i + 1)
    }
}

pub proof fn lemma_find_from(s: Seq<char>, pat: Seq<char>, i: int)
    requires
        0 <= i,
    ensures
        find_from(s, pat, i) == -1 ==> forall|j: int| i <= j ==> !match_at(s, pat, j),
        find_from(s, pat, i) >= 0 ==> i <= find_from(s, pat, i) && match_at(
            s,
            pat,
            find_from(s, pat, i),
        ) && forall|j: int| i <= j < find_from(s, pat, i) ==> !match_at(s, pat, j),
        find_from(s, pat, i) == -1 || find_from(s, pat, i) >= i,
    decreases s.len() + 1 - i,
{
    if i + pat.len() > s.len() {
        assert forall|j: int| i <= j implies !match_at(s, pat, j) by {}
    } else if match_at(s, pat, i) {
    } else {
        lemma_find_from(s, pat, i + 1);
    }
}

/// Executable check that `pat` occurs in `s` at position `i`.
/// `n` and `m` are the character lengths of `s` and `pat`.
pub fn check_match_at(s: &str, n: usize, pat: &str, m: usize, i: usize) -> (b: bool)
    requires
        n == s@.len(),
        m == pat@.len(),
        i <= n,
    ensures
        b == match_at(s@, pat@, i as int),
{
    if m > n - i {
        return false;
    }
    let mut k: usize = 0;
    while k < m
        invariant
            n == s@.len(),
            m == pat@.len(),
            i <= n,
            m <= n - i,
            k <= m,
            forall|j: int| 0 <= j < k ==> s@[i + j] == pat@[j],
        decreases m - k,
    {
        if s.get_char(i + k) != pat.get_char(k) {
            proof {
                assert(s@.subrange(i as int, i + m as int)[k as int] == s@[i + k]);
            }
            return false;
        }
        k = k + 1;
    }
    proof {
        assert(s@.subrange(i as int, i + m as int) =~= pat@);
    }
    true
}

/// Executable first-occurrence search, specified by `find_from`.
pub fn find_sub(s: &str, n: usize, pat: &str, m: usize, from: usize) -> (r: Option<usize>)
    requires
        n == s@.len(),
        m == pat@.len(),
        m > 0,
        from <= n,
    ensures
        find_from(s@, pat@, from as int) < 0 ==> r is None,
        find_from(s@, pat@, from as int) >= 0 ==> r == Some(
            find_from(s@, pat@, from as int) as usize,
        ),
{
    if m > n {
        return None;
    }
    let mut i: usize = from;
    while i <= n - m
        invariant
            n == s@.len(),
            m == pat@.len(),
            0 < m <= n,
            from <= i <= n,
            find_from(s@, pat@, from as int) == find_from(s@, pat@, i as int),
        decreases n - i,
    {
        if check_match_at(s, n, pat, m, i) {
            return Some(i);
        }
        i = i + 1;
    }
    proof {
        assert(i as int + pat@.len() > s@.len());
    }
    None
}

/// Executable substring test, specified by `contains_sub`.
pub fn contains_str(s: &str, pat: &str) -> (b: bool)
    ensures
        b == contains_sub(s@, pat@),
{
    let n = s.unicode_len();
    let m = pat.unicode_len();
    if m == 0 {
        proof {
            assert(s@.subrange(0, 0) =~= pat@);
        }
        return true;
    }
    let r = find_sub(s, n, pat, m, 0);
    proof {
        lemma_find_from(s@, pat@, 0);
        if find_from(s@, pat@, 0) >= 0 {
            assert(contains_sub(s@, pat@));
        } else {
            assert forall|i: int| !match_at(s@, pat@, i) by {
                if i < 0 {
                } else {
                    assert(!match_at(s@, pat@, i));
                }
            }
        }
    }
    r.is_some()
}

/// Executable string equality over character sequences.
pub fn str_eq(a: &str, b: &str) -> (r: bool)
    ensures
        r == (a@ == b@),
{
    let n = a.unicode_len();
    let m = b.unicode_len();
    if n != m {
        return false;
    }
    let r = check_match_at(a, n, b, m, 0);
    proof {
        if r {
            assert(a@.subrange(0, a@.len() as int) =~= a@);
        } else {
            if a@ == b@ {
                assert(a@.subrange(0, b@.len() as int) =~= b@);
            }
        }
    }
    r
}

/// `s` with its leading whitespace removed.
pub open spec fn spec_trim_start(s: Seq<char>) -> Seq<char>
    decreases s.len(),
{
    if s.len() > 0 && is_space(s[0]) {
        spec_trim_start(s.skip(1))
    } else {
        s
    }
}

/// Executable `trim_start`, specified by `spec_trim_start`.
pub fn trim_start(s: &str) -> (r: &str)
    ensures
        r@ == spec_trim_start(s@),
{
    let n = s.unicode_len();
    let mut lo: usize = 0;
    while lo < n && is_space_char(s.get_char(lo))
        invariant
            n == s@.len(),
            lo <= n,
            forall|j: int| 0 <= j < lo ==> is_space(s@[j]),
        decreases n - lo,
    {
        lo = lo + 1;
    }
    let r = s.substring_char(lo, n);
    proof {
        lemma_trim_start_skip(s@, lo as int);
        if lo < n {
            assert(s@.skip(lo as int)[0] == s@[lo as int]);
        }
        assert(s@.subrange(lo as int, n as int) =~= s@.skip(lo as int));
        assert(spec_trim_start(s@) == s@.skip(lo as int));
    }
    r
}

/// First position at or after `i` holding a whitespace character, or `-1`
/// if there is none.
pub open spec fn find_space(s: Seq<char>, i: int) -> int
    decreases s.len() - i,
{
    if 0 <= i < s.len() {
        if is_space(s[i]) {
            i
        } else {
            find_space(s, i + 1)
        }
    } else {
        -1
    }
}

/// Executable first-whitespace search, specified by `find_space`.
#[verifier::loop_isolation(false)]
pub fn find_space_exec(s: &str, n: usize, from: usize) -> (r: Option<usize>)
    requires
        n == s@.len(),
        from <= n,
    ensures
        r is None ==> find_space(s@, from as int) == -1,
        r matches Some(w) ==> w as int == find_space(s@, from as int) && from <= w < n && is_space(
            s@[w as int],
        ),
{
    let mut i: usize = from;
    while i < n
        invariant
            from <= i <= n,
            find_space(s@, from as int) == find_space(s@, i as int),
        decreases n - i,
    {
        if is_space_char(s.get_char(i)) {
            return Some(i);
        }
        i = i + 1;
    }
    None
}

/// `s` with its trailing whitespace removed.
pub open spec fn spec_trim_end(s: Seq<char>) -> Seq<char>
    decreases s.len(),
{
    if s.len() > 0 && is_space(s.last()) {
        spec_trim_end(s.take(s.len() as int - 1))
    } else {
        s
    }
}

/// `s` with whitespace removed from both ends, as `str::trim` does.
pub open spec fn spec_trim(s: Seq<char>) -> Seq<char> {
    spec_trim_end(spec_trim_start(s))
}

proof fn lemma_trim_start_skip(s: Seq<char>, lo: int)
    requires
        0 <= lo <= s.len(),
        forall|j: int| 0 <= j < lo ==> is_space(s[j]),
    ensures
        spec_trim_start(s) == spec_trim_start(s.skip(lo)),
    decreases lo,
{
    if lo > 0 {
        assert(spec_trim_start(s) == spec_trim_start(s.skip(1)));
        assert(s.skip(1).skip(lo - 1) =~= s.skip(lo));
        assert forall|j: int| 0 <= j < lo - 1 implies is_space(s.skip(1)[j]) by {
            assert(s.skip(1)[j] == s[j + 1]);
        }
        lemma_trim_start_skip(s.skip(1), lo - 1);
    } else {
        assert(s.skip(0) =~= s);
    }
}

proof fn lemma_trim_end_take(s: Seq<char>, hi: int)
    requires
        0 <= hi <= s.len(),
        forall|j: int| hi <= j < s.len() ==> is_space(s[j]),
    ensures
        spec_trim_end(s) == spec_trim_end(s.take(hi)),
    decreases s.len() - hi,
{
    if hi < s.len() {
        assert(is_space(s.last()));
        assert(spec_trim_end(s) == spec_trim_end(s.take(s.len() as int - 1)));
        let t = s.take(s.len() as int - 1);
        assert(t.take(hi) =~= s.take(hi));
        assert forall|j: int| hi <= j < t.len() implies is_space(t[j]) by {
            assert(t[j] == s[j]);
        }
        lemma_trim_end_take(t, hi);
    } else {
        assert(s.take(s.len() as int) =~= s);
    }
}

/// Executable `trim`, specified by `spec_trim`.
pub fn trim(s: &str) -> (r: &str)
    ensures
        r@ == spec_trim(s@),
{
    let n = s.unicode_len();
    let mut lo: usize = 0;
    while lo < n && is_space_char(s.get_char(lo))
        invariant
            n == s@.len(),
            lo <= n,
            forall|j: int| 0 <= j < lo ==> is_space(s@[j]),
        decreases n - lo,
    {
        lo = lo + 1;
    }
    proof {
        lemma_trim_start_skip(s@, lo as int);
        if lo < n {
            assert(s@.skip(lo as int)[0] == s@[lo as int]);
        }
        assert(spec_trim_start(s@) == s@.skip(lo as int));
    }
    let mut hi: usize = n;
    while hi > lo && is_space_char(s.get_char(hi - 1))
        invariant
            n == s@.len(),
            lo <= hi <= n,
            forall|j: int| hi <= j < n ==> is_space(s@[j]),
        decreases hi,
    {
        hi = hi - 1;
    }
    let r = s.substring_char(lo, hi);
    proof {
        let st = s@.skip(lo as int);
        assert forall|j: int| hi - lo <= j < st.len() implies is_space(st[j]) by {
            assert(st[j] == s@[j + lo]);
        }
        lemma_trim_end_take(st, hi - lo as int);
        if hi > lo {
            assert(st.take(hi - lo as int).last() == s@[hi - 1]);
        }
        assert(spec_trim_end(st.take(hi - lo as int)) == st.take(hi - lo as int));
        assert(st.take(hi - lo as int) =~= s@.subrange(lo as int, hi as int));
    }
    r
}

/// `s` with every occurrence of `pat` replaced by `repl`, scanning left to
/// right without overlap, as `str::replace` does. `pat` must be non-empty;
/// on an empty `pat` the string is returned unchanged.
pub open spec fn spec_replace(s: Seq<char>, pat: Seq<char>, repl: Seq<char>) -> Seq<char>
    decreases s.len(),
{
    if pat.len() == 0 || s.len() == 0 {
        s
    } else if match_at(s, pat, 0) {
        repl + spec_replace(s.skip(pat.len() as int), pat, repl)
    } else {
        seq![s[0]] + spec_replace(s.skip(1), pat, repl)
    }
}

/// Executable replacement, specified by `spec_replace`.
pub fn replace_str(s: &str, pat: &str, repl: &str) -> (r: String)
    requires
        pat@.len() > 0,
    ensures
        r@ == spec_replace(s@, pat@, repl@),
{
    let n = s.unicode_len();
    let m = pat.unicode_len();
    let mut acc = String::new();
    let mut i: usize = 0;
    proof {
        assert(s@.skip(0) =~= s@);
    }
    while i < n
        invariant
            n == s@.len(),
            m == pat@.len(),
            m > 0,
            i <= n,
            acc@ + spec_replace(s@.skip(i as int), pat@, repl@) == spec_replace(s@, pat@, repl@),
        decreases n - i,
    {
        let ghost suf = s@.skip(i as int);
        if check_match_at(s, n, pat, m, i) {
            acc.append(repl);
            proof {
                assert(suf.subrange(0, m as int) =~= s@.subrange(i as int, i + m as int));
                assert(match_at(suf, pat@, 0));
                assert(spec_replace(suf, pat@, repl@) == repl@ + spec_replace(
                    suf.skip(m as int),
                    pat@,
                    repl@,
                ));
                assert(suf.skip(m as int) =~= s@.skip(i + m as int));
            }
            i = i + m;
        } else {
            let piece = s.substring_char(i, i + 1);
            acc.append(piece);
            proof {
                if match_at(suf, pat@, 0) {
                    assert(s@.subrange(i as int, i + m as int) =~= suf.subrange(0, m as int));
                    assert(match_at(s@, pat@, i as int));
                }
                assert(spec_replace(suf, pat@, repl@) == seq![suf[0]] + spec_replace(
                    suf.skip(1),
                    pat@,
                    repl@,
                ));
                assert(suf.skip(1) =~= s@.skip(i + 1));
                assert(piece@ =~= seq![s@[i as int]]);
                assert(suf[0] == s@[i as int]);
            }
            i = i + 1;
        }
        proof {
            assert(acc@ + spec_replace(s@.skip(i as int), pat@, repl@) =~= spec_replace(
                s@,
                pat@,
                repl@,
            ));
        }
    }
    proof {
        assert(s@.skip(n as int) =~= Seq::<char>::empty());
        assert(spec_replace(Seq::<char>::empty(), pat@, repl@) == Seq::<char>::empty());
        assert(acc@ =~= spec_replace(s@, pat@, repl@));
    }
    acc
}

} // verus!

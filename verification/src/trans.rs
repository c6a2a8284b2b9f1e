//! Preparation of translation requests: the optional `xx-yy` language pair
//! in front of prefix-command text, case-insensitive autocompletion over
//! the supported language codes, and validation of the requested languages
//! with the exact reply for an unknown one.
use crate::text::find_from;
use crate::text::find_space;
use crate::text::find_space_exec;
use crate::text::find_sub;
use crate::text::lemma_find_from;
use crate::text::spec_trim_start;
use crate::text::str_eq;
use crate::text::trim_start;
use vstd::prelude::*;
use vstd::string::StrSliceExecFns;
use vstd::string::StringExecFns;
use vstd::string::StringSliceAdditionalSpecFns;
use vstd::utf8::encode_utf8;
use vstd::utf8::is_char_boundary;

verus! {

/// The byte with an ASCII uppercase letter folded to its lowercase form,
/// as `eq_ignore_ascii_case` compares bytes.
pub open spec fn ascii_lower(b: u8) -> u8 {
    if 0x41 <= b && b <= 0x5A {
        (b + 0x20) as u8
    } else {
        b
    }
}

/// Whether the first bytes of `elem` read as `partial` up to ASCII case:
/// `elem` is at least as long, the cut falls on a character boundary, and
/// the bytes agree after case folding.
pub open spec fn ci_prefix_match(elem: Seq<u8>, partial: Seq<u8>) -> bool {
    elem.len() >= partial.len() && is_char_boundary(elem, partial.len() as int) && (forall|k: int|
        0 <= k < partial.len() ==> ascii_lower(elem[k]) == ascii_lower(partial[k]))
}

/// `ci_prefix_match` over the encoded bytes of two character sequences.
pub open spec fn spec_ci_keep(elem: Seq<char>, partial: Seq<char>) -> bool {
    ci_prefix_match(encode_utf8(elem), encode_utf8(partial))
}

/// The members of `list` whose prefix reads as `partial` up to ASCII case,
/// in their order in `list`.
pub open spec fn spec_autocomplete(list: Seq<Seq<char>>, partial: Seq<char>) -> Seq<Seq<char>>
    decreases list.len(),
{
    if list.len() == 0 {
        Seq::<Seq<char>>::empty()
    } else {
        let rest = spec_autocomplete(list.skip(1), partial);
        if spec_ci_keep(list[0], partial) {
            seq![list[0]] + rest
        } else {
            rest
        }
    }
}

proof fn lemma_autocomplete_push(list: Seq<Seq<char>>, x: Seq<char>, partial: Seq<char>)
    ensures
        spec_autocomplete(list.push(x), partial) == spec_autocomplete(list, partial) + (if spec_ci_keep(
            x,
            partial,
        ) {
            seq![x]
        } else {
            Seq::<Seq<char>>::empty()
        }),
    decreases list.len(),
{
    let tail: Seq<Seq<char>> = if spec_ci_keep(x, partial) {
        seq![x]
    } else {
        Seq::<Seq<char>>::empty()
    };
    if list.len() == 0 {
        assert(list.push(x)[0] == x);
        assert(list.push(x).skip(1) =~= Seq::<Seq<char>>::empty());
        assert(spec_autocomplete(Seq::<Seq<char>>::empty(), partial)
            == Seq::<Seq<char>>::empty());
        assert(spec_autocomplete(list.push(x), partial) =~= spec_autocomplete(list, partial)
            + tail);
    } else {
        assert(list.push(x)[0] == list[0]);
        assert(list.push(x).skip(1) =~= list.skip(1).push(x));
        lemma_autocomplete_push(list.skip(1), x, partial);
        assert(spec_autocomplete(list.push(x), partial) =~= spec_autocomplete(list, partial)
            + tail);
    }
}

#[verifier::loop_isolation(false)]
fn ci_keep(elem: &str, partial: &str) -> (r: bool)
    ensures
        r == spec_ci_keep(elem@, partial@),
{
    let eb = elem.as_bytes();
    let pb = partial.as_bytes();
    if pb.len() > eb.len() {
        return false;
    }
    if !elem.is_char_boundary(pb.len()) {
        return false;
    }
    let mut k: usize = 0;
    while k < pb.len()
        invariant
            k <= pb.len() <= eb.len(),
            eb@ == elem.spec_bytes(),
            pb@ == partial.spec_bytes(),
            forall|j: int| 0 <= j < k ==> ascii_lower(eb@[j]) == ascii_lower(pb@[j]),
        decreases pb.len() - k,
    {
        let a = eb[k];
        let b = pb[k];
        let af = if 0x41 <= a && a <= 0x5A {
            a + 0x20
        } else {
            a
        };
        let bf = if 0x41 <= b && b <= 0x5A {
            b + 0x20
        } else {
            b
        };
        if af != bf {
            return false;
        }
        k = k + 1;
    }
    true
}

/// The members of `list` that `partial` begins, compared byte-wise and
/// ignoring ASCII case, each copied out in order: the autocompletion offered
/// for a partly-typed language code.
#[verifier::loop_isolation(false)]
pub fn autocomplete_case_insensitive(list: &[&str], partial: &str) -> (r: Vec<String>)
    ensures
        r.deep_view() == spec_autocomplete(list.deep_view(), partial@),
{
    let mut r: Vec<String> = Vec::new();
    let mut i: usize = 0;
    proof {
        assert(list.deep_view().take(0) =~= Seq::<Seq<char>>::empty());
        assert(r.deep_view() =~= spec_autocomplete(list.deep_view().take(0), partial@));
    }
    while i < list.len()
        invariant
            i <= list@.len(),
            r.deep_view() == spec_autocomplete(list.deep_view().take(i as int), partial@),
        decreases list@.len() - i,
    {
        let elem = list[i];
        proof {
            assert(list.deep_view()[i as int] == list@[i as int]@);
        }
        if ci_keep(elem, partial) {
            r.push(elem.to_owned());
        }
        proof {
            let dv = list.deep_view();
            assert(dv.take(i + 1) =~= dv.take(i as int).push(dv[i as int]));
            lemma_autocomplete_push(dv.take(i as int), dv[i as int], partial@);
            assert(r.deep_view() =~= spec_autocomplete(dv.take(i + 1), partial@));
        }
        i = i + 1;
    }
    proof {
        assert(list.deep_view().take(list@.len() as int) =~= list.deep_view());
    }
    r
}

/// Whether `s` is a source language code the translation service accepts.
pub open spec fn spec_is_source_lang(s: Seq<char>) -> bool {
    ||| s == "BG"@
    ||| s == "CS"@
    ||| s == "DA"@
    ||| s == "DE"@
    ||| s == "EL"@
    ||| s == "EN"@
    ||| s == "ES"@
    ||| s == "ET"@
    ||| s == "FI"@
    ||| s == "FR"@
    ||| s == "HU"@
    ||| s == "ID"@
    ||| s == "IT"@
    ||| s == "JA"@
    ||| s == "LT"@
    ||| s == "LV"@
    ||| s == "NL"@
    ||| s == "PL"@
    ||| s == "PT"@
    ||| s == "RO"@
    ||| s == "SK"@
    ||| s == "SL"@
    ||| s == "SV"@
    ||| s == "TR"@
    ||| s == "UK"@
    ||| s == "ZH"@
}

/// Whether `s` is a target language code the translation service accepts.
pub open spec fn spec_is_target_lang(s: Seq<char>) -> bool {
    ||| spec_is_source_lang(s)
    ||| s == "EN-GB"@
    ||| s == "EN-US"@
    ||| s == "PT-BR"@
    ||| s == "PT-PT"@
    ||| s == "RU"@
}

/// Executable membership test for source language codes.
pub fn is_source_lang(s: &str) -> (r: bool)
    ensures
        r == spec_is_source_lang(s@),
{
    str_eq(s, "BG") || str_eq(s, "CS") || str_eq(s, "DA") || str_eq(s, "DE") || str_eq(s, "EL")
        || str_eq(s, "EN") || str_eq(s, "ES") || str_eq(s, "ET") || str_eq(s, "FI") || str_eq(
        s,
        "FR",
    ) || str_eq(s, "HU") || str_eq(s, "ID") || str_eq(s, "IT") || str_eq(s, "JA") || str_eq(
        s,
        "LT",
    ) || str_eq(s, "LV") || str_eq(s, "NL") || str_eq(s, "PL") || str_eq(s, "PT") || str_eq(
        s,
        "RO",
    ) || str_eq(s, "SK") || str_eq(s, "SL") || str_eq(s, "SV") || str_eq(s, "TR") || str_eq(
        s,
        "UK",
    ) || str_eq(s, "ZH")
}

/// Executable membership test for target language codes.
pub fn is_target_lang(s: &str) -> (r: bool)
    ensures
        r == spec_is_target_lang(s@),
{
    is_source_lang(s) || str_eq(s, "EN-GB") || str_eq(s, "EN-US") || str_eq(s, "PT-BR") || str_eq(
        s,
        "PT-PT",
    ) || str_eq(s, "RU")
}

/// What `str::to_uppercase` returns: the Unicode uppercase form of a
/// character sequence, a function of the characters alone.
pub uninterp spec fn upper_of(s: Seq<char>) -> Seq<char>;

/// Relies on str::to_uppercase: the Unicode uppercase mapping of the
/// string, depending on its characters alone.
#[verifier::external_body]
fn to_uppercase(s: &str) -> (r: String)
    ensures
        r@ == upper_of(s@),
{
    s.to_uppercase()
}

/// Whether the requested source language is acceptable: absent, or a code
/// whose uppercase form the service lists.
pub open spec fn spec_source_ok(from: Option<&str>) -> bool {
    match from {
        Some(f) => spec_is_source_lang(upper_of(f@)),
        None => true,
    }
}

/// Whether the requested target language is acceptable: absent, or a code
/// whose uppercase form the service lists.
pub open spec fn spec_target_ok(to: Option<&str>) -> bool {
    match to {
        Some(t) => spec_is_target_lang(upper_of(t@)),
        None => true,
    }
}

/// A prepared translation call, or the reply for a language code the
/// service does not know.
pub enum TransPrep {
    Request { source_lang: Option<String>, target_lang: String, text: String },
    UnknownSource { message: String },
    UnknownTarget { message: String },
}

/// The reply for a source language code the service does not list.
pub open spec fn spec_unknown_source_reply(f: Seq<char>) -> Seq<char> {
    "Unrecognized source language "@ + upper_of(f)
        + ", please refer to list of supported languages at https://www.deepl.com/docs-api/translate-text/."@
}

/// The reply for a target language code the service does not list.
pub open spec fn spec_unknown_target_reply(t: Seq<char>) -> Seq<char> {
    "Unrecognized target language "@ + upper_of(t)
        + ", please refer to list of supported languages at https://www.deepl.com/docs-api/translate-text/."@
}

/// Validates the requested language pair and builds the translation call:
/// codes are uppercased and checked against the supported lists, a missing
/// target defaults to American English, and an unknown code yields the
/// reply that names it. The source is checked first.
pub fn prepare_translation(from: Option<&str>, to: Option<&str>, text: &str) -> (r: TransPrep)
    ensures
        match from {
            Some(f) => !spec_is_source_lang(upper_of(f@)) ==> (r matches TransPrep::UnknownSource {
                message,
            } && message@ == spec_unknown_source_reply(f@)),
            None => true,
        },
        spec_source_ok(from) ==> match to {
            Some(t) => !spec_is_target_lang(upper_of(t@)) ==> (r matches TransPrep::UnknownTarget {
                message,
            } && message@ == spec_unknown_target_reply(t@)),
            None => true,
        },
        (spec_source_ok(from) && spec_target_ok(to)) ==> (r matches TransPrep::Request {
            source_lang,
            target_lang,
            text: t,
        } && (match from {
            Some(f) => source_lang matches Some(sl) && sl@ == upper_of(f@),
            None => source_lang is None,
        }) && (match to {
            Some(tt) => target_lang@ == upper_of(tt@),
            None => target_lang@ == "EN-US"@,
        }) && t@ == text@),
{
    let source_lang: Option<String> = match from {
        Some(f) => {
            let up = to_uppercase(f);
            if !is_source_lang(up.as_str()) {
                let mut message = "Unrecognized source language ".to_owned();
                message.append(up.as_str());
                message.append(
                    ", please refer to list of supported languages at https://www.deepl.com/docs-api/translate-text/.",
                );
                return TransPrep::UnknownSource { message };
            }
            Some(up)
        },
        None => None,
    };
    let target_lang: String = match to {
        Some(t) => {
            let up = to_uppercase(t);
            if !is_target_lang(up.as_str()) {
                let mut message = "Unrecognized target language ".to_owned();
                message.append(up.as_str());
                message.append(
                    ", please refer to list of supported languages at https://www.deepl.com/docs-api/translate-text/.",
                );
                return TransPrep::UnknownTarget { message };
            }
            up
        },
        None => "EN-US".to_owned(),
    };
    TransPrep::Request { source_lang, target_lang, text: text.to_owned() }
}

/// The language pair and remaining text of a prefix-command invocation.
pub struct TransInput {
    pub from: Option<String>,
    pub to: Option<String>,
    pub text: String,
}

/// Whether the command text begins, after leading whitespace, with a token
/// holding a `-` before the first whitespace: the shape of an `xx-yy`
/// language-pair prefix.
pub open spec fn spec_has_lang_prefix(s: Seq<char>) -> bool {
    let t = spec_trim_start(s);
    let w = find_space(t, 0);
    let d = find_from(t.subrange(0, w), "-"@, 0);
    w >= 0 && d >= 0
}

/// The `(from, to, text)` split when `spec_has_lang_prefix` holds: the
/// token's parts around its first `-`, empty parts standing for an absent
/// code, and the text after the splitting whitespace character.
pub open spec fn spec_lang_prefix_split(s: Seq<char>) -> (Seq<char>, Seq<char>, Seq<char>) {
    let t = spec_trim_start(s);
    let w = find_space(t, 0);
    let a = t.subrange(0, w);
    let d = find_from(a, "-"@, 0);
    (a.subrange(0, d), a.subrange(d + 1, a.len() as int), t.subrange(w + 1, t.len() as int))
}

/// Splits an optional `xx-yy` language pair off the front of prefix-command
/// text. Without one, both codes are absent and the text is handed back
/// unchanged.
#[verifier::loop_isolation(false)]
pub fn parse_lang_prefix(text: &str) -> (r: TransInput)
    ensures
        !spec_has_lang_prefix(text@) ==> r.from is None && r.to is None && r.text@ == text@,
        spec_has_lang_prefix(text@) ==> {
            let (f, t, rest) = spec_lang_prefix_split(text@);
            &&& (if f.len() == 0 {
                r.from is None
            } else {
                r.from matches Some(x) && x@ == f
            })
            &&& (if t.len() == 0 {
                r.to is None
            } else {
                r.to matches Some(x) && x@ == t
            })
            &&& r.text@ == rest
        },
{
    proof {
        reveal_strlit("-");
    }
    let trimmed = trim_start(text);
    let tn = trimmed.unicode_len();
    let w = match find_space_exec(trimmed, tn, 0) {
        Some(w) => w,
        None => {
            return TransInput { from: None, to: None, text: text.to_owned() };
        },
    };
    let a = trimmed.substring_char(0, w);
    let d = match find_sub(a, w, "-", 1, 0) {
        Some(d) => d,
        None => {
            return TransInput { from: None, to: None, text: text.to_owned() };
        },
    };
    proof {
        lemma_find_from(a@, "-"@, 0);
    }
    let source = a.substring_char(0, d);
    let target = a.substring_char(d + 1, w);
    let rest = trimmed.substring_char(w + 1, tn);
    let from: Option<String> = if source.is_empty() {
        None
    } else {
        Some(source.to_owned())
    };
    let to: Option<String> = if target.is_empty() {
        None
    } else {
        Some(target.to_owned())
    };
    TransInput { from, to, text: rest.to_owned() }
}

} // verus!

//! Presentation of program output back to the user: a status line for
//! failed or killed processes, and the choice between an inline code-block
//! message and a file attachment for long or many-lined output.
use crate::text::spec_replace;
use crate::text::replace_str;
use vstd::prelude::*;
use vstd::string::StrSliceExecFns;
use vstd::string::StringExecFns;
use vstd::string::StringSliceAdditionalSpecFns;

verus! {

/// Number of occurrences of the byte `b` among the first `i` bytes of `s`.
pub open spec fn count_byte_to(s: Seq<u8>, b: u8, i: int) -> nat
    decreases i,
{
    if i <= 0 || i > s.len() {
        0
    } else {
        count_byte_to(s, b, i - 1) + (if s[i - 1] == b {
            1nat
        } else {
            0nat
        })
    }
}

/// Number of occurrences of the byte `b` in all of `s`.
pub open spec fn count_byte(s: Seq<u8>, b: u8) -> nat {
    count_byte_to(s, b, s.len() as int)
}

proof fn lemma_count_byte_to_monotonic(s: Seq<u8>, b: u8, i: int, j: int)
    requires
        0 <= i <= j <= s.len(),
    ensures
        count_byte_to(s, b, i) <= count_byte_to(s, b, j),
    decreases j - i,
{
    if i < j {
        lemma_count_byte_to_monotonic(s, b, i, j - 1);
    }
}

/// Whether `s` holds at least 15 newline bytes, scanning no further than
/// the 15th newline.
pub fn more_than_15_newlines(s: &str) -> (r: bool)
    ensures
        r == (count_byte(s.spec_bytes(), 10) >= 15),
{
    let bytes = s.as_bytes();
    let mut count: usize = 0;
    let mut i: usize = 0;
    while i < bytes.len()
        invariant
            0 <= i <= bytes.len(),
            bytes@ == s.spec_bytes(),
            count == count_byte_to(s.spec_bytes(), 10, i as int),
            count < 15,
        decreases bytes.len() - i,
    {
        if bytes[i] == 10 {
            count = count + 1;
        }
        i = i + 1;
        if count >= 15 {
            proof {
                lemma_count_byte_to_monotonic(
                    s.spec_bytes(),
                    10,
                    i as int,
                    s.spec_bytes().len() as int,
                );
            }
            return true;
        }
    }
    false
}

/// The digit character for a value below ten.
pub open spec fn digit_char(d: nat) -> char {
    if d == 0 {
        '0'
    } else if d == 1 {
        '1'
    } else if d == 2 {
        '2'
    } else if d == 3 {
        '3'
    } else if d == 4 {
        '4'
    } else if d == 5 {
        '5'
    } else if d == 6 {
        '6'
    } else if d == 7 {
        '7'
    } else if d == 8 {
        '8'
    } else {
        '9'
    }
}

/// The decimal digits of `n`, most significant first.
pub open spec fn spec_dec_nat(n: nat) -> Seq<char>
    decreases n,
{
    if n < 10 {
        seq![digit_char(n)]
    } else {
        spec_dec_nat(n / 10).push(digit_char(n % 10))
    }
}

/// The decimal rendering of a signed value, with a leading minus sign when
/// it is negative.
pub open spec fn spec_dec_int(v: int) -> Seq<char> {
    if v < 0 {
        seq!['-'] + spec_dec_nat((-v) as nat)
    } else {
        spec_dec_nat(v as nat)
    }
}

fn digit_str(d: u64) -> (r: &'static str)
    requires
        d < 10,
    ensures
        r@ == seq![digit_char(d as nat)],
{
    proof {
        reveal_strlit("0");
        reveal_strlit("1");
        reveal_strlit("2");
        reveal_strlit("3");
        reveal_strlit("4");
        reveal_strlit("5");
        reveal_strlit("6");
        reveal_strlit("7");
        reveal_strlit("8");
        reveal_strlit("9");
    }
    if d == 0 {
        "0"
    } else if d == 1 {
        "1"
    } else if d == 2 {
        "2"
    } else if d == 3 {
        "3"
    } else if d == 4 {
        "4"
    } else if d == 5 {
        "5"
    } else if d == 6 {
        "6"
    } else if d == 7 {
        "7"
    } else if d == 8 {
        "8"
    } else {
        "9"
    }
}

fn u64_dec(n: u64) -> (r: String)
    ensures
        r@ == spec_dec_nat(n as nat),
    decreases n,
{
    if n < 10 {
        digit_str(n).to_owned()
    } else {
        let mut r = u64_dec(n / 10);
        r.append(digit_str(n % 10));
        proof {
            assert(spec_dec_nat((n / 10) as nat).push(digit_char((n % 10) as nat)) =~= spec_dec_nat(
                (n / 10) as nat,
            ) + seq![digit_char((n % 10) as nat)]);
        }
        r
    }
}

/// The decimal rendering of an exit code.
pub fn i32_dec(v: i32) -> (r: String)
    ensures
        r@ == spec_dec_int(v as int),
{
    let wide: i64 = v as i64;
    if wide < 0 {
        proof {
            reveal_strlit("-");
        }
        let mut r = "-".to_owned();
        r.append(u64_dec((-wide) as u64).as_str());
        r
    } else {
        u64_dec(wide as u64)
    }
}

/// The status line that precedes rendered output: empty on success, an exit
/// code line on failure, a timeout line when the process was killed.
pub open spec fn spec_status_line(status: Option<i32>) -> Seq<char> {
    match status {
        Some(v) => if v == 0 {
            Seq::<char>::empty()
        } else {
            "Exited with status code "@ + spec_dec_int(v as int) + "\n"@
        },
        None => "Killed the process due to timeout\n"@,
    }
}

/// Builds the status line, specified by `spec_status_line`.
pub fn status_line(status: Option<i32>) -> (r: String)
    ensures
        r@ == spec_status_line(status),
{
    match status {
        Some(v) => {
            if v == 0 {
                let r = String::new();
                proof {
                    assert(r@ =~= Seq::<char>::empty());
                }
                r
            } else {
                let mut r = "Exited with status code ".to_owned();
                r.append(i32_dec(v).as_str());
                r.append("\n");
                r
            }
        },
        None => "Killed the process due to timeout\n".to_owned(),
    }
}

/// Whether `c` is one of the direction-override or zero-width characters
/// that message normalization blanks out.
pub open spec fn is_special(c: char) -> bool {
    (c as u32) == 0x202E || (c as u32) == 0x200F || (c as u32) == 0x202B || (c as u32) == 0x200B
        || (c as u32) == 0x200D || (c as u32) == 0x200C
}

/// `s` with every direction-override or zero-width character blanked.
pub open spec fn spec_scrub_specials(s: Seq<char>) -> Seq<char> {
    Seq::new(
        s.len(),
        |i: int|
            if is_special(s[i]) {
                ' '
            } else {
                s[i]
            },
    )
}

#[verifier::loop_isolation(false)]
fn scrub_specials(s: &str) -> (r: String)
    ensures
        r@ == spec_scrub_specials(s@),
{
    let n = s.unicode_len();
    let mut acc = String::new();
    let mut i: usize = 0;
    proof {
        assert(acc@ =~= spec_scrub_specials(s@.subrange(0, 0)));
    }
    while i < n
        invariant
            i <= n,
            n == s@.len(),
            acc@ == spec_scrub_specials(s@.subrange(0, i as int)),
        decreases n - i,
    {
        let c = s.get_char(i);
        let u = c as u32;
        if u == 0x202E || u == 0x200F || u == 0x202B || u == 0x200B || u == 0x200D || u == 0x200C {
            acc.append(" ");
            proof {
                reveal_strlit(" ");
            }
        } else {
            let piece = s.substring_char(i, i + 1);
            acc.append(piece);
            proof {
                assert(piece@ =~= seq![s@[i as int]]);
            }
        }
        proof {
            assert(acc@ =~= spec_scrub_specials(s@.subrange(0, i + 1)));
        }
        i = i + 1;
    }
    proof {
        assert(s@.subrange(0, n as int) =~= s@);
    }
    acc
}

/// Message normalization applied to inline code-block content: invite links
/// are defanged, direction-override and zero-width characters blanked, and
/// mass mentions broken up.
pub open spec fn spec_normalize(s: Seq<char>) -> Seq<char> {
    let s1 = spec_replace(s, "discord.gg"@, "discord\u{2024}gg"@);
    let s2 = spec_replace(s1, "discord.me"@, "discord\u{2024}me"@);
    let s3 = spec_replace(s2, "discordlist.net"@, "discordlist\u{2024}net"@);
    let s4 = spec_replace(s3, "discordservers.com"@, "discordservers\u{2024}com"@);
    let s5 = spec_replace(s4, "discord.com/invite"@, "discord\u{2024}com/invite"@);
    let s6 = spec_replace(s5, "discordapp.com/invite"@, "discordapp\u{2024}com/invite"@);
    let s7 = spec_scrub_specials(s6);
    let s8 = spec_replace(s7, "@everyone"@, "@\u{200B}everyone"@);
    spec_replace(s8, "@here"@, "@\u{200B}here"@)
}

fn normalize(s: &str) -> (r: String)
    ensures
        r@ == spec_normalize(s@),
{
    proof {
        reveal_strlit("discord.gg");
        reveal_strlit("discord.me");
        reveal_strlit("discordlist.net");
        reveal_strlit("discordservers.com");
        reveal_strlit("discord.com/invite");
        reveal_strlit("discordapp.com/invite");
        reveal_strlit("@everyone");
        reveal_strlit("@here");
    }
    let s1 = replace_str(s, "discord.gg", "discord\u{2024}gg");
    let s2 = replace_str(s1.as_str(), "discord.me", "discord\u{2024}me");
    let s3 = replace_str(s2.as_str(), "discordlist.net", "discordlist\u{2024}net");
    let s4 = replace_str(s3.as_str(), "discordservers.com", "discordservers\u{2024}com");
    let s5 = replace_str(s4.as_str(), "discord.com/invite", "discord\u{2024}com/invite");
    let s6 = replace_str(s5.as_str(), "discordapp.com/invite", "discordapp\u{2024}com/invite");
    let s7 = scrub_specials(s6.as_str());
    let s8 = replace_str(s7.as_str(), "@everyone", "@\u{200B}everyone");
    replace_str(s8.as_str(), "@here", "@\u{200B}here")
}

/// The fenced code block around inline output: the content is normalized
/// and any fence of its own is blanked so it cannot break out of the block.
pub open spec fn spec_codeblock(content: Seq<char>) -> Seq<char> {
    "```"@ + "\n"@ + spec_replace(spec_normalize(content), "```"@, " "@) + "\n```"@
}

/// The text of an inline reply: the status line, then the output in a code
/// block, or an italic marker when there is no output.
pub open spec fn spec_inline_text(out: Seq<char>, status: Option<i32>) -> Seq<char> {
    spec_status_line(status) + (if out.len() == 0 {
        "_(no output)_"@
    } else {
        spec_codeblock(out)
    })
}

/// Whether output of these bytes is rendered as a file attachment rather
/// than an inline message: over 800 bytes, or at least 15 newlines.
pub open spec fn spec_attaches(bytes: Seq<u8>) -> bool {
    bytes.len() > 800 || count_byte(bytes, 10) >= 15
}

/// A reply ready to hand to the chat layer: either one inline text message,
/// or a file attachment with the status line as the message content.
pub enum Rendered {
    Inline { text: String },
    Attachment { caption: String, filename: String, data: String },
}

/// Renders filtered output and the process status as a user-visible reply.
/// Long or many-lined output becomes an attachment named `output.txt` with
/// the raw output as its data; anything else becomes one inline message.
pub fn render(output: &str, status: Option<i32>) -> (r: Rendered)
    ensures
        spec_attaches(output.spec_bytes()) ==> (r matches Rendered::Attachment {
            caption,
            filename,
            data,
        } && caption@ == spec_status_line(status) && filename@ == "output.txt"@ && data@
            == output@),
        !spec_attaches(output.spec_bytes()) ==> (r matches Rendered::Inline { text } && text@
            == spec_inline_text(output@, status)),
{
    let byte_len = output.as_bytes().len();
    if byte_len > 800 || more_than_15_newlines(output) {
        Rendered::Attachment {
            caption: status_line(status),
            filename: "output.txt".to_owned(),
            data: output.to_owned(),
        }
    } else {
        let mut text = status_line(status);
        if output.is_empty() {
            text.append("_(no output)_");
        } else {
            proof {
                reveal_strlit("```");
            }
            text.append("```");
            text.append("\n");
            let safe = replace_str(normalize(output).as_str(), "```", " ");
            text.append(safe.as_str());
            text.append("\n```");
            proof {
                assert(spec_status_line(status) + "```"@ + "\n"@ + safe@ + "\n```"@
                    =~= spec_status_line(status) + ("```"@ + "\n"@ + safe@ + "\n```"@));
            }
        }
        Rendered::Inline { text }
    }
}

} // verus!

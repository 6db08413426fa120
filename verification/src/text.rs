//! Text helpers: joining lines, decimal numerals, and trimming.

use vstd::prelude::*;

verus! {

/// The parts one after another, with a line feed between neighbours.
pub open spec fn joined_lines(parts: Seq<Seq<char>>) -> Seq<char>
    decreases parts.len(),
{
    if parts.len() == 0 {
        Seq::empty()
    } else if parts.len() == 1 {
        parts[0]
    } else {
        joined_lines(parts.drop_last()).push('\n') + parts.last()
    }
}

/// Joins the parts with line feeds.
pub fn join_lines(parts: &Vec<String>) -> (joined: String)
    ensures
        joined@ == joined_lines(parts.deep_view()),
{
    let mut joined = String::new();
    let mut next: usize = 0;
    let ghost texts = parts.deep_view();
    while next < parts.len()
        invariant
            next <= parts.len(),
            texts == parts.deep_view(),
            joined@ == joined_lines(texts.take(next as int)),
        decreases parts.len() - next,
    {
        let ghost shorter = texts.take(next as int);
        let ghost longer = texts.take(next + 1);
        proof {
            assert(longer.drop_last() == shorter);
            assert(longer.last() == parts@[next as int]@);
            reveal_strlit("\n");
        }
        if next > 0 {
            joined.append("\n");
            assert(joined@ == joined_lines(shorter).push('\n'));
        }
        joined.append(parts[next].as_str());
        next += 1;
    }
    assert(texts.take(texts.len() as int) == texts);
    joined
}

/// Whether the text is the given literal.
pub fn text_is(text: &str, literal: &str) -> (same: bool)
    ensures
        same == (text@ == literal@),
{
    text.to_string() == literal.to_string()
}

/// The two texts one after the other.
pub fn with_suffix(head: &str, tail: &str) -> (whole: String)
    ensures
        whole@ == head@ + tail@,
{
    let mut whole = head.to_string();
    whole.append(tail);
    whole
}

/// The numeral of a number below ten.
pub open spec fn digit(value: nat) -> char {
    ('0' as nat + value) as char
}

/// The decimal numeral of a number, without leading zeros.
pub open spec fn decimal(value: nat) -> Seq<char>
    decreases value,
{
    if value < 10 {
        seq![digit(value)]
    } else {
        decimal(value / 10).push(digit(value % 10))
    }
}

/// The numeral of a number below ten, as text.
fn digit_text(value: usize) -> (text: &'static str)
    requires
        value < 10,
    ensures
        text@ == seq![digit(value as nat)],
{
    proof {
        reveal_strlit("0");
        reveal_strlit("1");
        reveal_strlit("2");
        reveal_strlit("3");
        reveal_strlit("4");
        reveal_strlit("5");
        reveal_strlit("6");
        reveal_strlit("7");
        reveal_strlit("8");
        reveal_strlit("9");
    }
    match value {
        0 => "0",
        1 => "1",
        2 => "2",
        3 => "3",
        4 => "4",
        5 => "5",
        6 => "6",
        7 => "7",
        8 => "8",
        _ => "9",
    }
}

/// Writes a number in decimal.
pub fn decimal_text(value: usize) -> (text: String)
    ensures
        text@ == decimal(value as nat),
    decreases value,
{
    if value < 10 {
        digit_text(value).to_string()
    } else {
        let mut text = decimal_text(value / 10);
        text.append(digit_text(value % 10));
        text
    }
}

/// The characters with the Unicode property `White_Space`.
pub open spec fn is_white_space(c: char) -> bool {
    let code = c as int;
    ||| 0x9 <= code <= 0xd
    ||| code == 0x20
    ||| code == 0x85
    ||| code == 0xa0
    ||| code == 0x1680
    ||| 0x2000 <= code <= 0x200a
    ||| code == 0x2028
    ||| code == 0x2029
    ||| code == 0x202f
    ||| code == 0x205f
    ||| code == 0x3000
}

/// The text without the white space at its two ends.
pub open spec fn trimmed(text: Seq<char>) -> Seq<char>
    decreases text.len(),
{
    if text.len() == 0 {
        text
    } else if is_white_space(text[0]) {
        trimmed(text.drop_first())
    } else if is_white_space(text.last()) {
        trimmed(text.drop_last())
    } else {
        text
    }
}

/// Where white space alone stands before `lo` and from `hi` on, and none at the two ends of what
/// is between, that is the trimmed text.
proof fn lemma_trimmed(text: Seq<char>, lo: int, hi: int)
    requires
        0 <= lo <= hi <= text.len(),
        forall|i: int| 0 <= i < lo || hi <= i < text.len() ==> is_white_space(#[trigger] text[i]),
        lo < hi ==> !is_white_space(text[lo]) && !is_white_space(text[hi - 1]),
    ensures
        trimmed(text) == text.subrange(lo, hi),
    decreases text.len(),
{
    if text.len() == 0 {
        assert(text == text.subrange(lo, hi));
    } else if is_white_space(text[0]) {
        let rest = text.drop_first();
        if lo == 0 {
            assert(lo == hi);
            lemma_trimmed(rest, 0, 0);
            assert(rest.subrange(0, 0) == text.subrange(lo, hi));
        } else {
            lemma_trimmed(rest, lo - 1, hi - 1);
            assert(rest.subrange(lo - 1, hi - 1) == text.subrange(lo, hi));
        }
    } else if is_white_space(text.last()) {
        let rest = text.drop_last();
        assert(lo == 0 && hi < text.len());
        lemma_trimmed(rest, lo, hi);
        assert(rest.subrange(lo, hi) == text.subrange(lo, hi));
    } else {
        assert(is_white_space(text[0]) || lo == 0);
        assert(text == text.subrange(lo, hi));
    }
}

/// Whether the character has the Unicode property `White_Space`.
fn has_white_space(c: char) -> (found: bool)
    ensures
        found == is_white_space(c),
{
    let code = c as u32;
    (0x9 <= code && code <= 0xd) || code == 0x20 || code == 0x85 || code == 0xa0 || code == 0x1680
        || (0x2000 <= code && code <= 0x200a) || code == 0x2028 || code == 0x2029 || code == 0x202f
        || code == 0x205f || code == 0x3000
}

/// The text without the white space at its two ends.
pub fn trim_text(text: &str) -> (core: &str)
    ensures
        core@ == trimmed(text@),
{
    let count = text.unicode_len();
    let ghost chars = text@;
    let mut pos: usize = 0;
    let mut lo: usize = 0;
    let mut hi: usize = 0;
    for c in iter: text.chars()
        invariant
            iter.seq() == chars,
            chars.len() == count,
            pos == iter.index(),
            lo <= hi <= pos,
            forall|i: int| 0 <= i < lo || hi <= i < pos ==> is_white_space(#[trigger] chars[i]),
            lo < hi ==> !is_white_space(chars[lo as int]) && !is_white_space(chars[hi - 1]),
    {
        assert(c == chars[pos as int]);
        if !has_white_space(c) {
            if lo == hi {
                lo = pos;
            }
            hi = pos + 1;
        }
        pos = pos + 1;
    }
    proof {
        lemma_trimmed(chars, lo as int, hi as int);
    }
    text.substring_char(lo, hi)
}

} // verus!

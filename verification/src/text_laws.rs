//! What holds of joined lines, numerals, trimmed text and the mark that ends a stream.

use crate::session::is_done_marker;
use crate::text::{decimal, is_white_space, joined_lines, trimmed};
use vstd::prelude::*;

verus! {

/// One text, joined, is that text, and no text is the empty text.
pub proof fn law_one_line_is_itself(part: Seq<char>)
    ensures
        joined_lines(seq![part]) == part,
        joined_lines(Seq::empty()) == Seq::<char>::empty(),
{
}

/// Texts are joined with one line feed between neighbours, however they are grouped: what is
/// joined in two parts is the first part, a line feed, and the second part.
pub proof fn law_lines_are_joined(first: Seq<Seq<char>>, second: Seq<Seq<char>>)
    requires
        first.len() > 0,
        second.len() > 0,
    ensures
        joined_lines(first + second) == joined_lines(first) + seq!['\n'] + joined_lines(second),
    decreases second.len(),
{
    let all = first + second;
    assert(all.last() == second.last());
    assert(all.drop_last() == first + second.drop_last());
    if second.len() == 1 {
        assert(all.drop_last() == first);
        assert(joined_lines(all) == joined_lines(first) + seq!['\n'] + joined_lines(second));
    } else {
        law_lines_are_joined(first, second.drop_last());
        assert(joined_lines(all) == joined_lines(first) + seq!['\n'] + joined_lines(second));
    }
}

/// The number that a row of digits stands for.
pub open spec fn number_of(digits: Seq<char>) -> int
    decreases digits.len(),
{
    if digits.len() == 0 {
        0
    } else {
        10 * number_of(digits.drop_last()) + (digits.last() as int - '0' as int)
    }
}

/// A numeral is a row of decimal digits that stands for its number, and does not begin with a zero
/// unless it is the zero alone.
pub proof fn law_numeral_stands_for_its_number(value: nat)
    ensures
        decimal(value).len() > 0,
        number_of(decimal(value)) == value,
        forall|k: int|
            0 <= k < decimal(value).len() ==> '0' <= #[trigger] decimal(value)[k] <= '9',
        decimal(value)[0] == '0' ==> decimal(value).len() == 1,
        value == 0 ==> decimal(value).len() == 1,
    decreases value,
{
    let numeral = decimal(value);
    reveal_with_fuel(number_of, 2);
    if value < 10 {
        assert(numeral.drop_last() == Seq::<char>::empty());
    } else {
        let tens = value / 10;
        law_numeral_stands_for_its_number(tens);
        assert(numeral.drop_last() == decimal(tens));
        assert(numeral[0] == decimal(tens)[0]);
        if decimal(tens)[0] == '0' {
            assert(decimal(tens).len() == 1);
            assert(number_of(decimal(tens)) == 0);
        }
    }
}

/// The characters that Unicode counts as white space: tab to carriage return, the space, the next
/// line, the no-break space, the Ogham space mark, the spaces from the en quad to the hair space,
/// the line and the paragraph separator, the narrow no-break space, the mathematical space and the
/// ideographic space.
pub open spec fn blank(c: char) -> bool {
    let code = c as u32;
    ||| seq![0x9u32, 0xa, 0xb, 0xc, 0xd, 0x20, 0x85, 0xa0, 0x1680].contains(code)
    ||| 0x2000 <= code < 0x200b
    ||| seq![0x2028u32, 0x2029, 0x202f, 0x205f, 0x3000].contains(code)
}

/// Whether a text is white space alone.
pub open spec fn all_blank(text: Seq<char>) -> bool {
    forall|k: int| 0 <= k < text.len() ==> blank(#[trigger] text[k])
}

/// White space is what Unicode counts as such.
pub proof fn law_white_space(c: char)
    ensures
        is_white_space(c) <==> blank(c),
{
    let code = c as u32;
    let low = seq![0x9u32, 0xa, 0xb, 0xc, 0xd, 0x20, 0x85, 0xa0, 0x1680];
    let high = seq![0x2028u32, 0x2029, 0x202f, 0x205f, 0x3000];
    assert(low[0] == 0x9 && low[1] == 0xa && low[2] == 0xb && low[3] == 0xc && low[4] == 0xd);
    assert(low[5] == 0x20 && low[6] == 0x85 && low[7] == 0xa0 && low[8] == 0x1680);
    assert(high[0] == 0x2028 && high[1] == 0x2029 && high[2] == 0x202f && high[3] == 0x205f);
    assert(high[4] == 0x3000);
}

/// Trimming takes white space away from the two ends, all of it and nothing else: a text is white
/// space, the trimmed text, and white space, and the trimmed text has none at its ends.
pub proof fn law_trimmed(text: Seq<char>) -> (ends: (Seq<char>, Seq<char>))
    ensures
        text == ends.0 + trimmed(text) + ends.1,
        all_blank(ends.0),
        all_blank(ends.1),
        trimmed(text).len() > 0 ==> !blank(trimmed(text)[0]) && !blank(trimmed(text).last()),
    decreases text.len(),
{
    let none = Seq::<char>::empty();
    if text.len() == 0 {
        assert(text == none + trimmed(text) + none);
        (none, none)
    } else {
        law_white_space(text[0]);
        law_white_space(text.last());
        if is_white_space(text[0]) {
            let (before, after) = law_trimmed(text.drop_first());
            let longer = seq![text[0]] + before;
            assert(text == seq![text[0]] + text.drop_first());
            assert(text == longer + trimmed(text) + after);
            (longer, after)
        } else if is_white_space(text.last()) {
            let (before, after) = law_trimmed(text.drop_last());
            let longer = after.push(text.last());
            assert(text == text.drop_last().push(text.last()));
            assert(text == before + trimmed(text) + longer);
            (before, longer)
        } else {
            assert(text == none + trimmed(text) + none);
            (none, none)
        }
    }
}

/// White space around a text that has none at its ends is taken away.
pub proof fn law_trimming_leaves_the_core(before: Seq<char>, core: Seq<char>, after: Seq<char>)
    requires
        all_blank(before),
        all_blank(after),
        core.len() > 0 ==> !blank(core[0]) && !blank(core.last()),
    ensures
        trimmed(before + core + after) == core,
    decreases before.len() + after.len(),
{
    let text = before + core + after;
    if text.len() == 0 {
        assert(text == core);
    } else {
        law_white_space(text[0]);
        law_white_space(text.last());
        if before.len() > 0 {
            assert(text[0] == before[0]);
            assert(blank(before[0]));
            assert(text.drop_first() == before.drop_first() + core + after);
            assert forall|k: int| 0 <= k < before.drop_first().len() implies blank(
                #[trigger] before.drop_first()[k],
            ) by {
                assert(blank(before[k + 1]));
            }
            law_trimming_leaves_the_core(before.drop_first(), core, after);
        } else if core.len() > 0 {
            assert(text[0] == core[0]);
            if after.len() > 0 {
                assert(text.last() == after.last());
                assert(blank(after[after.len() - 1]));
                assert(text.drop_last() == before + core + after.drop_last());
                law_trimming_leaves_the_core(before, core, after.drop_last());
            } else {
                assert(text == core);
            }
        } else {
            assert(text[0] == after[0]);
            assert(blank(after[0]));
            assert(text.drop_first() == before + core + after.drop_first());
            assert forall|k: int| 0 <= k < after.drop_first().len() implies blank(
                #[trigger] after.drop_first()[k],
            ) by {
                assert(blank(after[k + 1]));
            }
            law_trimming_leaves_the_core(before, core, after.drop_first());
        }
    }
}

/// Whether a text is `[DONE]` with nothing but white space around it.
pub open spec fn marks_the_end(data: Seq<char>) -> bool {
    exists|before: Seq<char>, after: Seq<char>|
        all_blank(before) && all_blank(after) && data == #[trigger] (before + "[DONE]"@ + after)
}

/// A stream ends with the data `[DONE]`, with or without white space around it, and with no other.
pub proof fn law_done_marker(data: Seq<char>)
    ensures
        is_done_marker(data) <==> marks_the_end(data),
{
    reveal_strlit("[DONE]");
    let core = "[DONE]"@;
    assert(core.len() == 6 && core[0] == '[' && core.last() == ']');
    let (before, after) = law_trimmed(data);
    if is_done_marker(data) {
        assert(data == before + core + after);
    }
    if marks_the_end(data) {
        let (first, last) = choose|first: Seq<char>, last: Seq<char>|
            all_blank(first) && all_blank(last) && data == #[trigger] (first + "[DONE]"@ + last);
        law_white_space(core[0]);
        law_white_space(core.last());
        law_trimming_leaves_the_core(first, core, last);
    }
}

} // verus!

//! What the operations on texts do, told by what stands where.

use crate::debug::{debug_id, debug_lines, debug_message, separated};
use crate::decimal::{
    all_digits, decimal_of, exponent_mark, exponent_of, is_digit, number, point_mark, pow10, Decimal,
};
use crate::state::MessageModel;
use crate::text::{
    char_is_whitespace, debug_quoted, digit_char, digits, is_blank, line_length, lines_of, number_of,
    number_of_digits, occurs, replaced, stands_at, trim_end, trim_start, without_return,
};
use vstd::prelude::*;

verus! {

proof fn lemma_trim_start(s: Seq<char>) -> (i: int)
    ensures
        0 <= i <= s.len(),
        trim_start(s) == s.skip(i),
        forall|k: int| 0 <= k < i ==> char_is_whitespace(#[trigger] s[k]),
        i < s.len() ==> !char_is_whitespace(s[i]),
    decreases s.len(),
{
    if s.len() > 0 && char_is_whitespace(s[0]) {
        let j = lemma_trim_start(s.skip(1));
        assert(s.skip(1).skip(j) =~= s.skip(j + 1));
        assert forall|k: int| 0 <= k < j + 1 implies char_is_whitespace(#[trigger] s[k]) by {
            if k > 0 {
                assert(s.skip(1)[k - 1] == s[k]);
            }
        }
        j + 1
    } else {
        assert(s.skip(0) =~= s);
        0
    }
}

proof fn lemma_trim_end(s: Seq<char>) -> (j: int)
    ensures
        0 <= j <= s.len(),
        trim_end(s) == s.take(j),
        forall|k: int| j <= k < s.len() ==> char_is_whitespace(#[trigger] s[k]),
        j > 0 ==> !char_is_whitespace(s[j - 1]),
    decreases s.len(),
{
    if s.len() > 0 && char_is_whitespace(s.last()) {
        let j = lemma_trim_end(s.drop_last());
        assert(s.drop_last().take(j) =~= s.take(j));
        assert forall|k: int| j <= k < s.len() implies char_is_whitespace(#[trigger] s[k]) by {
            if k < s.len() - 1 {
                assert(s.drop_last()[k] == s[k]);
            }
        }
        j
    } else {
        assert(s.take(s.len() as int) =~= s);
        s.len() as int
    }
}

/// Whether a part of a text is all that is left of it without white space at its ends.
pub open spec fn is_core(s: Seq<char>, i: int, j: int) -> bool {
    &&& 0 <= i <= j <= s.len()
    &&& forall|k: int| 0 <= k < i ==> char_is_whitespace(#[trigger] s[k])
    &&& forall|k: int| j <= k < s.len() ==> char_is_whitespace(#[trigger] s[k])
    &&& i < j ==> !char_is_whitespace(s[i]) && !char_is_whitespace(s[j - 1])
}

/// Trimming a text leaves a part of it, from its first visible character to its last.
pub proof fn law_trimming_keeps_the_visible_part(s: Seq<char>)
    ensures
        exists|i: int, j: int| #[trigger]
            is_core(s, i, j) && trim_end(trim_start(s)) == s.subrange(i, j),
        is_blank(s) <==> trim_end(trim_start(s)).len() == 0,
{
    let i = lemma_trim_start(s);
    let rest = s.skip(i);
    let n = lemma_trim_end(rest);
    let j = i + n;
    assert(rest.take(n) =~= s.subrange(i, j));
    assert forall|k: int| j <= k < s.len() implies char_is_whitespace(#[trigger] s[k]) by {
        assert(rest[k - i] == s[k]);
    }
    if n > 0 {
        assert(rest[n - 1] == s[j - 1]);
    }
    assert(is_core(s, i, j));
    if is_blank(s) && n > 0 {
        assert(char_is_whitespace(s[j - 1]));
    }
    if n == 0 {
        assert forall|k: int| 0 <= k < s.len() implies char_is_whitespace(#[trigger] s[k]) by {
            if k >= i {
                assert(rest[k - i] == s[k]);
            }
        }
    }
}

proof fn lemma_digits_read(n: nat)
    ensures
        number_of_digits(digits(n)) == Some(n),
        digits(n).len() > 0,
        '0' <= digits(n)[0] <= '9',
    decreases n,
{
    if n < 10 {
        let s = digits(n);
        assert(s.drop_last() =~= Seq::<char>::empty());
        assert(number_of_digits(s.drop_last()) == Some(0nat));
        assert(s.last() == digit_char(n as int));
    } else {
        lemma_digits_read(n / 10);
        let s = digits(n);
        assert(s.drop_last() =~= digits(n / 10));
        assert(s.last() == digit_char((n % 10) as int));
    }
}

/// A number reads back from its digits.
pub proof fn law_numbers_read_back(n: nat)
    ensures
        number_of(digits(n)) == Some(n),
{
    lemma_digits_read(n);
}

proof fn lemma_line_length(s: Seq<char>, n: int)
    requires
        0 <= n <= s.len(),
        forall|k: int| 0 <= k < n ==> s[k] != '\n',
        n == s.len() || s[n] == '\n',
    ensures
        line_length(s) == n,
    decreases s.len(),
{
    if n > 0 {
        lemma_line_length(s.skip(1), n - 1);
    }
}

/// The lines of a text are what stands between its line feeds, in order, each without the
/// carriage return that ends it. A last line without a line feed counts, an empty one does not.
pub proof fn law_lines_stand_between_line_feeds(line: Seq<char>, rest: Seq<char>)
    requires
        forall|k: int| 0 <= k < line.len() ==> (#[trigger] line[k]) != '\n',
    ensures
        lines_of(line.push('\n') + rest) == seq![without_return(line)] + lines_of(rest),
        line.len() > 0 ==> lines_of(line) == seq![line],
        lines_of(Seq::empty()).len() == 0,
        line.len() > 0 && line.last() == '\r' ==> without_return(line) == line.drop_last(),
        line.len() == 0 || line.last() != '\r' ==> without_return(line) == line,
{
    let s = line.push('\n') + rest;
    let n = line.len() as int;
    assert forall|k: int| 0 <= k < n implies s[k] != '\n' by {
        assert(s[k] == line[k]);
    }
    assert(s[n] == '\n');
    lemma_line_length(s, n);
    assert(s.take(n) =~= line);
    assert(s.skip(n + 1) =~= rest);
    if line.len() > 0 {
        lemma_line_length(line, n);
    }
}

proof fn lemma_replaced_head(s: Seq<char>, from: Seq<char>, to: Seq<char>, i: int)
    requires
        from.len() > 0,
        0 <= i <= s.len(),
        forall|k: int| 0 <= k < i ==> !stands_at(s, from, k),
    ensures
        replaced(s, from, to) == s.take(i) + replaced(s.skip(i), from, to),
    decreases i,
{
    if i == 0 {
        assert(s.skip(0) =~= s);
        assert(s.take(0) + replaced(s, from, to) =~= replaced(s, from, to));
    } else {
        assert(!stands_at(s, from, 0));
        let rest = s.skip(1);
        assert forall|k: int| 0 <= k < i - 1 implies !stands_at(rest, from, k) by {
            if stands_at(rest, from, k) {
                assert(s.subrange(k + 1, k + 1 + from.len()) =~= rest.subrange(
                    k,
                    k + from.len(),
                ));
                assert(stands_at(s, from, k + 1));
            }
        }
        lemma_replaced_head(rest, from, to, i - 1);
        assert(rest.skip(i - 1) =~= s.skip(i));
        assert(seq![s[0]] + (rest.take(i - 1) + replaced(s.skip(i), from, to)) =~= s.take(i)
            + replaced(s.skip(i), from, to));
    }
}

/// A replacement leaves a text without the part as it is. Otherwise what stands before the first
/// occurrence is kept, the occurrence gives way to the other text, and the rest is treated alike.
pub proof fn law_replacing_changes_only_the_part(
    s: Seq<char>,
    from: Seq<char>,
    to: Seq<char>,
    i: int,
)
    requires
        from.len() > 0,
    ensures
        !occurs(s, from) ==> replaced(s, from, to) == s,
        stands_at(s, from, i) && (forall|k: int| 0 <= k < i ==> !stands_at(s, from, k))
            ==> replaced(s, from, to) == s.take(i) + to + replaced(
            s.skip(i + from.len()),
            from,
            to,
        ),
{
    if !occurs(s, from) {
        let n = s.len() as int;
        lemma_replaced_head(s, from, to, n);
        assert(s.skip(n) =~= Seq::<char>::empty());
        assert(!stands_at(s.skip(n), from, 0));
        assert(s.take(n) + Seq::<char>::empty() =~= s);
    }
    if stands_at(s, from, i) && (forall|k: int| 0 <= k < i ==> !stands_at(s, from, k)) {
        lemma_replaced_head(s, from, to, i);
        let rest = s.skip(i);
        assert(rest.subrange(0, from.len() as int) =~= s.subrange(i, i + from.len()));
        assert(stands_at(rest, from, 0));
        assert(rest.skip(from.len() as int) =~= s.skip(i + from.len()));
        assert(s.take(i) + (to + replaced(s.skip(i + from.len()), from, to)) =~= s.take(i) + to
            + replaced(s.skip(i + from.len()), from, to));
    }
}

proof fn lemma_exponent_mark(s: Seq<char>, n: int)
    requires
        0 <= n <= s.len(),
        forall|k: int| 0 <= k < n ==> (#[trigger] s[k]) != 'e' && s[k] != 'E',
        n == s.len() || s[n] == 'e' || s[n] == 'E',
    ensures
        exponent_mark(s) == n,
    decreases n,
{
    if n > 0 {
        let rest = s.drop_first();
        assert forall|k: int| 0 <= k < n - 1 implies (#[trigger] rest[k]) != 'e' && rest[k]
            != 'E' by {
            assert(rest[k] == s[k + 1]);
        }
        lemma_exponent_mark(rest, n - 1);
        assert(s[0] != 'e' && s[0] != 'E');
    }
}

proof fn lemma_point_mark(s: Seq<char>, n: int)
    requires
        0 <= n <= s.len(),
        forall|k: int| 0 <= k < n ==> (#[trigger] s[k]) != '.',
        n == s.len() || s[n] == '.',
    ensures
        point_mark(s) == n,
    decreases n,
{
    if n > 0 {
        let rest = s.drop_first();
        assert forall|k: int| 0 <= k < n - 1 implies (#[trigger] rest[k]) != '.' by {
            assert(rest[k] == s[k + 1]);
        }
        lemma_point_mark(rest, n - 1);
        assert(s[0] != '.');
    }
}

proof fn lemma_body(whole: Seq<char>, fraction: Seq<char>, k: int)
    requires
        all_digits(whole),
        all_digits(fraction),
        0 <= k < whole.len() + 1 + fraction.len(),
    ensures
        ({
            let body = whole.push('.') + fraction;
            body[k] == '.' || is_digit(body[k])
        }),
{
    let body = whole.push('.') + fraction;
    if k < whole.len() {
        assert(body[k] == whole[k]);
    } else if k > whole.len() {
        assert(body[k] == fraction[k - whole.len() - 1]);
    }
}

/// A decimal text is read by its places: its digits are its mantissa, and as many of them as
/// stand behind the point are its scale. An exponent moves the point by as many places.
pub proof fn law_decimals_are_read_by_place(
    whole: Seq<char>,
    fraction: Seq<char>,
    power: Seq<char>,
    exponent: int,
)
    requires
        all_digits(whole),
        all_digits(fraction),
        whole.len() + fraction.len() > 0,
        exponent_of(power) == Some(exponent),
    ensures
        decimal_of(whole.push('.') + fraction) == Some(
            Decimal { mantissa: number(whole + fraction), scale: fraction.len() },
        ),
        ({
            let read = decimal_of((whole.push('.') + fraction).push('e') + power);
            let shift = exponent - fraction.len();
            &&& shift < 0 ==> read == Some(
                Decimal { mantissa: number(whole + fraction), scale: (-shift) as nat },
            )
            &&& shift >= 0 ==> read == Some(
                Decimal {
                    mantissa: number(whole + fraction) * pow10(shift as nat),
                    scale: 0,
                },
            )
        }),
{
    let body = whole.push('.') + fraction;
    let n = body.len() as int;
    assert forall|k: int| 0 <= k < n implies (#[trigger] body[k]) != 'e' && body[k] != 'E' && body[k]
        != '+' by {
        lemma_body(whole, fraction, k);
    }
    lemma_exponent_mark(body, n);
    assert forall|k: int| 0 <= k < whole.len() implies (#[trigger] body[k]) != '.' by {
        assert(body[k] == whole[k]);
        assert(is_digit(whole[k]));
    }
    lemma_point_mark(body, whole.len() as int);
    assert(body.take(n) =~= body);
    assert(body.take(whole.len() as int) =~= whole);
    assert(body.skip(whole.len() as int + 1) =~= fraction);
    let none: Seq<char> = Seq::empty();
    assert(fraction.len() == 0 ==> fraction =~= none);
    assert(pow10(0) == 1);
    assert(number(whole + fraction) * 1 == number(whole + fraction)) by (nonlinear_arith);
    let text = body.push('e') + power;
    assert forall|k: int| 0 <= k < n implies (#[trigger] text[k]) != 'e' && text[k] != 'E' by {
        assert(text[k] == body[k]);
    }
    assert(text[n] == 'e');
    lemma_exponent_mark(text, n);
    assert(text.skip(n + 1) =~= power);
    assert(text.take(n) =~= body);
}

/// A number is its digits by their places, and an exponent is its digits with their sign.
pub proof fn law_digits_count_by_place(s: Seq<char>, c: char)
    requires
        is_digit(c),
    ensures
        number(s.push(c)) == number(s) * 10 + (c as int - '0' as int),
        number(Seq::empty()) == 0,
        s.len() > 0 && all_digits(s) && number(s) <= i64::MAX ==> {
            &&& exponent_of(s) == Some(number(s) as int)
            &&& exponent_of(seq!['-'] + s) == Some(-(number(s) as int))
            &&& exponent_of(seq!['+'] + s) == Some(number(s) as int)
        },
{
    assert(s.push(c).drop_last() =~= s);
    if s.len() > 0 && all_digits(s) {
        assert(is_digit(s[0]));
        assert((seq!['-'] + s).skip(1) =~= s);
        assert((seq!['+'] + s).skip(1) =~= s);
    }
}

proof fn lemma_held(text: Seq<char>, front: Seq<char>, part: Seq<char>, back: Seq<char>)
    requires
        text == front + part + back,
    ensures
        occurs(text, part),
{
    let i = front.len() as int;
    assert(text.subrange(i, i + part.len()) =~= part);
    assert(stands_at(text, part, i));
}

/// Texts are joined in order with the separator between each two of them.
pub proof fn law_joined_texts_stand_in_order(
    items: Seq<Seq<char>>,
    item: Seq<char>,
    separator: Seq<char>,
)
    ensures
        separated(Seq::empty(), separator).len() == 0,
        separated(seq![item], separator) == item,
        items.len() > 0 ==> separated(items.push(item), separator) == separated(items, separator)
            + separator + item,
{
    assert(items.push(item).drop_last() =~= items);
    assert(seq![item].drop_last() =~= Seq::<Seq<char>>::empty());
    assert(seq![item].last() == item);
}

/// The text of a message shows its content, and so does that of a conversation of one message.
pub proof fn law_messages_show_their_content(message: MessageModel)
    ensures
        match message {
            MessageModel::User { content, .. } => occurs(
                debug_message(message),
                debug_quoted(content),
            ),
            MessageModel::Assistant { content, .. } => occurs(
                debug_message(message),
                debug_quoted(content),
            ),
            MessageModel::ToolResult { content, tool_call_id, tool_name, .. } => occurs(
                debug_message(message),
                debug_quoted(content),
            ) && occurs(debug_message(message), debug_quoted(tool_call_id)) && occurs(
                debug_message(message),
                debug_quoted(tool_name),
            ),
        },
        debug_lines(seq![message]) == debug_message(message),
{
    let text = debug_message(message);
    match message {
        MessageModel::User { id, content } => {
            lemma_held(
                text,
                "User { id: "@ + debug_id(id) + ", content: "@,
                debug_quoted(content),
                " }"@,
            );
        },
        MessageModel::Assistant { id, content, .. } => {
            let front = "Assistant { id: "@ + debug_id(id) + ", content: "@;
            let n = front.len() + debug_quoted(content).len();
            assert(text =~= front + debug_quoted(content) + text.skip(n as int));
            lemma_held(text, front, debug_quoted(content), text.skip(n as int));
        },
        MessageModel::ToolResult { id, tool_call_id, tool_name, content, .. } => {
            let a = "ToolResult { id: "@ + debug_id(id) + ", tool_call_id: ToolCallId("@;
            let na = (a.len() + debug_quoted(tool_call_id).len()) as int;
            assert(text =~= a + debug_quoted(tool_call_id) + text.skip(na));
            lemma_held(text, a, debug_quoted(tool_call_id), text.skip(na));
            let b = a + debug_quoted(tool_call_id) + "), tool_name: "@;
            let nb = (b.len() + debug_quoted(tool_name).len()) as int;
            assert(text =~= b + debug_quoted(tool_name) + text.skip(nb));
            lemma_held(text, b, debug_quoted(tool_name), text.skip(nb));
            let c = b + debug_quoted(tool_name) + ", content: "@;
            let nc = (c.len() + debug_quoted(content).len()) as int;
            assert(text =~= c + debug_quoted(content) + text.skip(nc));
            lemma_held(text, c, debug_quoted(content), text.skip(nc));
        },
    }
    law_joined_texts_stand_in_order(Seq::empty(), text, "\n"@);
    assert(seq![message].map_values(|message: MessageModel| debug_message(message))
        =~= seq![text]);
}

} // verus!

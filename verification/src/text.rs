//! Text of a line: surrounding blanks and decimal integers.

use vstd::prelude::*;
use vstd::std_specs::iter::IteratorSpec;
use vstd::string::StringExecFns;

verus! {

/// Whether `c` is white space in the sense of Unicode: the characters with
/// the property `White_Space`, line ends among them.
pub open spec fn is_blank(c: char) -> bool {
    let code = c as u32;
    ||| 0x09 <= code <= 0x0D
    ||| code == 0x20
    ||| code == 0x85
    ||| code == 0xA0
    ||| code == 0x1680
    ||| 0x2000 <= code <= 0x200A
    ||| code == 0x2028
    ||| code == 0x2029
    ||| code == 0x202F
    ||| code == 0x205F
    ||| code == 0x3000
}

/// How many blanks `s` starts with.
pub open spec fn leading_blanks(s: Seq<char>) -> nat
    decreases s.len(),
{
    if s.len() > 0 && is_blank(s.first()) {
        1 + leading_blanks(s.drop_first())
    } else {
        0
    }
}

/// How many blanks `s` ends with.
pub open spec fn trailing_blanks(s: Seq<char>) -> nat
    decreases s.len(),
{
    if s.len() > 0 && is_blank(s.last()) {
        1 + trailing_blanks(s.drop_last())
    } else {
        0
    }
}

/// `s` without the blanks at its start and at its end.
pub open spec fn trimmed(s: Seq<char>) -> Seq<char> {
    let tail = s.skip(leading_blanks(s) as int);
    tail.take(tail.len() - trailing_blanks(tail))
}

/// The leading blanks of `s` are its first `k` characters as soon as those
/// are blank and the next one, if any, is not.
pub proof fn lemma_leading_blanks(s: Seq<char>, k: nat)
    requires
        k <= s.len(),
        forall|i: int| 0 <= i < k ==> is_blank(#[trigger] s[i]),
        k < s.len() ==> !is_blank(s[k as int]),
    ensures
        leading_blanks(s) == k,
    decreases k,
{
    if k > 0 {
        let rest = s.drop_first();
        assert forall|i: int| 0 <= i < k - 1 implies is_blank(#[trigger] rest[i]) by {
            assert(rest[i] == s[i + 1]);
        }
        lemma_leading_blanks(rest, (k - 1) as nat);
    }
}

/// The trailing blanks of `s` are its last `k` characters as soon as those
/// are blank and the one before them, if any, is not.
pub proof fn lemma_trailing_blanks(s: Seq<char>, k: nat)
    requires
        k <= s.len(),
        forall|i: int| s.len() - k <= i < s.len() ==> is_blank(#[trigger] s[i]),
        k < s.len() ==> !is_blank(s[s.len() - k - 1]),
    ensures
        trailing_blanks(s) == k,
    decreases k,
{
    if k > 0 {
        let rest = s.drop_last();
        assert forall|i: int| rest.len() - (k - 1) <= i < rest.len() implies is_blank(
            #[trigger] rest[i],
        ) by {
            assert(rest[i] == s[i]);
        }
        lemma_trailing_blanks(rest, (k - 1) as nat);
    }
}

/// What trimming leaves: `s` is blanks, then `trimmed(s)`, then blanks, and
/// `trimmed(s)` neither starts nor ends with a blank.
pub proof fn lemma_trimmed(s: Seq<char>)
    ensures
        leading_blanks(s) + trimmed(s).len() <= s.len(),
        trimmed(s) == s.subrange(
            leading_blanks(s) as int,
            (leading_blanks(s) + trimmed(s).len()) as int,
        ),
        forall|i: int| 0 <= i < leading_blanks(s) ==> is_blank(#[trigger] s[i]),
        forall|i: int|
            leading_blanks(s) + trimmed(s).len() <= i < s.len() ==> is_blank(#[trigger] s[i]),
        trimmed(s).len() > 0 ==> !is_blank(trimmed(s).first()) && !is_blank(trimmed(s).last()),
{
    lemma_leading_run(s);
    let tail = s.skip(leading_blanks(s) as int);
    lemma_trailing_run(tail);
    let kept = tail.len() - trailing_blanks(tail);
    assert(trimmed(s) =~= s.subrange(leading_blanks(s) as int, leading_blanks(s) + kept));
    assert forall|i: int| leading_blanks(s) + kept <= i < s.len() implies is_blank(
        #[trigger] s[i],
    ) by {
        assert(s[i] == tail[i - leading_blanks(s)]);
    }
    if trimmed(s).len() > 0 {
        assert(trimmed(s).first() == s[leading_blanks(s) as int]);
        assert(trimmed(s).last() == tail[kept - 1]);
    }
}

/// The first `leading_blanks(s)` characters of `s` are blank and the next
/// one, if any, is not.
proof fn lemma_leading_run(s: Seq<char>)
    ensures
        leading_blanks(s) <= s.len(),
        forall|i: int| 0 <= i < leading_blanks(s) ==> is_blank(#[trigger] s[i]),
        leading_blanks(s) < s.len() ==> !is_blank(s[leading_blanks(s) as int]),
    decreases s.len(),
{
    if s.len() > 0 && is_blank(s.first()) {
        let rest = s.drop_first();
        lemma_leading_run(rest);
        assert forall|i: int| 0 <= i < leading_blanks(s) implies is_blank(#[trigger] s[i]) by {
            if i > 0 {
                assert(s[i] == rest[i - 1]);
            }
        }
        if leading_blanks(s) < s.len() {
            assert(s[leading_blanks(s) as int] == rest[leading_blanks(rest) as int]);
        }
    }
}

/// The last `trailing_blanks(s)` characters of `s` are blank and the one
/// before them, if any, is not.
proof fn lemma_trailing_run(s: Seq<char>)
    ensures
        trailing_blanks(s) <= s.len(),
        forall|i: int| s.len() - trailing_blanks(s) <= i < s.len() ==> is_blank(#[trigger] s[i]),
        trailing_blanks(s) < s.len() ==> !is_blank(s[s.len() - trailing_blanks(s) - 1]),
    decreases s.len(),
{
    if s.len() > 0 && is_blank(s.last()) {
        let rest = s.drop_last();
        lemma_trailing_run(rest);
        assert forall|i: int| s.len() - trailing_blanks(s) <= i < s.len() implies is_blank(
            #[trigger] s[i],
        ) by {
            if i < s.len() - 1 {
                assert(s[i] == rest[i]);
            }
        }
        if trailing_blanks(s) < s.len() {
            assert(s[s.len() - trailing_blanks(s) - 1] == rest[rest.len() - trailing_blanks(rest)
                - 1]);
        }
    }
}

/// The characters of `s`, in order.
pub fn characters(s: &str) -> (chars: Vec<char>)
    ensures
        chars@ == s@,
{
    let mut chars: Vec<char> = Vec::new();
    for c in rest: s.chars()
        invariant
            rest.seq() == s@,
            chars@ == s@.take(rest.index()),
    {
        chars.push(c);
    }
    chars
}

/// Tells whether `c` is white space.
pub fn is_blank_char(c: char) -> (blank: bool)
    ensures
        blank == is_blank(c),
{
    let code: u32 = c as u32;
    (0x09 <= code && code <= 0x0D) || code == 0x20 || code == 0x85 || code == 0xA0 || code
        == 0x1680 || (0x2000 <= code && code <= 0x200A) || code == 0x2028 || code == 0x2029
        || code == 0x202F || code == 0x205F || code == 0x3000
}

/// Finds what trimming keeps of `chars`: the positions `(from, to)` between
/// which `trimmed` lies.
pub fn trim_bounds(chars: &Vec<char>) -> (bounds: (usize, usize))
    ensures
        bounds.0 <= bounds.1 <= chars.len(),
        bounds.0 == leading_blanks(chars@),
        chars@.subrange(bounds.0 as int, bounds.1 as int) == trimmed(chars@),
{
    let len: usize = chars.len();
    let mut from: usize = 0;
    while from < len && is_blank_char(chars[from])
        invariant
            from <= len == chars.len(),
            forall|i: int| 0 <= i < from ==> is_blank(#[trigger] chars@[i]),
        decreases len - from,
    {
        from = from + 1;
    }
    let mut to: usize = len;
    while to > from && is_blank_char(chars[to - 1])
        invariant
            from <= to <= len == chars.len(),
            forall|i: int| to <= i < len ==> is_blank(#[trigger] chars@[i]),
        decreases to,
    {
        to = to - 1;
    }
    proof {
        lemma_leading_blanks(chars@, from as nat);
        let tail = chars@.skip(from as int);
        assert forall|i: int| tail.len() - (len - to) <= i < tail.len() implies is_blank(
            #[trigger] tail[i],
        ) by {
            assert(tail[i] == chars@[i + from]);
        }
        if to > from {
            assert(tail[to - from - 1] == chars@[to - 1]);
        }
        lemma_trailing_blanks(tail, (len - to) as nat);
        assert(chars@.subrange(from as int, to as int) =~= trimmed(chars@));
    }
    (from, to)
}

/// Whether `c` is one of the ten decimal digits.
pub open spec fn is_digit(c: char) -> bool {
    '0' <= c <= '9'
}

/// What a decimal digit counts for; zero for any other character.
pub open spec fn digit_value(c: char) -> nat {
    if is_digit(c) {
        (c as u32 - '0' as u32) as nat
    } else {
        0
    }
}

/// Whether `s` holds decimal digits and nothing else.
pub open spec fn all_digits(s: Seq<char>) -> bool {
    forall|i: int| 0 <= i < s.len() ==> is_digit(#[trigger] s[i])
}

/// The number that the digits of `s` write in base ten.
pub open spec fn decimal_value(s: Seq<char>) -> nat
    decreases s.len(),
{
    if s.len() == 0 {
        0
    } else {
        10 * decimal_value(s.drop_last()) + digit_value(s.last())
    }
}

/// Whether `s` starts with a plus or a minus sign.
pub open spec fn has_sign(s: Seq<char>) -> bool {
    s.len() > 0 && (s[0] == '+' || s[0] == '-')
}

/// The 32-bit signed integer that `s` writes, if it writes one: an optional
/// sign, then at least one decimal digit and nothing else, with a value
/// from `i32::MIN` to `i32::MAX`.
pub open spec fn parse_i32(s: Seq<char>) -> Option<i32> {
    let digits = if has_sign(s) {
        s.drop_first()
    } else {
        s
    };
    let magnitude = decimal_value(digits) as int;
    let value = if has_sign(s) && s[0] == '-' {
        -magnitude
    } else {
        magnitude
    };
    if digits.len() > 0 && all_digits(digits) && i32::MIN <= value <= i32::MAX {
        Some(value as i32)
    } else {
        None
    }
}

/// A number is at least what any of its leading digits write.
pub proof fn lemma_decimal_value_prefix(s: Seq<char>, k: int)
    requires
        0 <= k <= s.len(),
    ensures
        decimal_value(s.take(k)) <= decimal_value(s),
    decreases s.len(),
{
    if k == s.len() {
        assert(s.take(k) =~= s);
    } else {
        lemma_decimal_value_prefix(s.drop_last(), k);
        assert(s.drop_last().take(k) =~= s.take(k));
    }
}

/// Reads the characters of `chars` from position `from` up to `to` as a
/// 32-bit signed integer in decimal notation.
pub fn parse_decimal(chars: &Vec<char>, from: usize, to: usize) -> (parsed: Option<i32>)
    requires
        from <= to <= chars.len(),
    ensures
        parsed == parse_i32(chars@.subrange(from as int, to as int)),
{
    let ghost text = chars@.subrange(from as int, to as int);
    if from == to {
        return None;
    }
    let negative: bool = chars[from] == '-';
    let signed: bool = negative || chars[from] == '+';
    let start: usize = if signed {
        from + 1
    } else {
        from
    };
    let ghost digits = chars@.subrange(start as int, to as int);
    assert(signed == has_sign(text));
    assert(negative == (has_sign(text) && text[0] == '-'));
    assert(digits =~= if has_sign(text) {
        text.drop_first()
    } else {
        text
    });
    if start == to {
        return None;
    }
    let mut magnitude: i64 = 0;
    let mut at: usize = start;
    while at < to
        invariant
            from <= start <= at <= to <= chars.len(),
            text == chars@.subrange(from as int, to as int),
            digits == chars@.subrange(start as int, to as int),
            digits == (if has_sign(text) {
                text.drop_first()
            } else {
                text
            }),
            all_digits(digits.take(at - start)),
            magnitude == decimal_value(digits.take(at - start)),
            magnitude <= 0x8000_0000,
        decreases to - at,
    {
        let c: char = chars[at];
        assert(c == digits[at - start]);
        if !('0' <= c && c <= '9') {
            return None;
        }
        let digit: i64 = (c as u32 - '0' as u32) as i64;
        let next: i64 = 10 * magnitude + digit;
        proof {
            let longer = digits.take(at + 1 - start);
            assert(longer.drop_last() =~= digits.take(at - start));
            assert(longer.last() == c);
            assert(next == decimal_value(longer));
            assert forall|i: int| 0 <= i < longer.len() implies is_digit(#[trigger] longer[i]) by {
                if i < at - start {
                    assert(longer[i] == digits.take(at - start)[i]);
                }
            }
        }
        if next > 0x8000_0000 {
            proof {
                lemma_decimal_value_prefix(digits, at + 1 - start);
            }
            return None;
        }
        magnitude = next;
        at = at + 1;
    }
    assert(digits.take(at - start) =~= digits);
    if negative {
        let value: i64 = -magnitude;
        Some(value as i32)
    } else if magnitude <= 0x7FFF_FFFF {
        Some(magnitude as i32)
    } else {
        None
    }
}

/// The character that writes the digit `d`.
pub open spec fn digit_char(d: nat) -> char
    recommends
        d < 10,
{
    (('0' as u8) + d) as u8 as char
}

/// The decimal notation of `n`, without sign and without leading zeros.
pub open spec fn decimal_text(n: nat) -> Seq<char>
    decreases n,
{
    if n < 10 {
        seq![digit_char(n)]
    } else {
        decimal_text(n / 10).push(digit_char(n % 10))
    }
}

/// What `decimal_text` writes holds digits only, has no blank at either end,
/// and is read back as the number that was written, as far as that number is
/// a 32-bit signed integer.
pub proof fn lemma_decimal_text_reads_back(n: nat)
    ensures
        decimal_text(n).len() > 0,
        all_digits(decimal_text(n)),
        decimal_value(decimal_text(n)) == n,
        trimmed(decimal_text(n)) == decimal_text(n),
        parse_i32(decimal_text(n)) == (if n <= i32::MAX {
            Some(n as i32)
        } else {
            None
        }),
    decreases n,
{
    let text = decimal_text(n);
    if n < 10 {
        assert(text.drop_last().len() == 0);
        assert(decimal_value(text.drop_last()) == 0);
    } else {
        let shorter = decimal_text(n / 10);
        lemma_decimal_text_reads_back(n / 10);
        assert(text.drop_last() =~= shorter);
        assert forall|i: int| 0 <= i < text.len() implies is_digit(#[trigger] text[i]) by {
            if i < shorter.len() {
                assert(text[i] == shorter[i]);
            }
        }
    }
    assert(is_digit(text.first()) && is_digit(text.last()));
    lemma_leading_blanks(text, 0);
    assert(text.skip(0) =~= text);
    lemma_trailing_blanks(text, 0);
    assert(trimmed(text) =~= text);
}

/// The one-character text of the digit `d`.
pub fn digit_text(d: u32) -> (text: &'static str)
    requires
        d < 10,
    ensures
        text@ == seq![digit_char(d as nat)],
{
    proof {
        reveal_strlit("0");
        reveal_strlit("1");
        reveal_strlit("2");
        reveal_strlit("3");
        reveal_strlit("4");
        reveal_strlit("5");
        reveal_strlit("6");
        reveal_strlit("7");
        reveal_strlit("8");
        reveal_strlit("9");
    }
    let text: &'static str = match d {
        0 => "0",
        1 => "1",
        2 => "2",
        3 => "3",
        4 => "4",
        5 => "5",
        6 => "6",
        7 => "7",
        8 => "8",
        _ => "9",
    };
    assert(text@ =~= seq![digit_char(d as nat)]);
    text
}

/// Writes `n` in decimal notation.
pub fn decimal(n: u32) -> (text: String)
    ensures
        text@ == decimal_text(n as nat),
    decreases n,
{
    if n < 10 {
        digit_text(n).to_owned()
    } else {
        decimal(n / 10).concat(digit_text(n % 10))
    }
}

} // verus!

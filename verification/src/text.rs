//! Text primitives shared by the command parser, the dispatcher and the
//! producers: the `\r\n` envelope, decimal numbers, blank trimming and prefix
//! tests. Text is modelled as `Seq<char>`, the view of `str` and `String`.

use vstd::prelude::*;
use vstd::string::*;

verus! {

/// The characters of `content` inside the `\r\n` ... `\r\n` envelope.
pub open spec fn wrapped(content: Seq<char>) -> Seq<char> {
    seq!['\r', '\n'] + content + seq!['\r', '\n']
}

/// Puts `content` into the `\r\n` ... `\r\n` envelope that response lines use.
pub fn wrap(content: &str) -> (line: String)
    ensures
        line@ == wrapped(content@),
{
    proof {
        reveal_strlit("\r\n");
    }
    let mut line = String::from_str("\r\n");
    line.append(content);
    line.append("\r\n");
    assert(line@ =~= wrapped(content@));
    line
}

/// The characters of `s`, in order.
pub fn to_chars(s: &str) -> (chars: Vec<char>)
    ensures
        chars@ == s@,
{
    let mut chars: Vec<char> = Vec::new();
    for c in it: s.chars()
        invariant
            chars@ == it.seq().take(it.index() as int),
    {
        chars.push(c);
    }
    chars
}

/// The number of bytes that `text` takes as UTF-8, which is what `str::len`
/// counts.
pub open spec fn byte_len(text: Seq<char>) -> nat {
    vstd::utf8::encode_utf8(text).len()
}

/// ASCII text takes one byte for each character.
pub proof fn lemma_byte_len_ascii(text: Seq<char>)
    requires
        vstd::utf8::is_ascii_chars(text),
    ensures
        byte_len(text) == text.len(),
{
    vstd::utf8::is_ascii_chars_encode_utf8(text);
}

/// The decimal digit for `d`, meant for `d < 10`.
pub open spec fn digit_char(d: nat) -> char {
    ((d + 48) as u8) as char
}

/// The decimal notation of `n`, without sign or leading zeros.
pub open spec fn decimal(n: nat) -> Seq<char>
    decreases n,
{
    if n < 10 {
        seq![digit_char(n)]
    } else {
        decimal(n / 10).push(digit_char(n % 10))
    }
}

/// The decimal digit for `d`, as text.
fn digit_str(d: u8) -> (s: &'static str)
    requires
        d < 10,
    ensures
        s@ == seq![digit_char(d as nat)],
{
    proof {
        reveal_strlit("0");
        reveal_strlit("1");
        reveal_strlit("2");
        reveal_strlit("3");
        reveal_strlit("4");
        reveal_strlit("5");
        reveal_strlit("6");
        reveal_strlit("7");
        reveal_strlit("8");
        reveal_strlit("9");
    }
    let s = if d == 0 {
        "0"
    } else if d == 1 {
        "1"
    } else if d == 2 {
        "2"
    } else if d == 3 {
        "3"
    } else if d == 4 {
        "4"
    } else if d == 5 {
        "5"
    } else if d == 6 {
        "6"
    } else if d == 7 {
        "7"
    } else if d == 8 {
        "8"
    } else {
        "9"
    };
    assert(s@ =~= seq![digit_char(d as nat)]);
    s
}

/// Appends the decimal notation of `n` to `out`.
pub fn push_decimal(out: &mut String, n: u64)
    ensures
        final(out)@ == old(out)@ + decimal(n as nat),
    decreases n,
{
    if n >= 10 {
        push_decimal(out, n / 10);
    }
    let d: u8 = (n % 10) as u8;
    out.append(digit_str(d));
    assert(out@ =~= old(out)@ + decimal(n as nat));
}

/// Whether `c` is one of the ten decimal digits.
pub open spec fn is_digit(c: char) -> bool {
    '0' <= c <= '9'
}

/// The value of the decimal digit `c`.
pub open spec fn digit_value(c: char) -> nat
    recommends
        is_digit(c),
{
    (c as u32 - 48) as nat
}

/// The number that a run of decimal digits denotes; the empty run denotes 0.
pub open spec fn digits_value(digits: Seq<char>) -> nat
    decreases digits.len(),
{
    if digits.len() == 0 {
        0
    } else {
        digits_value(digits.drop_last()) * 10 + digit_value(digits.last())
    }
}

/// Whether every character of `text` is a decimal digit.
pub open spec fn all_digits(text: Seq<char>) -> bool {
    forall|i: int| 0 <= i < text.len() ==> is_digit(#[trigger] text[i])
}

/// The digits of an unsigned number: `text` without one leading `+`.
pub open spec fn unsigned_digits(text: Seq<char>) -> Seq<char> {
    if text.len() > 0 && text[0] == '+' {
        text.skip(1)
    } else {
        text
    }
}

/// The unsigned number that `text` denotes: an optional `+`, then at least one
/// decimal digit and nothing else. `None` for any other text.
pub open spec fn unsigned_value(text: Seq<char>) -> Option<nat> {
    let digits = unsigned_digits(text);
    if digits.len() > 0 && all_digits(digits) {
        Some(digits_value(digits))
    } else {
        None
    }
}

/// What `unsigned_value` gives where the number fits 64 bits, `None` otherwise.
pub open spec fn unsigned_u64(text: Seq<char>) -> Option<u64> {
    match unsigned_value(text) {
        Some(v) => if v <= u64::MAX {
            Some(v as u64)
        } else {
            None
        },
        None => None,
    }
}

/// A run of digits denotes at least what any of its prefixes denotes.
pub proof fn lemma_digits_value_monotonic(digits: Seq<char>, k: int)
    requires
        0 <= k <= digits.len(),
    ensures
        digits_value(digits.take(k)) <= digits_value(digits),
    decreases digits.len(),
{
    if k == digits.len() {
        assert(digits.take(k) =~= digits);
    } else {
        lemma_digits_value_monotonic(digits.drop_last(), k);
        assert(digits.drop_last().take(k) =~= digits.take(k));
    }
}

/// Reads the unsigned decimal number that `chars` denotes.
pub fn parse_unsigned(chars: &[char]) -> (value: Option<u64>)
    ensures
        value == unsigned_u64(chars@),
{
    let n: usize = chars.len();
    let mut i: usize = 0;
    if i < n && chars[i] == '+' {
        i = i + 1;
    }
    let start: usize = i;
    let ghost digits = chars@.skip(start as int);
    assert(digits =~= unsigned_digits(chars@));
    if start == n {
        return None;
    }
    let mut acc: u64 = 0;
    while i < n
        invariant
            start <= i <= n,
            start < n,
            n == chars.len(),
            digits == chars@.skip(start as int),
            digits == unsigned_digits(chars@),
            all_digits(digits.take(i - start)),
            acc == digits_value(digits.take(i - start)),
        decreases n - i,
    {
        let c: char = chars[i];
        assert(c == digits[i - start]);
        if !(c >= '0' && c <= '9') {
            assert(!is_digit(digits[i - start]));
            return None;
        }
        let d: u64 = (c as u32 - 48) as u64;
        let ghost next = digits.take(i - start + 1);
        assert(next.drop_last() =~= digits.take(i - start));
        assert(next.last() == c);
        assert(digits_value(next) == acc * 10 + d);
        if acc > (u64::MAX - d) / 10 {
            proof {
                lemma_digits_value_monotonic(digits, i - start + 1);
                if all_digits(digits) {
                    assert(digits_value(digits) > u64::MAX);
                }
            }
            return None;
        }
        acc = acc * 10 + d;
        i = i + 1;
    }
    assert(digits.take(n - start) =~= digits);
    Some(acc)
}

/// The blank characters that may surround a command: space, tab, line feed,
/// vertical tab, form feed and carriage return.
pub open spec fn is_blank(c: char) -> bool {
    c == ' ' || ('\t' <= c <= '\r')
}

/// `text` without its leading blanks.
pub open spec fn trim_start(text: Seq<char>) -> Seq<char>
    decreases text.len(),
{
    if text.len() > 0 && is_blank(text[0]) {
        trim_start(text.skip(1))
    } else {
        text
    }
}

/// `text` without its trailing blanks.
pub open spec fn trim_end(text: Seq<char>) -> Seq<char>
    decreases text.len(),
{
    if text.len() > 0 && is_blank(text.last()) {
        trim_end(text.drop_last())
    } else {
        text
    }
}

/// `text` without the blanks at either end.
pub open spec fn trimmed(text: Seq<char>) -> Seq<char> {
    trim_end(trim_start(text))
}

/// Text that neither begins nor ends with a blank has nothing to cut.
pub proof fn lemma_trimmed_is_identity(text: Seq<char>)
    requires
        text.len() > 0,
        !is_blank(text.first()),
        !is_blank(text.last()),
    ensures
        trimmed(text) == text,
{
}

/// Whether `c` is blank.
pub fn blank(c: char) -> (b: bool)
    ensures
        b == is_blank(c),
{
    c == ' ' || (c >= '\t' && c <= '\r')
}

/// The range of `chars` that is left when the blanks at either end are cut.
pub fn trim_bounds(chars: &Vec<char>) -> (bounds: (usize, usize))
    ensures
        bounds.0 <= bounds.1 <= chars.len(),
        chars@.subrange(bounds.0 as int, bounds.1 as int) == trimmed(chars@),
        chars@.skip(bounds.0 as int) == trim_start(chars@),
{
    let n: usize = chars.len();
    let mut start: usize = 0;
    assert(chars@.skip(0) =~= chars@);
    while start < n && blank(chars[start])
        invariant
            start <= n,
            n == chars.len(),
            trim_start(chars@) == trim_start(chars@.skip(start as int)),
        decreases n - start,
    {
        assert(chars@.skip(start as int).skip(1) =~= chars@.skip(start as int + 1));
        start = start + 1;
    }
    let ghost rest = chars@.skip(start as int);
    assert(trim_start(chars@) == rest);
    let mut end: usize = n;
    assert(rest.take(n - start) =~= rest);
    while end > start && blank(chars[end - 1])
        invariant
            start <= end <= n,
            n == chars.len(),
            rest == chars@.skip(start as int),
            trim_end(rest) == trim_end(rest.take(end - start)),
        decreases end,
    {
        assert(rest.take(end - start).drop_last() =~= rest.take(end - start - 1));
        end = end - 1;
    }
    assert(rest.take(end - start) =~= chars@.subrange(start as int, end as int));
    (start, end)
}

/// Whether `chars` begins with the characters of `prefix`.
pub fn starts_with(chars: &Vec<char>, prefix: &str) -> (b: bool)
    ensures
        b == prefix@.is_prefix_of(chars@),
{
    let p: Vec<char> = to_chars(prefix);
    if p.len() > chars.len() {
        return false;
    }
    let mut i: usize = 0;
    while i < p.len()
        invariant
            i <= p.len() <= chars.len(),
            p@ == prefix@,
            forall|j: int| 0 <= j < i ==> p@[j] == chars@[j],
        decreases p.len() - i,
    {
        if p[i] != chars[i] {
            assert(p@[i as int] != chars@.subrange(0, p@.len() as int)[i as int]);
            return false;
        }
        i = i + 1;
    }
    assert(p@ =~= chars@.subrange(0, p@.len() as int));
    true
}

/// Whether `chars` holds exactly the characters of `text`.
pub fn same_text(chars: &Vec<char>, text: &str) -> (b: bool)
    ensures
        b == (chars@ == text@),
{
    let p: Vec<char> = to_chars(text);
    if p.len() != chars.len() {
        return false;
    }
    let mut i: usize = 0;
    while i < p.len()
        invariant
            i <= p.len(),
            p.len() == chars.len(),
            p@ == text@,
            forall|j: int| 0 <= j < i ==> p@[j] == chars@[j],
        decreases p.len() - i,
    {
        if p[i] != chars[i] {
            assert(p@[i as int] != chars@[i as int]);
            return false;
        }
        i = i + 1;
    }
    assert(p@ =~= chars@);
    true
}

} // verus!

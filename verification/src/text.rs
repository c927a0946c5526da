//! Character classes and decimal notation over sequences of characters.

use vstd::prelude::*;

verus! {

/// `String::push` appends one character at the end of the string.
pub assume_specification[ std::string::String::push ](s: &mut std::string::String, c: char)
    ensures
        final(s)@ == old(s)@.push(c),
;

/// One of the ten ASCII decimal digits.
pub open spec fn is_digit(c: char) -> bool {
    '0' <= c && c <= '9'
}

/// An ASCII letter of either case.
pub open spec fn is_letter(c: char) -> bool {
    ('a' <= c && c <= 'z') || ('A' <= c && c <= 'Z')
}

/// An ASCII letter or digit.
pub open spec fn is_alphanumeric(c: char) -> bool {
    is_letter(c) || is_digit(c)
}

/// A character with the Unicode property `White_Space`.
pub open spec fn is_space(c: char) -> bool {
    let v = c as u32;
    (0x09 <= v && v <= 0x0d) || v == 0x20 || v == 0x85 || v == 0xa0 || v == 0x1680 || (0x2000
        <= v && v <= 0x200a) || v == 0x2028 || v == 0x2029 || v == 0x202f || v == 0x205f || v
        == 0x3000
}

/// The upper-case form of an ASCII letter; any other character is unchanged.
pub open spec fn upper(c: char) -> char {
    if 'a' <= c && c <= 'z' {
        ((c as u8) - 32) as char
    } else {
        c
    }
}

/// The lower-case form of an ASCII letter; any other character is unchanged.
pub open spec fn lower(c: char) -> char {
    if 'A' <= c && c <= 'Z' {
        ((c as u8) + 32) as char
    } else {
        c
    }
}

/// The text with every ASCII letter in lower case.
pub open spec fn lower_text(s: Seq<char>) -> Seq<char> {
    Seq::new(s.len(), |i: int| lower(s[i]))
}

/// A set of characters that a scan may run over.
#[derive(Clone, Copy, Debug, PartialEq, Eq)]
pub enum CharClass {
    /// Space, tab, carriage return and line feed.
    Whitespace,
    /// ASCII letters.
    Letter,
    /// ASCII decimal digits.
    Digit,
    /// What a number is made of: decimal digits and the radix point.
    Number,
    /// What a cell reference is made of: ASCII letters and digits, `!` and `$`.
    CellRef,
    /// What a word is made of: the characters of a cell reference and `_`.
    Word,
    /// Unicode white space.
    Space,
    /// Every character but the given one.
    Except(char),
}

impl CharClass {
    /// Whether `c` belongs to the class.
    pub open spec fn holds(self, c: char) -> bool {
        match self {
            CharClass::Whitespace => c == ' ' || c == '\t' || c == '\r' || c == '\n',
            CharClass::Letter => is_letter(c),
            CharClass::Digit => is_digit(c),
            CharClass::Number => is_digit(c) || c == '.',
            CharClass::CellRef => is_alphanumeric(c) || c == '!' || c == '$',
            CharClass::Word => is_alphanumeric(c) || c == '!' || c == '$' || c == '_',
            CharClass::Space => is_space(c),
            CharClass::Except(other) => c != other,
        }
    }

    /// Whether `c` belongs to the class.
    pub fn contains(self, c: char) -> (b: bool)
        ensures
            b == self.holds(c),
    {
        match self {
            CharClass::Whitespace => c == ' ' || c == '\t' || c == '\r' || c == '\n',
            CharClass::Letter => char_is_letter(c),
            CharClass::Digit => char_is_digit(c),
            CharClass::Number => char_is_digit(c) || c == '.',
            CharClass::CellRef => char_is_alphanumeric(c) || c == '!' || c == '$',
            CharClass::Word => char_is_alphanumeric(c) || c == '!' || c == '$' || c == '_',
            CharClass::Space => char_is_space(c),
            CharClass::Except(other) => c != other,
        }
    }
}

/// Where the longest run of characters of `class` that starts at `from` ends:
/// the first position at or after `from` that holds no character of the
/// class, or the length of `s`.
pub open spec fn run_end(s: Seq<char>, from: int, class: CharClass) -> int
    decreases s.len() - from,
{
    if 0 <= from < s.len() && class.holds(s[from]) {
        run_end(s, from + 1, class)
    } else {
        from
    }
}

/// Where `s[start..end]` ends once the white space at its end is taken off.
pub open spec fn trim_end(s: Seq<char>, start: int, end: int) -> int
    decreases end - start,
{
    if start < end && 0 < end <= s.len() && is_space(s[end - 1]) {
        trim_end(s, start, end - 1)
    } else {
        end
    }
}

/// `s` without the white space at its two ends.
pub open spec fn trim(s: Seq<char>) -> Seq<char> {
    let start = run_end(s, 0, CharClass::Space);
    s.subrange(start, trim_end(s, start, s.len() as int))
}

/// The number that a decimal digit stands for.
pub open spec fn digit_value(c: char) -> nat
    recommends
        is_digit(c),
{
    (c as u32 - 48) as nat
}

/// The decimal digit that stands for `d`.
pub open spec fn digit_char(d: nat) -> char
    recommends
        d < 10,
{
    ((d + 48) as u8) as char
}

/// Every character of `s` is a decimal digit.
pub open spec fn all_digits(s: Seq<char>) -> bool {
    forall|i: int| 0 <= i < s.len() ==> is_digit(#[trigger] s[i])
}

/// The number written by the digits of `s`, most significant first.
/// The empty text stands for zero.
pub open spec fn decimal_value(s: Seq<char>) -> nat
    decreases s.len(),
{
    if s.len() == 0 {
        0
    } else {
        decimal_value(s.drop_last()) * 10 + digit_value(s.last())
    }
}

/// The shortest decimal notation of `n`.
pub open spec fn decimal_text(n: nat) -> Seq<char>
    decreases n,
{
    if n < 10 {
        seq![digit_char(n)]
    } else {
        decimal_text(n / 10).push(digit_char(n % 10))
    }
}

/// An unsigned decimal numeral as the standard library reads one: an optional
/// `+`, then one or more digits.
pub open spec fn unsigned_digits(s: Seq<char>) -> Option<Seq<char>> {
    let body = if s.len() > 0 && s[0] == '+' {
        s.skip(1)
    } else {
        s
    };
    if body.len() > 0 && all_digits(body) {
        Some(body)
    } else {
        None
    }
}

/// The value of `s` read as a `u16`, where it is a numeral in range.
pub open spec fn parse_u16(s: Seq<char>) -> Option<u16> {
    match unsigned_digits(s) {
        Some(body) => if decimal_value(body) <= u16::MAX {
            Some(decimal_value(body) as u16)
        } else {
            None
        },
        None => None,
    }
}

/// The value of `s` read as an `i64`: an optional sign, then one or more
/// digits, the whole in range.
pub open spec fn parse_i64(s: Seq<char>) -> Option<i64> {
    let negative = s.len() > 0 && s[0] == '-';
    let body = if s.len() > 0 && (s[0] == '+' || s[0] == '-') {
        s.skip(1)
    } else {
        s
    };
    if body.len() > 0 && all_digits(body) {
        let magnitude = decimal_value(body) as int;
        let value = if negative {
            -magnitude
        } else {
            magnitude
        };
        if i64::MIN <= value && value <= i64::MAX {
            Some(value as i64)
        } else {
            None
        }
    } else {
        None
    }
}

/// A run ends within the text, holds only characters of its class, and is
/// followed by none.
pub proof fn lemma_run_end(s: Seq<char>, from: int, class: CharClass)
    requires
        0 <= from <= s.len(),
    ensures
        from <= run_end(s, from, class) <= s.len(),
        forall|i: int| from <= i < run_end(s, from, class) ==> class.holds(#[trigger] s[i]),
        run_end(s, from, class) < s.len() ==> !class.holds(s[run_end(s, from, class)]),
    decreases s.len() - from,
{
    if from < s.len() && class.holds(s[from]) {
        lemma_run_end(s, from + 1, class);
    }
}

/// A position is the end of the run from `from` if all before it is of the
/// class and it is not.
pub proof fn lemma_run_end_is(s: Seq<char>, from: int, class: CharClass, end: int)
    requires
        0 <= from <= end <= s.len(),
        forall|i: int| from <= i < end ==> class.holds(#[trigger] s[i]),
        end < s.len() ==> !class.holds(s[end]),
    ensures
        run_end(s, from, class) == end,
    decreases end - from,
{
    if from < end {
        lemma_run_end_is(s, from + 1, class, end);
    }
}

/// Taking one more digit multiplies the value by ten and adds the digit.
pub proof fn lemma_decimal_value_push(s: Seq<char>, c: char)
    ensures
        decimal_value(s.push(c)) == decimal_value(s) * 10 + digit_value(c),
{
    assert(s.push(c).drop_last() =~= s);
}

/// A numeral's value does not shrink when digits follow it.
pub proof fn lemma_decimal_value_prefix(s: Seq<char>, k: int)
    requires
        0 <= k <= s.len(),
    ensures
        decimal_value(s.take(k)) <= decimal_value(s),
    decreases s.len() - k,
{
    if k < s.len() {
        assert(s.take(k + 1).drop_last() =~= s.take(k));
        lemma_decimal_value_prefix(s, k + 1);
    } else {
        assert(s.take(k) =~= s);
    }
}

/// The decimal notation of a number round-trips through its value, is made
/// of digits only, and does not begin with a sign.
pub proof fn lemma_decimal_text(n: nat)
    ensures
        decimal_text(n).len() > 0,
        all_digits(decimal_text(n)),
        decimal_value(decimal_text(n)) == n,
    decreases n,
{
    if n < 10 {
        assert(decimal_text(n).drop_last() =~= Seq::<char>::empty());
        assert(decimal_value(decimal_text(n).drop_last()) == 0);
    } else {
        lemma_decimal_text(n / 10);
        lemma_decimal_value_push(decimal_text(n / 10), digit_char(n % 10));
    }
}

/// The decimal notation of a `u16` is read back as that number.
pub proof fn lemma_parse_u16_decimal(n: u16)
    ensures
        parse_u16(decimal_text(n as nat)) == Some(n),
{
    lemma_decimal_text(n as nat);
    assert(is_digit(decimal_text(n as nat)[0]));
}

/// A text that begins and ends with a digit has no white space to trim.
pub proof fn lemma_trim_digits(s: Seq<char>)
    requires
        s.len() > 0,
        all_digits(s),
    ensures
        trim(s) == s,
{
    assert(is_digit(s[0]) && is_digit(s[s.len() - 1]));
    assert(s.subrange(0, s.len() as int) =~= s);
}

/// Whether `c` is a decimal digit.
pub fn char_is_digit(c: char) -> (b: bool)
    ensures
        b == is_digit(c),
{
    '0' <= c && c <= '9'
}

/// Whether `c` is an ASCII letter.
pub fn char_is_letter(c: char) -> (b: bool)
    ensures
        b == is_letter(c),
{
    ('a' <= c && c <= 'z') || ('A' <= c && c <= 'Z')
}

/// Whether `c` is an ASCII letter or a decimal digit.
pub fn char_is_alphanumeric(c: char) -> (b: bool)
    ensures
        b == is_alphanumeric(c),
{
    char_is_letter(c) || char_is_digit(c)
}

/// Whether `c` is white space.
pub fn char_is_space(c: char) -> (b: bool)
    ensures
        b == is_space(c),
{
    let v: u32 = c as u32;
    (0x09 <= v && v <= 0x0d) || v == 0x20 || v == 0x85 || v == 0xa0 || v == 0x1680 || (0x2000
        <= v && v <= 0x200a) || v == 0x2028 || v == 0x2029 || v == 0x202f || v == 0x205f || v
        == 0x3000
}

/// The upper-case form of an ASCII letter.
pub fn char_upper(c: char) -> (r: char)
    ensures
        r == upper(c),
{
    if 'a' <= c && c <= 'z' {
        ((c as u8) - 32) as char
    } else {
        c
    }
}

/// The lower-case form of an ASCII letter.
pub fn char_lower(c: char) -> (r: char)
    ensures
        r == lower(c),
{
    if 'A' <= c && c <= 'Z' {
        ((c as u8) + 32) as char
    } else {
        c
    }
}

/// The characters of `s`, in order.
pub fn chars_of(s: &str) -> (v: Vec<char>)
    ensures
        v@ == s@,
{
    let mut v: Vec<char> = Vec::new();
    for c in it: s.chars()
        invariant
            v@ == it.seq().take(it.index() as int),
            it.seq() == s@,
    {
        v.push(c);
    }
    v
}

/// The string made of `chars[from..to]`.
pub fn string_of(chars: &Vec<char>, from: usize, to: usize) -> (s: String)
    requires
        from <= to <= chars.len(),
    ensures
        s@ == chars@.subrange(from as int, to as int),
{
    let mut s = String::new();
    let mut i: usize = from;
    while i < to
        invariant
            from <= i <= to <= chars.len(),
            s@ == chars@.subrange(from as int, i as int),
        decreases to - i,
    {
        s.push(chars[i]);
        proof {
            assert(chars@.subrange(from as int, i as int).push(chars@[i as int])
                =~= chars@.subrange(from as int, i + 1));
        }
        i += 1;
    }
    s
}

/// The end of the run of `class` in `chars` that starts at `from`.
pub fn scan_run(chars: &Vec<char>, from: usize, class: CharClass) -> (end: usize)
    requires
        from <= chars.len(),
    ensures
        end == run_end(chars@, from as int, class),
        from <= end <= chars.len(),
{
    let mut i: usize = from;
    while i < chars.len() && class.contains(chars[i])
        invariant
            from <= i <= chars.len(),
            forall|k: int| from <= k < i ==> class.holds(#[trigger] chars@[k]),
        decreases chars.len() - i,
    {
        i += 1;
    }
    proof {
        lemma_run_end_is(chars@, from as int, class, i as int);
    }
    i
}

/// The bounds of `chars[from..to]` without the white space at its two ends.
pub fn trim_bounds(chars: &Vec<char>, from: usize, to: usize) -> (bounds: (usize, usize))
    requires
        from <= to <= chars.len(),
    ensures
        from <= bounds.0 <= bounds.1 <= to,
        chars@.subrange(bounds.0 as int, bounds.1 as int) == trim(
            chars@.subrange(from as int, to as int),
        ),
{
    let ghost part = chars@.subrange(from as int, to as int);
    let mut start: usize = from;
    while start < to && char_is_space(chars[start])
        invariant
            from <= start <= to <= chars.len(),
            part == chars@.subrange(from as int, to as int),
            forall|k: int| 0 <= k < start - from ==> CharClass::Space.holds(#[trigger] part[k]),
        decreases to - start,
    {
        assert(part[start - from] == chars@[start as int]);
        start += 1;
    }
    proof {
        if start < to {
            assert(part[start - from] == chars@[start as int]);
        }
        lemma_run_end_is(part, 0, CharClass::Space, start - from);
    }
    let mut end: usize = to;
    while start < end && char_is_space(chars[end - 1])
        invariant
            from <= start <= end <= to <= chars.len(),
            part == chars@.subrange(from as int, to as int),
            trim_end(part, start - from, to - from) == trim_end(part, start - from, end - from),
        decreases end - start,
    {
        assert(part[end - 1 - from] == chars@[end - 1]);
        end -= 1;
    }
    proof {
        if start < end {
            assert(part[end - 1 - from] == chars@[end - 1]);
        }
        assert(trim_end(part, start - from, end - from) == end - from);
        assert(chars@.subrange(start as int, end as int) =~= part.subrange(
            start - from,
            end - from,
        ));
    }
    (start, end)
}

/// The value of `chars[from..to]` read as a run of decimal digits, if it is
/// one and its value is at most `limit`.
pub fn digits_value(chars: &Vec<char>, from: usize, to: usize, limit: u64) -> (r: Option<u64>)
    requires
        from <= to <= chars.len(),
        limit <= 0x8000_0000_0000_0000,
    ensures
        r == ({
            let body = chars@.subrange(from as int, to as int);
            if body.len() > 0 && all_digits(body) && decimal_value(body) <= limit {
                Some(decimal_value(body) as u64)
            } else {
                None::<u64>
            }
        }),
{
    if from == to {
        return None;
    }
    let ghost body = chars@.subrange(from as int, to as int);
    let mut acc: u64 = 0;
    let mut i: usize = from;
    while i < to
        invariant
            from <= i <= to <= chars.len(),
            body == chars@.subrange(from as int, to as int),
            all_digits(body.take(i - from)),
            acc == decimal_value(body.take(i - from)),
            acc <= limit <= 0x8000_0000_0000_0000,
        decreases to - i,
    {
        let c: char = chars[i];
        assert(body[i - from] == c);
        if !char_is_digit(c) {
            return None;
        }
        let d: u64 = (c as u32 - 48) as u64;
        proof {
            assert(body.take(i - from + 1) =~= body.take(i - from).push(c));
            lemma_decimal_value_push(body.take(i - from), c);
            lemma_decimal_value_prefix(body, i - from + 1);
        }
        if limit < d || acc > (limit - d) / 10 {
            return None;
        }
        acc = acc * 10 + d;
        i += 1;
    }
    proof {
        assert(body.take(to - from) =~= body);
    }
    Some(acc)
}

/// The value of `chars[from..to]` read as a `u16`.
pub fn u16_value(chars: &Vec<char>, from: usize, to: usize) -> (r: Option<u16>)
    requires
        from <= to <= chars.len(),
    ensures
        r == parse_u16(chars@.subrange(from as int, to as int)),
{
    let ghost text = chars@.subrange(from as int, to as int);
    let start: usize = if from < to && chars[from] == '+' {
        from + 1
    } else {
        from
    };
    proof {
        assert(from < to ==> text[0] == chars@[from as int]);
        assert(chars@.subrange(start as int, to as int) =~= if start == from + 1 {
            text.skip(1)
        } else {
            text
        });
    }
    match digits_value(chars, start, to, 0xffff) {
        Some(value) => Some(value as u16),
        None => None,
    }
}

/// The value of `chars` read as an `i64`.
pub fn i64_value(chars: &Vec<char>) -> (r: Option<i64>)
    ensures
        r == parse_i64(chars@),
{
    let len: usize = chars.len();
    let negative: bool = len > 0 && chars[0] == '-';
    let start: usize = if len > 0 && (chars[0] == '+' || chars[0] == '-') {
        1
    } else {
        0
    };
    proof {
        assert(chars@.subrange(start as int, len as int) =~= if start == 1 {
            chars@.skip(1)
        } else {
            chars@
        });
    }
    if negative {
        match digits_value(chars, start, len, 0x8000_0000_0000_0000) {
            Some(magnitude) => if magnitude == 0x8000_0000_0000_0000 {
                Some(i64::MIN)
            } else {
                Some(-(magnitude as i64))
            },
            None => None,
        }
    } else {
        match digits_value(chars, start, len, 0x7fff_ffff_ffff_ffff) {
            Some(magnitude) => Some(magnitude as i64),
            None => None,
        }
    }
}

/// Appends the decimal notation of `n` to `out`.
pub fn push_decimal(out: &mut String, n: u32)
    ensures
        final(out)@ == old(out)@ + decimal_text(n as nat),
    decreases n,
{
    if n >= 10 {
        push_decimal(out, n / 10);
    }
    let d: u8 = (n % 10) as u8;
    out.push((d + 48) as char);
    proof {
        if n >= 10 {
            assert(old(out)@ + decimal_text(n as nat) =~= (old(out)@ + decimal_text(
                (n / 10) as nat,
            )).push(digit_char((n % 10) as nat)));
        } else {
            assert(old(out)@ + decimal_text(n as nat) =~= old(out)@.push(digit_char(n as nat)));
        }
    }
}

} // verus!

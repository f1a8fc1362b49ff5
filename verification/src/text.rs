use vstd::prelude::*;
use vstd::string::StringExecFns;

verus! {

broadcast use vstd::string::axiom_spec_iter;

/// Collects the characters of `s` in order.
pub fn chars_of(s: &str) -> (result: Vec<char>)
    ensures
        result@ == s@,
{
    let mut result: Vec<char> = Vec::new();
    for c in it: s.chars()
        invariant
            result@ == it.seq().take(it.index() as int),
            it.seq() == s@,
    {
        result.push(c);
    }
    result
}

/// Appends one character to a string (`String::push`).
#[verifier::external_body]
pub(crate) fn push_char(s: &mut String, c: char)
    ensures
        final(s)@ == old(s)@.push(c),
{
    s.push(c);
}

/// Builds a string holding exactly the given characters.
pub fn string_from_chars(chars: &[char]) -> (result: String)
    ensures
        result@ == chars@,
{
    let mut result = String::new();
    let mut i: usize = 0;
    while i < chars.len()
        invariant
            i <= chars@.len(),
            result@ == chars@.take(i as int),
        decreases chars@.len() - i,
    {
        push_char(&mut result, chars[i]);
        i = i + 1;
        assert(result@ =~= chars@.take(i as int));
    }
    assert(chars@.take(chars@.len() as int) =~= chars@);
    result
}

/// Builds a string holding the characters `chars[start..end]`.
pub fn string_from_range(chars: &[char], start: usize, end: usize) -> (result: String)
    requires
        start <= end <= chars@.len(),
    ensures
        result@ == chars@.subrange(start as int, end as int),
{
    let mut result = String::new();
    let mut i: usize = start;
    while i < end
        invariant
            start <= i <= end <= chars@.len(),
            result@ == chars@.subrange(start as int, i as int),
        decreases end - i,
    {
        push_char(&mut result, chars[i]);
        i = i + 1;
        assert(result@ =~= chars@.subrange(start as int, i as int));
    }
    result
}

/// ASCII decimal digit.
pub open spec fn is_digit(c: char) -> bool {
    '0' <= c && c <= '9'
}

/// ASCII letter.
pub open spec fn is_ascii_letter(c: char) -> bool {
    ('a' <= c && c <= 'z') || ('A' <= c && c <= 'Z')
}

/// ASCII letter or digit.
pub open spec fn is_ascii_alnum(c: char) -> bool {
    is_digit(c) || is_ascii_letter(c)
}

/// The Unicode `White_Space` property, as `char::is_whitespace` reports it.
pub open spec fn is_unicode_whitespace(c: char) -> bool {
    ||| ('\u{9}' <= c && c <= '\u{d}')
    ||| c == ' '
    ||| c == '\u{85}'
    ||| c == '\u{a0}'
    ||| c == '\u{1680}'
    ||| ('\u{2000}' <= c && c <= '\u{200a}')
    ||| c == '\u{2028}'
    ||| c == '\u{2029}'
    ||| c == '\u{202f}'
    ||| c == '\u{205f}'
    ||| c == '\u{3000}'
}

/// The Unicode general category `Cc`, as `char::is_control` reports it.
pub open spec fn is_unicode_control(c: char) -> bool {
    c <= '\u{1f}' || ('\u{7f}' <= c && c <= '\u{9f}')
}

pub fn digit_char(c: char) -> (b: bool)
    ensures
        b == is_digit(c),
{
    '0' <= c && c <= '9'
}

pub fn ascii_alnum_char(c: char) -> (b: bool)
    ensures
        b == is_ascii_alnum(c),
{
    ('0' <= c && c <= '9') || ('a' <= c && c <= 'z') || ('A' <= c && c <= 'Z')
}

pub fn whitespace_char(c: char) -> (b: bool)
    ensures
        b == is_unicode_whitespace(c),
{
    ('\u{9}' <= c && c <= '\u{d}') || c == ' ' || c == '\u{85}' || c == '\u{a0}'
        || c == '\u{1680}' || ('\u{2000}' <= c && c <= '\u{200a}') || c == '\u{2028}'
        || c == '\u{2029}' || c == '\u{202f}' || c == '\u{205f}' || c == '\u{3000}'
}

pub fn control_char(c: char) -> (b: bool)
    ensures
        b == is_unicode_control(c),
{
    c <= '\u{1f}' || ('\u{7f}' <= c && c <= '\u{9f}')
}

/// What `char::is_alphanumeric` reports: the Unicode `Alphabetic` or `Numeric` property.
pub uninterp spec fn unicode_alphanumeric(c: char) -> bool;

/// Calls `char::is_alphanumeric`. The contract names its result `unicode_alphanumeric(c)`,
/// and adds what its documentation gives for ASCII: the ASCII letters and digits are
/// alphanumeric and no other ASCII character is.
#[verifier::external_body]
pub fn alphanumeric_char(c: char) -> (b: bool)
    ensures
        b == unicode_alphanumeric(c),
        c <= '\u{7f}' ==> (b <==> is_ascii_alnum(c)),
{
    c.is_alphanumeric()
}

} // verus!

verus! {

/// Numeric value of an ASCII digit.
pub open spec fn digit_value(c: char) -> nat {
    (c as int - '0' as int) as nat
}

/// Decimal value of a sequence of ASCII digits.
pub open spec fn decimal_value(s: Seq<char>) -> nat
    decreases s.len(),
{
    if s.len() == 0 {
        0
    } else {
        decimal_value(s.drop_last()) * 10 + digit_value(s.last())
    }
}

pub open spec fn all_digits(s: Seq<char>) -> bool {
    forall|i: int| 0 <= i < s.len() ==> #[trigger] is_digit(s[i])
}

/// Appending digits never lowers a decimal value.
pub proof fn lemma_decimal_value_grows(s: Seq<char>, i: int, j: int)
    requires
        0 <= i <= j <= s.len(),
        all_digits(s),
    ensures
        decimal_value(s.subrange(0, i)) <= decimal_value(s.subrange(0, j)),
    decreases j - i,
{
    if i < j {
        lemma_decimal_value_grows(s, i, j - 1);
        assert(s.subrange(0, j).drop_last() =~= s.subrange(0, j - 1));
    }
}

/// The character of a decimal digit value.
pub open spec fn digit_to_char(d: nat) -> char {
    if d == 0 {
        '0'
    } else if d == 1 {
        '1'
    } else if d == 2 {
        '2'
    } else if d == 3 {
        '3'
    } else if d == 4 {
        '4'
    } else if d == 5 {
        '5'
    } else if d == 6 {
        '6'
    } else if d == 7 {
        '7'
    } else if d == 8 {
        '8'
    } else {
        '9'
    }
}

/// The decimal representation of `n`, without leading zeros (what `u64::to_string` gives).
pub open spec fn decimal_string(n: nat) -> Seq<char>
    decreases n,
{
    if n < 10 {
        seq![digit_to_char(n)]
    } else {
        decimal_string(n / 10).push(digit_to_char(n % 10))
    }
}

pub fn digit_to_char_exec(d: u64) -> (c: char)
    requires
        d < 10,
    ensures
        c == digit_to_char(d as nat),
{
    if d == 0 {
        '0'
    } else if d == 1 {
        '1'
    } else if d == 2 {
        '2'
    } else if d == 3 {
        '3'
    } else if d == 4 {
        '4'
    } else if d == 5 {
        '5'
    } else if d == 6 {
        '6'
    } else if d == 7 {
        '7'
    } else if d == 8 {
        '8'
    } else {
        '9'
    }
}

/// The decimal digits of `n`.
pub fn decimal_chars(n: u64) -> (result: Vec<char>)
    ensures
        result@ == decimal_string(n as nat),
    decreases n,
{
    if n < 10 {
        let mut v: Vec<char> = Vec::new();
        v.push(digit_to_char_exec(n));
        v
    } else {
        let mut v = decimal_chars(n / 10);
        v.push(digit_to_char_exec(n % 10));
        v
    }
}

/// Whether two character sequences are equal.
pub fn chars_equal(a: &[char], b: &[char]) -> (result: bool)
    ensures
        result == (a@ == b@),
{
    if a.len() != b.len() {
        return false;
    }
    let mut i: usize = 0;
    while i < a.len()
        invariant
            a@.len() == b@.len(),
            i <= a@.len(),
            forall|k: int| 0 <= k < i ==> a@[k] == b@[k],
        decreases a@.len() - i,
    {
        if a[i] != b[i] {
            return false;
        }
        i = i + 1;
    }
    assert(a@ =~= b@);
    true
}

/// Whether two string slices hold the same characters.
pub fn same_text(a: &str, b: &str) -> (result: bool)
    ensures
        result == (a@ == b@),
{
    let x = chars_of(a);
    let y = chars_of(b);
    chars_equal(&x, &y)
}

/// Copies `chars[start..end]` into a new vector.
pub fn copy_range(chars: &[char], start: usize, end: usize) -> (result: Vec<char>)
    requires
        start <= end <= chars@.len(),
    ensures
        result@ == chars@.subrange(start as int, end as int),
{
    let mut result: Vec<char> = Vec::new();
    let mut i: usize = start;
    while i < end
        invariant
            start <= i <= end <= chars@.len(),
            result@ == chars@.subrange(start as int, i as int),
        decreases end - i,
    {
        result.push(chars[i]);
        i = i + 1;
        assert(result@ =~= chars@.subrange(start as int, i as int));
    }
    result
}

} // verus!

verus! {

/// What the standard library's `FromStr` for an unsigned integer type with maximum `max`
/// accepts: an optional `+`, then one or more ASCII digits whose value is at most `max`.
pub open spec fn spec_parse_unsigned(s: Seq<char>, max: nat) -> Option<nat> {
    let digits = if s.len() > 0 && s[0] == '+' {
        s.drop_first()
    } else {
        s
    };
    if digits.len() > 0 && all_digits(digits) && decimal_value(digits) <= max {
        Some(decimal_value(digits))
    } else {
        None
    }
}

/// Reads an unsigned decimal number no larger than `max` (`str::parse` for unsigned types).
pub fn parse_unsigned(s: &[char], max: u64) -> (value: Option<u64>)
    ensures
        match value {
            Some(v) => spec_parse_unsigned(s@, max as nat) == Some(v as nat),
            None => spec_parse_unsigned(s@, max as nat) is None,
        },
{
    let start: usize = if s.len() > 0 && s[0] == '+' {
        1
    } else {
        0
    };
    let ghost digits = s@.subrange(start as int, s@.len() as int);
    assert(digits =~= (if s@.len() > 0 && s@[0] == '+' {
        s@.drop_first()
    } else {
        s@
    }));
    if start >= s.len() {
        return None;
    }
    let mut value: u64 = 0;
    let mut i = start;
    while i < s.len()
        invariant
            start <= i <= s@.len(),
            digits == s@.subrange(start as int, s@.len() as int),
            digits == (if s@.len() > 0 && s@[0] == '+' {
                s@.drop_first()
            } else {
                s@
            }),
            forall|k: int| start <= k < i ==> is_digit(#[trigger] s@[k]),
            value == decimal_value(digits.subrange(0, i - start)),
            value <= max,
        decreases s@.len() - i,
    {
        assert(digits[i - start] == s@[i as int]);
        if !digit_char(s[i]) {
            assert(!is_digit(digits[i - start]));
            return None;
        }
        let d = (s[i] as u32 - '0' as u32) as u64;
        assert(d == digit_value(digits[i - start]));
        assert(digits.subrange(0, i + 1 - start).drop_last() =~= digits.subrange(0, i - start));
        if (value as u128) * 10 + (d as u128) > max as u128 {
            proof {
                if all_digits(digits) {
                    lemma_decimal_value_grows(digits, i + 1 - start, digits.len() as int);
                    assert(digits.subrange(0, digits.len() as int) =~= digits);
                }
            }
            return None;
        }
        value = value * 10 + d;
        i = i + 1;
    }
    assert(digits.subrange(0, s@.len() - start) =~= digits);
    assert(all_digits(digits)) by {
        assert forall|k: int| 0 <= k < digits.len() implies #[trigger] is_digit(digits[k]) by {
            assert(digits[k] == s@[start + k]);
        }
    }
    Some(value)
}

/// The characters of the unsigned decimal number `n`.
pub fn decimal_string_of(n: u64) -> (text: String)
    ensures
        text@ == decimal_string(n as nat),
{
    let digits = decimal_chars(n);
    string_from_chars(&digits)
}

} // verus!

verus! {

/// Appends a string slice to a string.
pub(crate) fn push_str(s: &mut String, t: &str)
    ensures
        final(s)@ == old(s)@ + t@,
{
    s.append(t);
}

/// Fields joined by tab characters.
pub open spec fn join_tab(fields: Seq<Seq<char>>) -> Seq<char>
    decreases fields.len(),
{
    if fields.len() == 0 {
        Seq::empty()
    } else if fields.len() == 1 {
        fields[0]
    } else {
        join_tab(fields.drop_last()) + seq!['\t'] + fields.last()
    }
}

/// Appends one more tab-separated field to a line.
pub(crate) fn append_field(
    line: &mut String,
    field: &str,
    first: bool,
    Ghost(fields): Ghost<Seq<Seq<char>>>,
)
    requires
        old(line)@ == join_tab(fields),
        first == (fields.len() == 0),
    ensures
        final(line)@ == join_tab(fields.push(field@)),
{
    assert(fields.push(field@).drop_last() =~= fields);
    if first {
        assert(old(line)@ =~= Seq::<char>::empty());
        push_str(line, field);
        assert(line@ =~= field@);
    } else {
        push_char(line, '\t');
        push_str(line, field);
    }
}

} // verus!

verus! {

/// The ranges of the pieces of `t` separated by `sep`, for the piece that began at `start`
/// while scanning position `i`.
pub open spec fn split_ranges_from(t: Seq<char>, sep: char, start: int, i: int) -> Seq<(int, int)>
    decreases t.len() - i,
{
    if i >= t.len() {
        seq![(start, t.len() as int)]
    } else if t[i] == sep {
        seq![(start, i)] + split_ranges_from(t, sep, i + 1, i + 1)
    } else {
        split_ranges_from(t, sep, start, i + 1)
    }
}

/// The ranges of the pieces of `t` separated by `sep` (what `str::split` yields).
pub open spec fn split_ranges(t: Seq<char>, sep: char) -> Seq<(int, int)> {
    split_ranges_from(t, sep, 0, 0)
}

/// The pieces of `t` separated by `sep`, empty pieces included.
pub open spec fn split_text(t: Seq<char>, sep: char) -> Seq<Seq<char>> {
    split_ranges(t, sep).map_values(|r: (int, int)| t.subrange(r.0, r.1))
}

pub proof fn lemma_split_ranges_from(t: Seq<char>, sep: char, start: int, i: int)
    requires
        0 <= start <= i <= t.len(),
    ensures
        split_ranges_from(t, sep, start, i).len() >= 1,
        forall|k: int|
            0 <= k < split_ranges_from(t, sep, start, i).len() ==> {
                let r = #[trigger] split_ranges_from(t, sep, start, i)[k];
                start <= r.0 <= r.1 <= t.len()
            },
    decreases t.len() - i,
{
    if i < t.len() {
        if t[i] == sep {
            lemma_split_ranges_from(t, sep, i + 1, i + 1);
        } else {
            lemma_split_ranges_from(t, sep, start, i + 1);
        }
    }
}

/// Splits `t` on `sep` into ranges.
pub fn split_ranges_exec(t: &[char], sep: char) -> (ranges: Vec<(usize, usize)>)
    ensures
        ranges@.len() == split_ranges(t@, sep).len(),
        ranges@.len() >= 1,
        forall|k: int|
            0 <= k < ranges@.len() ==> (#[trigger] ranges@[k]).0 as int == split_ranges(t@, sep)[k].0
                && ranges@[k].1 as int == split_ranges(t@, sep)[k].1,
        forall|k: int|
            0 <= k < ranges@.len() ==> (#[trigger] ranges@[k]).0 <= ranges@[k].1 <= t@.len(),
        forall|k: int|
            0 <= k < ranges@.len() ==> t@.subrange(
                (#[trigger] ranges@[k]).0 as int,
                ranges@[k].1 as int,
            ) == split_text(t@, sep)[k],
{
    let mut ranges: Vec<(usize, usize)> = Vec::new();
    let mut start: usize = 0;
    let mut i: usize = 0;
    let ghost whole = split_ranges(t@, sep);
    proof {
        lemma_split_ranges_from(t@, sep, 0, 0);
    }
    while i < t.len()
        invariant
            start <= i <= t@.len(),
            whole == split_ranges(t@, sep),
            whole == ranges@.map_values(|r: (usize, usize)| (r.0 as int, r.1 as int))
                + split_ranges_from(t@, sep, start as int, i as int),
        decreases t@.len() - i,
    {
        if t[i] == sep {
            let ghost before = ranges@;
            ranges.push((start, i));
            assert(ranges@.map_values(|r: (usize, usize)| (r.0 as int, r.1 as int)) =~= before.map_values(
                |r: (usize, usize)| (r.0 as int, r.1 as int),
            ).push((start as int, i as int)));
            start = i + 1;
        }
        i = i + 1;
    }
    let ghost before = ranges@;
    ranges.push((start, t.len()));
    assert(ranges@.map_values(|r: (usize, usize)| (r.0 as int, r.1 as int)) =~= before.map_values(
        |r: (usize, usize)| (r.0 as int, r.1 as int),
    ).push((start as int, t@.len() as int)));
    assert(ranges@.map_values(|r: (usize, usize)| (r.0 as int, r.1 as int)) =~= whole);
    assert forall|k: int| 0 <= k < ranges@.len() implies (#[trigger] ranges@[k]).0 as int
        == whole[k].0 && ranges@[k].1 as int == whole[k].1 by {
        assert(ranges@.map_values(|r: (usize, usize)| (r.0 as int, r.1 as int))[k] == whole[k]);
    }
    assert forall|k: int| 0 <= k < ranges@.len() implies t@.subrange(
        (#[trigger] ranges@[k]).0 as int,
        ranges@[k].1 as int,
    ) == split_text(t@, sep)[k] by {
        assert(ranges@.map_values(|r: (usize, usize)| (r.0 as int, r.1 as int))[k] == whole[k]);
    }
    ranges
}


/// Ranges of `b`, moved `off` places to the right.
pub open spec fn shift_ranges(ranges: Seq<(int, int)>, off: int) -> Seq<(int, int)> {
    ranges.map_values(|r: (int, int)| (r.0 + off, r.1 + off))
}

proof fn lemma_split_ranges_shift(t: Seq<char>, b: Seq<char>, sep: char, off: int, s: int, i: int)
    requires
        0 <= off <= t.len(),
        t.subrange(off, t.len() as int) == b,
        0 <= s <= i <= b.len(),
    ensures
        split_ranges_from(t, sep, off + s, off + i) == shift_ranges(
            split_ranges_from(b, sep, s, i),
            off,
        ),
    decreases b.len() - i,
{
    if i >= b.len() {
        assert(shift_ranges(split_ranges_from(b, sep, s, i), off) =~= seq![(off + s, t.len() as int)]);
    } else {
        assert(t[off + i] == b[i]);
        if b[i] == sep {
            lemma_split_ranges_shift(t, b, sep, off, i + 1, i + 1);
            assert(shift_ranges(split_ranges_from(b, sep, s, i), off) =~= seq![(off + s, off + i)]
                + shift_ranges(split_ranges_from(b, sep, i + 1, i + 1), off));
        } else {
            lemma_split_ranges_shift(t, b, sep, off, s, i + 1);
        }
    }
}

proof fn lemma_split_ranges_prefix(a: Seq<char>, b: Seq<char>, sep: char, s: int, i: int)
    requires
        0 <= s <= i <= a.len(),
    ensures
        split_ranges_from(a + seq![sep] + b, sep, s, i) == split_ranges_from(a, sep, s, i)
            + split_ranges_from(a + seq![sep] + b, sep, a.len() + 1int, a.len() + 1int),
    decreases a.len() - i,
{
    let t = a + seq![sep] + b;
    if i >= a.len() {
        assert(t[i] == sep);
    } else {
        assert(t[i] == a[i]);
        if a[i] == sep {
            lemma_split_ranges_prefix(a, b, sep, i + 1, i + 1);
        } else {
            lemma_split_ranges_prefix(a, b, sep, s, i + 1);
        }
    }
}

/// Splitting `a`, a separator and `b` gives the pieces of `a` and then those of `b`.
pub proof fn lemma_split_concat(a: Seq<char>, b: Seq<char>, sep: char)
    ensures
        split_text(a + seq![sep] + b, sep) == split_text(a, sep) + split_text(b, sep),
{
    let t = a + seq![sep] + b;
    let off = a.len() + 1;
    lemma_split_ranges_prefix(a, b, sep, 0, 0);
    assert(t.subrange(off as int, t.len() as int) =~= b);
    lemma_split_ranges_shift(t, b, sep, off as int, 0, 0);
    lemma_split_ranges_from(a, sep, 0, 0);
    lemma_split_ranges_from(b, sep, 0, 0);
    let ra = split_ranges(a, sep);
    let rb = split_ranges(b, sep);
    assert(split_ranges(t, sep) == ra + shift_ranges(rb, off as int));
    assert forall|k: int| 0 <= k < ra.len() implies t.subrange(ra[k].0, ra[k].1) == a.subrange(
        ra[k].0,
        ra[k].1,
    ) by {
        assert(t.subrange(ra[k].0, ra[k].1) =~= a.subrange(ra[k].0, ra[k].1));
    }
    assert forall|k: int| 0 <= k < rb.len() implies t.subrange(rb[k].0 + off, rb[k].1 + off)
        == b.subrange(rb[k].0, rb[k].1) by {
        assert(t.subrange(rb[k].0 + off, rb[k].1 + off) =~= b.subrange(rb[k].0, rb[k].1));
    }
    assert(split_text(t, sep) =~= split_text(a, sep) + split_text(b, sep));
}

/// A text without the separator is a single piece.
pub proof fn lemma_split_single(a: Seq<char>, sep: char)
    requires
        forall|i: int| 0 <= i < a.len() ==> a[i] != sep,
    ensures
        split_text(a, sep) == seq![a],
{
    lemma_split_no_sep(a, sep, 0, 0);
    assert(a.subrange(0, a.len() as int) =~= a);
    assert(split_text(a, sep) =~= seq![a]);
}

proof fn lemma_split_no_sep(a: Seq<char>, sep: char, s: int, i: int)
    requires
        forall|k: int| 0 <= k < a.len() ==> a[k] != sep,
        0 <= s <= i <= a.len(),
    ensures
        split_ranges_from(a, sep, s, i) == seq![(s, a.len() as int)],
    decreases a.len() - i,
{
    if i < a.len() {
        lemma_split_no_sep(a, sep, s, i + 1);
    }
}

/// Splitting fields joined by tabs gives the fields back, when none holds a tab.
pub proof fn lemma_split_join_tab(fields: Seq<Seq<char>>)
    requires
        fields.len() > 0,
        forall|k: int, i: int|
            0 <= k < fields.len() && 0 <= i < fields[k].len() ==> #[trigger] fields[k][i] != '\t',
    ensures
        split_text(join_tab(fields), '\t') == fields,
    decreases fields.len(),
{
    if fields.len() == 1 {
        lemma_split_single(fields[0], '\t');
        assert(seq![fields[0]] =~= fields);
    } else {
        let rest = fields.drop_last();
        assert forall|k: int, i: int| 0 <= k < rest.len() && 0 <= i < rest[k].len() implies #[trigger] rest[k][i]
            != '\t' by {
            assert(rest[k] == fields[k]);
        }
        lemma_split_join_tab(rest);
        lemma_split_concat(join_tab(rest), fields.last(), '\t');
        assert forall|i: int| 0 <= i < fields.last().len() implies fields.last()[i] != '\t' by {
            assert(fields.last() == fields[fields.len() - 1]);
        }
        lemma_split_single(fields.last(), '\t');
        assert(rest + seq![fields.last()] =~= fields);
    }
}

proof fn lemma_digit_to_char(d: nat)
    requires
        d < 10,
    ensures
        is_digit(digit_to_char(d)),
        digit_value(digit_to_char(d)) == d,
{
}

/// The decimal digits of a number are digits, and read back to the number.
pub proof fn lemma_decimal_string(n: nat)
    ensures
        decimal_string(n).len() > 0,
        all_digits(decimal_string(n)),
        decimal_value(decimal_string(n)) == n,
    decreases n,
{
    lemma_digit_to_char(n % 10);
    if n < 10 {
        assert(n % 10 == n);
        assert(decimal_string(n).drop_last() =~= Seq::<char>::empty());
        assert(decimal_value(decimal_string(n)) == decimal_value(Seq::<char>::empty()) * 10
            + digit_value(digit_to_char(n)));
    } else {
        lemma_decimal_string(n / 10);
        let s = decimal_string(n);
        assert(s.drop_last() =~= decimal_string(n / 10));
        assert(n == (n / 10) * 10 + n % 10);
        assert(s.last() == digit_to_char(n % 10));
        assert(decimal_value(s) == decimal_value(decimal_string(n / 10)) * 10 + digit_value(
            digit_to_char(n % 10),
        ));
        assert forall|i: int| 0 <= i < s.len() implies #[trigger] is_digit(s[i]) by {
            if i < s.len() - 1 {
                assert(s[i] == decimal_string(n / 10)[i]);
            }
        }
    }
}

/// Reading the decimal digits of a number gives the number, when it is no larger than `max`.
pub proof fn lemma_parse_decimal_string(n: nat, max: nat)
    requires
        n <= max,
    ensures
        spec_parse_unsigned(decimal_string(n), max) == Some(n),
{
    lemma_decimal_string(n);
    assert(is_digit(decimal_string(n)[0]));
}


/// Whether `a` comes strictly before `b` when texts are compared character by character by
/// code point, a proper prefix first.
pub open spec fn text_less(a: Seq<char>, b: Seq<char>) -> bool
    decreases a.len(),
{
    if b.len() == 0 {
        false
    } else if a.len() == 0 {
        true
    } else if a[0] != b[0] {
        a[0] < b[0]
    } else {
        text_less(a.drop_first(), b.drop_first())
    }
}

/// The text order is a strict total order.
pub proof fn lemma_text_less_order(a: Seq<char>, b: Seq<char>, c: Seq<char>)
    ensures
        !text_less(a, a),
        text_less(a, b) ==> !text_less(b, a),
        text_less(a, b) && text_less(b, c) ==> text_less(a, c),
        a != b ==> text_less(a, b) || text_less(b, a),
    decreases a.len(),
{
    if a.len() > 0 && b.len() > 0 && c.len() > 0 {
        lemma_text_less_order(a.drop_first(), b.drop_first(), c.drop_first());
    }
    if a.len() > 0 && b.len() > 0 {
        lemma_text_less_order(a.drop_first(), b.drop_first(), b.drop_first());
        if a != b && a[0] == b[0] {
            assert(a.drop_first() != b.drop_first()) by {
                if a.drop_first() == b.drop_first() {
                    assert(a =~= seq![a[0]] + a.drop_first());
                    assert(b =~= seq![b[0]] + b.drop_first());
                }
            }
        }
    }
    if a.len() > 0 {
        lemma_text_less_order(a.drop_first(), a.drop_first(), a.drop_first());
    }
    if a.len() == 0 && b.len() == 0 {
        assert(a =~= b);
    }
}

/// Whether `a` comes strictly before `b` in the text order.
pub fn text_less_chars(a: &[char], b: &[char]) -> (result: bool)
    ensures
        result == text_less(a@, b@),
{
    let mut i: usize = 0;
    assert(a@.skip(0) =~= a@);
    assert(b@.skip(0) =~= b@);
    while i < a.len() && i < b.len() && a[i] == b[i]
        invariant
            i <= a@.len(),
            i <= b@.len(),
            text_less(a@, b@) == text_less(a@.skip(i as int), b@.skip(i as int)),
        decreases a@.len() - i,
    {
        assert(a@.skip(i as int).drop_first() =~= a@.skip(i + 1));
        assert(b@.skip(i as int).drop_first() =~= b@.skip(i + 1));
        i = i + 1;
    }
    if i == b.len() {
        false
    } else if i == a.len() {
        true
    } else {
        assert(a@.skip(i as int)[0] == a@[i as int]);
        assert(b@.skip(i as int)[0] == b@[i as int]);
        a[i] < b[i]
    }
}


/// The first position at or after `i` that is not whitespace.
pub open spec fn skip_space_from(t: Seq<char>, i: int) -> int
    decreases t.len() - i,
{
    if 0 <= i < t.len() && is_unicode_whitespace(t[i]) {
        skip_space_from(t, i + 1)
    } else {
        i
    }
}

/// The end of `t[lo..j]` once whitespace is dropped from its end.
pub open spec fn drop_space_back(t: Seq<char>, lo: int, j: int) -> int
    decreases j - lo,
{
    if j > lo && is_unicode_whitespace(t[j - 1]) {
        drop_space_back(t, lo, j - 1)
    } else {
        j
    }
}

/// `t` without whitespace at either end (`str::trim`).
pub open spec fn trim_space(t: Seq<char>) -> Seq<char> {
    let a = skip_space_from(t, 0);
    t.subrange(a, drop_space_back(t, a, t.len() as int))
}

/// `t` without whitespace at either end.
pub fn trim_space_exec(t: &[char]) -> (result: Vec<char>)
    ensures
        result@ == trim_space(t@),
{
    let mut a: usize = 0;
    while a < t.len() && whitespace_char(t[a])
        invariant
            a <= t@.len(),
            skip_space_from(t@, a as int) == skip_space_from(t@, 0),
        decreases t@.len() - a,
    {
        a = a + 1;
    }
    let mut b: usize = t.len();
    while b > a && whitespace_char(t[b - 1])
        invariant
            a <= b <= t@.len(),
            skip_space_from(t@, 0) == a,
            drop_space_back(t@, a as int, b as int) == drop_space_back(t@, a as int, t@.len() as int),
        decreases b,
    {
        b = b - 1;
    }
    copy_range(t, a, b)
}

/// The ranges of the whitespace-separated words of `t`, for the word that may have begun at
/// `start` while scanning position `i`.
pub open spec fn word_ranges_from(t: Seq<char>, start: int, i: int) -> Seq<(int, int)>
    decreases t.len() - i,
{
    if i >= t.len() {
        if start < t.len() {
            seq![(start, t.len() as int)]
        } else {
            Seq::empty()
        }
    } else if is_unicode_whitespace(t[i]) {
        (if start < i {
            seq![(start, i)]
        } else {
            Seq::empty()
        }) + word_ranges_from(t, i + 1, i + 1)
    } else {
        word_ranges_from(t, start, i + 1)
    }
}

/// The whitespace-separated words of `t` (`str::split_whitespace`).
pub open spec fn words(t: Seq<char>) -> Seq<Seq<char>> {
    word_ranges_from(t, 0, 0).map_values(|r: (int, int)| t.subrange(r.0, r.1))
}

proof fn lemma_word_ranges_from(t: Seq<char>, start: int, i: int)
    requires
        0 <= start <= i <= t.len(),
    ensures
        forall|k: int|
            0 <= k < word_ranges_from(t, start, i).len() ==> {
                let r = #[trigger] word_ranges_from(t, start, i)[k];
                start <= r.0 <= r.1 <= t.len()
            },
    decreases t.len() - i,
{
    if i < t.len() {
        if is_unicode_whitespace(t[i]) {
            lemma_word_ranges_from(t, i + 1, i + 1);
            let rest = word_ranges_from(t, i + 1, i + 1);
            let head: Seq<(int, int)> = if start < i {
                seq![(start, i)]
            } else {
                Seq::empty()
            };
            assert(word_ranges_from(t, start, i) == head + rest);
            assert forall|k: int| 0 <= k < (head + rest).len() implies {
                let r = #[trigger] (head + rest)[k];
                start <= r.0 <= r.1 <= t.len()
            } by {
                if k >= head.len() {
                    assert((head + rest)[k] == rest[k - head.len()]);
                }
            }
        } else {
            lemma_word_ranges_from(t, start, i + 1);
            assert(word_ranges_from(t, start, i) == word_ranges_from(t, start, i + 1));
        }
    } else {
        if start < t.len() {
            assert(word_ranges_from(t, start, i) == seq![(start, t.len() as int)]);
        } else {
            assert(word_ranges_from(t, start, i).len() == 0);
        }
    }
}

/// The whitespace-separated words of `t`, as ranges.
pub fn word_ranges(t: &[char]) -> (ranges: Vec<(usize, usize)>)
    ensures
        ranges@.len() == words(t@).len(),
        forall|k: int|
            0 <= k < ranges@.len() ==> (#[trigger] ranges@[k]).0 <= ranges@[k].1 <= t@.len()
                && t@.subrange(ranges@[k].0 as int, ranges@[k].1 as int) == words(t@)[k],
{
    let mut ranges: Vec<(usize, usize)> = Vec::new();
    let mut start: usize = 0;
    let mut i: usize = 0;
    let ghost whole = word_ranges_from(t@, 0, 0);
    proof {
        lemma_word_ranges_from(t@, 0, 0);
    }
    while i < t.len()
        invariant
            start <= i <= t@.len(),
            whole == word_ranges_from(t@, 0, 0),
            whole == ranges@.map_values(|r: (usize, usize)| (r.0 as int, r.1 as int))
                + word_ranges_from(t@, start as int, i as int),
        decreases t@.len() - i,
    {
        if whitespace_char(t[i]) {
            if start < i {
                let ghost before = ranges@;
                ranges.push((start, i));
                assert(ranges@.map_values(|r: (usize, usize)| (r.0 as int, r.1 as int)) =~= before.map_values(
                    |r: (usize, usize)| (r.0 as int, r.1 as int),
                ).push((start as int, i as int)));
            } else {
                assert(word_ranges_from(t@, start as int, i as int) =~= word_ranges_from(
                    t@,
                    i + 1,
                    i + 1,
                ));
            }
            start = i + 1;
        }
        i = i + 1;
    }
    if start < t.len() {
        let ghost before = ranges@;
        ranges.push((start, t.len()));
        assert(ranges@.map_values(|r: (usize, usize)| (r.0 as int, r.1 as int)) =~= before.map_values(
            |r: (usize, usize)| (r.0 as int, r.1 as int),
        ).push((start as int, t@.len() as int)));
    }
    assert(ranges@.map_values(|r: (usize, usize)| (r.0 as int, r.1 as int)) =~= whole);
    assert forall|k: int| 0 <= k < ranges@.len() implies (#[trigger] ranges@[k]).0 <= ranges@[k].1
        <= t@.len() && t@.subrange(ranges@[k].0 as int, ranges@[k].1 as int) == words(t@)[k] by {
        assert(ranges@.map_values(|r: (usize, usize)| (r.0 as int, r.1 as int))[k] == whole[k]);
    }
    ranges
}

} // verus!

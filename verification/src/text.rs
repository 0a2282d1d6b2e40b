//! Numbers as text: decimal and hexadecimal digits, and splitting at a separator.

use vstd::prelude::*;

verus! {

/// The value of the digit `c` in `radix` (at most sixteen); either letter case counts.
pub open spec fn digit_value(c: char, radix: int) -> Option<int> {
    let v: int = if '0' <= c && c <= '9' {
        c as int - '0' as int
    } else if 'a' <= c && c <= 'f' {
        c as int - 'a' as int + 10
    } else if 'A' <= c && c <= 'F' {
        c as int - 'A' as int + 10
    } else {
        radix
    };
    if v < radix {
        Some(v)
    } else {
        None
    }
}

/// The number that a run of digits denotes; `None` where a character is no digit.
pub open spec fn digits_value(s: Seq<char>, radix: int) -> Option<int>
    decreases s.len(),
{
    if s.len() == 0 {
        Some(0)
    } else {
        match (digits_value(s.drop_last(), radix), digit_value(s.last(), radix)) {
            (Some(n), Some(d)) => Some(n * radix + d),
            _ => None,
        }
    }
}

/// A number text: one digit or more, with a value of at most `max`. Leading zeros are accepted.
pub open spec fn number(s: Seq<char>, radix: int, max: int) -> Option<int> {
    match digits_value(s, radix) {
        Some(n) => if s.len() > 0 && n <= max {
            Some(n)
        } else {
            None
        },
        None => None,
    }
}

/// The decimal digit for `d`.
pub open spec fn digit_char(d: int) -> char {
    ('0' as int + d) as char
}

/// `n` in decimal, without leading zeros.
pub open spec fn decimal(n: nat) -> Seq<char>
    decreases n,
{
    if n < 10 {
        seq![digit_char(n as int)]
    } else {
        decimal(n / 10).push(digit_char((n % 10) as int))
    }
}

/// The lower-case hexadecimal digit for `d`.
pub open spec fn hex_char(d: int) -> char {
    if d < 10 {
        ('0' as int + d) as char
    } else {
        ('a' as int + d - 10) as char
    }
}

/// `n` in lower-case hexadecimal, without leading zeros.
pub open spec fn hex(n: nat) -> Seq<char>
    decreases n,
{
    if n < 16 {
        seq![hex_char(n as int)]
    } else {
        hex(n / 16).push(hex_char((n % 16) as int))
    }
}

/// The parts of `s` between the occurrences of `sep`: always one more than there are separators.
pub open spec fn split(s: Seq<char>, sep: char) -> Seq<Seq<char>>
    decreases s.len(),
{
    if s.len() == 0 {
        seq![Seq::<char>::empty()]
    } else {
        let rest = split(s.drop_last(), sep);
        if s.last() == sep {
            rest.push(Seq::<char>::empty())
        } else {
            rest.drop_last().push(rest.last().push(s.last()))
        }
    }
}

/// The parts with `sep` between each two of them.
pub open spec fn join(parts: Seq<Seq<char>>, sep: char) -> Seq<char>
    decreases parts.len(),
{
    if parts.len() == 0 {
        Seq::empty()
    } else if parts.len() == 1 {
        parts[0]
    } else {
        join(parts.drop_last(), sep).push(sep) + parts.last()
    }
}

/// Splitting loses nothing: joining the parts gives the text back, and no part holds the separator.
pub proof fn split_is_inverse_of_join(s: Seq<char>, sep: char)
    ensures
        split(s, sep).len() > 0,
        join(split(s, sep), sep) == s,
        forall|i: int| 0 <= i < split(s, sep).len() ==> !(#[trigger] split(s, sep)[i]).contains(sep),
    decreases s.len(),
{
    let parts = split(s, sep);
    if s.len() > 0 {
        let init = s.drop_last();
        let rest = split(init, sep);
        split_is_inverse_of_join(init, sep);
        assert(s == init.push(s.last()));
        if s.last() == sep {
            assert(parts.drop_last() == rest);
            assert(join(parts, sep) == join(rest, sep).push(sep) + Seq::<char>::empty());
            assert(join(parts, sep) == s);
        } else {
            assert(parts.drop_last() == rest.drop_last());
            if rest.len() == 1 {
                assert(join(parts, sep) == rest[0].push(s.last()));
            } else {
                assert(join(parts, sep) == join(rest.drop_last(), sep).push(sep) + rest.last().push(
                    s.last(),
                ));
                assert(join(rest, sep) == join(rest.drop_last(), sep).push(sep) + rest.last());
            }
            assert(join(parts, sep) == s);
            assert forall|i: int| 0 <= i < parts.len() implies !(#[trigger] parts[i]).contains(sep) by {
                if i < parts.len() - 1 {
                    assert(parts[i] == rest[i]);
                } else {
                    assert(!rest.last().contains(sep));
                    if parts[i].contains(sep) {
                        let j = parts[i].index_of(sep);
                        assert(rest.last()[j] == sep);
                        assert(rest.last().contains(sep));
                    }
                }
            }
        }
    } else {
        assert(parts[0] == s);
    }
}

/// A text that is `parts` joined, none of them holding the separator, splits into those parts.
pub proof fn join_is_inverse_of_split(parts: Seq<Seq<char>>, sep: char)
    requires
        parts.len() > 0,
        forall|i: int| 0 <= i < parts.len() ==> !(#[trigger] parts[i]).contains(sep),
    ensures
        split(join(parts, sep), sep) == parts,
    decreases parts.len(), parts.last().len(),
{
    let s = join(parts, sep);
    let last = parts.last();
    if last.len() == 0 {
        if parts.len() == 1 {
            assert(s == Seq::<char>::empty());
            assert(split(s, sep) == parts);
        } else {
            let init = parts.drop_last();
            assert(s.last() == sep);
            assert(s.drop_last() == join(init, sep));
            assert forall|i: int| 0 <= i < init.len() implies !(#[trigger] init[i]).contains(sep) by {
                assert(init[i] == parts[i]);
            }
            join_is_inverse_of_split(init, sep);
            assert(last == Seq::<char>::empty());
            assert(parts == init.push(last));
        }
    } else {
        let shorter = parts.drop_last().push(last.drop_last());
        assert(shorter.drop_last() == parts.drop_last());
        assert(s.last() == last.last()) by {
            if parts.len() > 1 {
                assert(s == join(parts.drop_last(), sep).push(sep) + last);
            }
        }
        assert(s.drop_last() == join(shorter, sep));
        assert(last.contains(last.last()));
        assert(last.last() != sep);
        assert forall|i: int| 0 <= i < shorter.len() implies !(#[trigger] shorter[i]).contains(sep) by {
            if i < shorter.len() - 1 {
                assert(shorter[i] == parts[i]);
            } else if shorter[i].contains(sep) {
                let j = shorter[i].index_of(sep);
                assert(last[j] == sep);
                assert(last.contains(sep));
            }
        }
        join_is_inverse_of_split(shorter, sep);
        assert(last == shorter.last().push(last.last()));
        assert(parts == shorter.drop_last().push(last));
    }
}

/// Why a text is no 16-bit number.
#[derive(Clone, Copy, Debug, PartialEq, Eq, Structural)]
pub enum NumberError {
    /// There is no character at all.
    Empty,
    /// A character is no decimal digit, or a sign stands alone.
    InvalidDigit,
    /// The digits so far denote more than the type holds.
    TooLarge,
}

impl NumberError {
    /// The sentence that describes the error.
    pub open spec fn spec_message(self) -> Seq<char> {
        match self {
            NumberError::Empty => "cannot parse integer from empty string"@,
            NumberError::InvalidDigit => "invalid digit found in string"@,
            NumberError::TooLarge => "number too large to fit in target type"@,
        }
    }

    /// The sentence that describes the error.
    pub fn message(self) -> (m: &'static str)
        ensures
            m@ == self.spec_message(),
    {
        match self {
            NumberError::Empty => "cannot parse integer from empty string",
            NumberError::InvalidDigit => "invalid digit found in string",
            NumberError::TooLarge => "number too large to fit in target type",
        }
    }
}

/// Decimal digits read from the left. The first character that is no digit, or that takes the
/// value above the 16-bit range, decides the error.
pub open spec fn u16_digits(s: Seq<char>) -> Result<u16, NumberError>
    decreases s.len(),
{
    if s.len() == 0 {
        Ok(0)
    } else {
        match u16_digits(s.drop_last()) {
            Err(e) => Err(e),
            Ok(n) => match digit_value(s.last(), 10) {
                None => Err(NumberError::InvalidDigit),
                Some(d) => if n * 10 + d > u16::MAX {
                    Err(NumberError::TooLarge)
                } else {
                    Ok((n * 10 + d) as u16)
                },
            },
        }
    }
}

/// A 16-bit number text: an optional plus sign, then one decimal digit or more.
pub open spec fn u16_number(s: Seq<char>) -> Result<u16, NumberError> {
    let digits = if s.len() > 0 && s[0] == '+' {
        s.skip(1)
    } else {
        s
    };
    if s.len() == 0 {
        Err(NumberError::Empty)
    } else if digits.len() == 0 {
        Err(NumberError::InvalidDigit)
    } else {
        u16_digits(digits)
    }
}

/// The characters of `s`.
pub fn chars_of(s: &str) -> (v: Vec<char>)
    ensures
        v@ == s@,
{
    let mut v: Vec<char> = Vec::new();
    for c in it: s.chars()
        invariant
            it.seq() == s@,
            v@ == s@.take(it.index()),
    {
        v.push(c);
    }
    assert(s@.take(s@.len() as int) == s@);
    v
}

/// The value of the digit `c` in `radix`.
pub fn read_digit(c: char, radix: u32) -> (d: Option<u32>)
    requires
        radix <= 16,
    ensures
        d matches Some(v) ==> digit_value(c, radix as int) == Some(v as int),
        d is None ==> digit_value(c, radix as int) is None,
{
    let v: u32 = if '0' <= c && c <= '9' {
        c as u32 - '0' as u32
    } else if 'a' <= c && c <= 'f' {
        c as u32 - 'a' as u32 + 10
    } else if 'A' <= c && c <= 'F' {
        c as u32 - 'A' as u32 + 10
    } else {
        radix
    };
    if v < radix {
        Some(v)
    } else {
        None
    }
}

/// A run of digits denotes no less than any of its beginnings.
pub proof fn digits_value_grows(s: Seq<char>, radix: int, k: int)
    requires
        0 <= k <= s.len(),
        radix >= 1,
    ensures
        digits_value(s, radix) matches Some(n) ==> {
            &&& digits_value(s.take(k), radix) matches Some(m)
            &&& 0 <= m <= n
        },
    decreases s.len(),
{
    if k == s.len() {
        assert(s.take(k) == s);
        if s.len() > 0 {
            digits_value_grows(s.drop_last(), radix, k - 1);
            if let (Some(n), Some(d)) = (
                digits_value(s.drop_last(), radix),
                digit_value(s.last(), radix),
            ) {
                assert(s.drop_last().take(k - 1) == s.drop_last());
                assert(0 <= n * radix) by (nonlinear_arith)
                    requires
                        0 <= n,
                        radix >= 1,
                ;
            }
        }
    } else {
        digits_value_grows(s.drop_last(), radix, k);
        assert(s.drop_last().take(k) == s.take(k));
        if let (Some(n), Some(d)) = (
            digits_value(s.drop_last(), radix),
            digit_value(s.last(), radix),
        ) {
            assert(n <= n * radix) by (nonlinear_arith)
                requires
                    0 <= n,
                    radix >= 1,
            ;
        }
    }
}

/// Reads a number text whose value is at most `max`.
pub fn read_number(s: &[char], radix: u32, max: u32) -> (r: Option<u32>)
    requires
        2 <= radix <= 16,
    ensures
        r matches Some(n) ==> number(s@, radix as int, max as int) == Some(n as int),
        r is None ==> number(s@, radix as int, max as int) is None,
{
    if s.len() == 0 {
        return None;
    }
    let mut value: u64 = 0;
    let mut i: usize = 0;
    assert(s@.take(0) == Seq::<char>::empty());
    while i < s.len()
        invariant
            2 <= radix <= 16,
            i <= s.len(),
            value <= max,
            digits_value(s@.take(i as int), radix as int) == Some(value as int),
        decreases s.len() - i,
    {
        proof {
            digits_value_grows(s@, radix as int, i + 1);
            assert(s@.take(i + 1).drop_last() == s@.take(i as int));
            assert(s@.take(i + 1).last() == s@[i as int]);
            assert(value * radix <= 0xffff_ffff * 16) by (nonlinear_arith)
                requires
                    value <= 0xffff_ffff,
                    radix <= 16,
            ;
        }
        match read_digit(s[i], radix) {
            None => {
                return None;
            },
            Some(d) => {
                value = value * (radix as u64) + d as u64;
                if value > max as u64 {
                    return None;
                }
            },
        }
        i = i + 1;
    }
    assert(s@.take(s@.len() as int) == s@);
    Some(value as u32)
}

/// What stops the reading of the first digits stops the reading of all of them.
proof fn u16_digits_stop(s: Seq<char>, k: int)
    requires
        0 <= k <= s.len(),
        u16_digits(s.take(k)) is Err,
    ensures
        u16_digits(s) == u16_digits(s.take(k)),
    decreases s.len(),
{
    if k == s.len() {
        assert(s.take(k) == s);
    } else {
        assert(s.drop_last().take(k) == s.take(k));
        u16_digits_stop(s.drop_last(), k);
    }
}

/// Reads a 16-bit number text.
pub fn read_u16(s: &str) -> (r: Result<u16, NumberError>)
    ensures
        r == u16_number(s@),
{
    let chars: Vec<char> = chars_of(s);
    if chars.len() == 0 {
        return Err(NumberError::Empty);
    }
    let start: usize = if chars[0] == '+' {
        1
    } else {
        0
    };
    let ghost digits = s@.skip(start as int);
    assert(s@.skip(0) == s@);
    if chars.len() == start {
        return Err(NumberError::InvalidDigit);
    }
    let mut value: u32 = 0;
    let mut i: usize = start;
    assert(digits.take(0) == Seq::<char>::empty());
    while i < chars.len()
        invariant
            chars@ == s@,
            start <= 1,
            digits == s@.skip(start as int),
            u16_number(s@) == u16_digits(digits),
            start <= i <= chars.len(),
            value <= u16::MAX,
            u16_digits(digits.take(i - start)) == Ok::<u16, NumberError>(value as u16),
        decreases chars.len() - i,
    {
        proof {
            assert(digits.take(i - start + 1).drop_last() == digits.take(i - start));
            assert(digits.take(i - start + 1).last() == s@[i as int]);
        }
        match read_digit(chars[i], 10) {
            None => {
                proof {
                    u16_digits_stop(digits, i - start + 1);
                }
                return Err(NumberError::InvalidDigit);
            },
            Some(d) => {
                value = value * 10 + d;
                if value > u16::MAX as u32 {
                    proof {
                        u16_digits_stop(digits, i - start + 1);
                    }
                    return Err(NumberError::TooLarge);
                }
            },
        }
        i = i + 1;
    }
    assert(digits.take(digits.len() as int) == digits);
    Ok(value as u16)
}

/// The texts that a vector of character vectors holds.
pub open spec fn views(parts: Seq<Vec<char>>) -> Seq<Seq<char>> {
    parts.map_values(|p: Vec<char>| p@)
}

/// Splits `s` at each `sep`.
pub fn split_chars(s: &[char], sep: char) -> (parts: Vec<Vec<char>>)
    ensures
        views(parts@) == split(s@, sep),
{
    let mut done: Vec<Vec<char>> = Vec::new();
    let mut part: Vec<char> = Vec::new();
    let mut i: usize = 0;
    assert(s@.take(0) == Seq::<char>::empty());
    assert(views(done@).push(part@) == split(s@.take(0), sep));
    while i < s.len()
        invariant
            i <= s.len(),
            views(done@).push(part@) == split(s@.take(i as int), sep),
        decreases s.len() - i,
    {
        let ghost before = views(done@);
        let ghost text = s@.take(i + 1);
        proof {
            assert(text.drop_last() == s@.take(i as int));
            assert(text.last() == s@[i as int]);
            assert(before.push(part@).drop_last() == before);
        }
        if s[i] == sep {
            let ghost ended = part@;
            done.push(part);
            part = Vec::new();
            assert(views(done@) == before.push(ended));
        } else {
            part.push(s[i]);
        }
        i = i + 1;
    }
    assert(s@.take(s@.len() as int) == s@);
    let ghost before = views(done@);
    let ghost ended = part@;
    done.push(part);
    assert(views(done@) == before.push(ended));
    done
}

/// The text of one decimal digit.
fn digit_text(d: u64) -> (t: &'static str)
    requires
        d < 10,
    ensures
        t@ == seq![digit_char(d as int)],
{
    proof {
        reveal_strlit("0");
        reveal_strlit("1");
        reveal_strlit("2");
        reveal_strlit("3");
        reveal_strlit("4");
        reveal_strlit("5");
        reveal_strlit("6");
        reveal_strlit("7");
        reveal_strlit("8");
        reveal_strlit("9");
    }
    match d {
        0 => "0",
        1 => "1",
        2 => "2",
        3 => "3",
        4 => "4",
        5 => "5",
        6 => "6",
        7 => "7",
        8 => "8",
        _ => "9",
    }
}

/// `n` in decimal.
pub fn decimal_text(n: u64) -> (t: String)
    ensures
        t@ == decimal(n as nat),
    decreases n,
{
    if n < 10 {
        let t: String = digit_text(n).to_owned();
        t
    } else {
        let mut t: String = decimal_text(n / 10);
        t.append(digit_text(n % 10));
        assert(t@ == decimal(n as nat / 10).push(digit_char((n % 10) as int)));
        t
    }
}

/// The text of a truth value.
pub open spec fn bool_words(b: bool) -> Seq<char> {
    if b {
        "true"@
    } else {
        "false"@
    }
}

/// The text of a truth value.
pub fn bool_text(b: bool) -> (t: String)
    ensures
        t@ == bool_words(b),
{
    if b {
        "true".to_owned()
    } else {
        "false".to_owned()
    }
}

/// Each character of a run of digits is a digit.
pub proof fn digits_are_digits(s: Seq<char>, radix: int, c: char)
    requires
        digits_value(s, radix) is Some,
        s.contains(c),
    ensures
        digit_value(c, radix) is Some,
    decreases s.len(),
{
    let i = s.index_of(c);
    if i < s.len() - 1 {
        assert(s.drop_last()[i] == c);
        assert(s.drop_last().contains(c));
        digits_are_digits(s.drop_last(), radix, c);
    }
}

/// A character of a joined text is the separator or stands in one of the parts.
pub proof fn joined_characters(parts: Seq<Seq<char>>, sep: char, c: char)
    requires
        join(parts, sep).contains(c),
        c != sep,
    ensures
        exists|i: int| 0 <= i < parts.len() && (#[trigger] parts[i]).contains(c),
    decreases parts.len(),
{
    let s = join(parts, sep);
    let k = s.index_of(c);
    if parts.len() == 1 {
        assert(parts[0].contains(c));
    } else if parts.len() > 1 {
        let front = join(parts.drop_last(), sep);
        if k < front.len() {
            assert(front[k] == c);
            assert(front.contains(c));
            joined_characters(parts.drop_last(), sep, c);
            let i = choose|i: int|
                0 <= i < parts.drop_last().len() && (#[trigger] parts.drop_last()[i]).contains(c);
            assert(parts[i] == parts.drop_last()[i]);
        } else if k > front.len() {
            assert(parts.last()[k - front.len() - 1] == c);
            assert(parts[parts.len() - 1].contains(c));
        }
    }
}

/// The decimal text of a number is read back as that number. It has no leading zero.
pub proof fn decimal_is_read_back(n: nat)
    ensures
        digits_value(decimal(n), 10) == Some(n as int),
        decimal(n).len() > 0,
        n > 0 ==> decimal(n)[0] != '0',
        n == 0 ==> decimal(n).len() == 1,
    decreases n,
{
    let s = decimal(n);
    if n < 10 {
        assert(s.drop_last() == Seq::<char>::empty());
        assert(digits_value(s.drop_last(), 10) == Some(0int));
        assert(digit_value(s.last(), 10) == Some(n as int));
    } else {
        decimal_is_read_back(n / 10);
        assert(s.drop_last() == decimal(n / 10));
        assert(digit_value(s.last(), 10) == Some((n % 10) as int));
        assert(s[0] == decimal(n / 10)[0]);
    }
}

/// A run of decimal digits without a leading zero is the decimal text of its value.
pub proof fn decimal_is_unique(s: Seq<char>)
    requires
        s.len() > 0,
        s.len() == 1 || s[0] != '0',
        digits_value(s, 10) is Some,
    ensures
        0 <= digits_value(s, 10)->0,
        s == decimal(digits_value(s, 10)->0 as nat),
    decreases s.len(),
{
    let init = s.drop_last();
    let n = digits_value(s, 10)->0;
    let d = digit_value(s.last(), 10)->0;
    assert(digit_char(d) == s.last());
    if s.len() == 1 {
        assert(init == Seq::<char>::empty());
        assert(digits_value(init, 10) == Some(0int));
        assert(n == d);
        assert(s == seq![digit_char(d)]);
    } else {
        assert(init[0] == s[0]);
        let m = digits_value(init, 10)->0;
        assert(m >= 1) by {
            digits_value_grows(init, 10, 1);
            let first = init.take(1);
            assert(first.drop_last() == Seq::<char>::empty());
            assert(digits_value(first.drop_last(), 10) == Some(0int));
            assert(first.last() == s[0]);
        }
        decimal_is_unique(init);
        assert(n == m * 10 + d);
        assert(n as nat / 10 == m && n as nat % 10 == d);
        assert(s == init.push(s.last()));
        assert(s == decimal(n as nat));
    }
}

/// How long the decimal text of a small number is.
pub proof fn decimal_length(n: nat)
    requires
        n < 1000,
    ensures
        decimal(n).len() <= 3,
{
    reveal_with_fuel(decimal, 4);
}

/// Two parts without the separator, with the separator between them, split into the two.
pub proof fn split_of_two(a: Seq<char>, b: Seq<char>, sep: char)
    requires
        !a.contains(sep),
        !b.contains(sep),
    ensures
        split(a.push(sep) + b, sep) == seq![a, b],
{
    let parts = seq![a, b];
    assert(parts.drop_last() == seq![a]);
    assert(join(seq![a], sep) == a);
    assert(join(parts, sep) == a.push(sep) + b);
    join_is_inverse_of_split(parts, sep);
}

/// A text without the separator is its own only part.
pub proof fn split_of_one(a: Seq<char>, sep: char)
    requires
        !a.contains(sep),
    ensures
        split(a, sep) == seq![a],
{
    assert(join(seq![a], sep) == a);
    join_is_inverse_of_split(seq![a], sep);
}

/// Digits are read as a 16-bit number exactly when they denote one, and then as that number.
pub proof fn u16_digits_denote(s: Seq<char>)
    ensures
        u16_digits(s) matches Ok(n) ==> digits_value(s, 10) == Some(n as int),
        digits_value(s, 10) matches Some(n) ==> 0 <= n && (n <= u16::MAX ==> u16_digits(s) == Ok::<
            u16,
            NumberError,
        >(n as u16)),
    decreases s.len(),
{
    if s.len() > 0 {
        u16_digits_denote(s.drop_last());
    }
}

/// The decimal text of a 16-bit number is read back as that number.
pub proof fn u16_is_read_back(n: u16)
    ensures
        u16_number(decimal(n as nat)) == Ok::<u16, NumberError>(n),
{
    let s = decimal(n as nat);
    decimal_is_read_back(n as nat);
    u16_digits_denote(s);
    if s[0] == '+' {
        assert(s.contains('+'));
        digits_are_digits(s, 10, '+');
    }
}

/// The hexadecimal text of a number is read back as that number.
pub proof fn hex_is_read_back(n: nat)
    ensures
        digits_value(hex(n), 16) == Some(n as int),
        hex(n).len() > 0,
    decreases n,
{
    let s = hex(n);
    if n < 16 {
        assert(s.drop_last() == Seq::<char>::empty());
        assert(digits_value(s.drop_last(), 16) == Some(0int));
        assert(digit_value(s.last(), 16) == Some(n as int));
    } else {
        hex_is_read_back(n / 16);
        assert(s.drop_last() == hex(n / 16));
        assert(digit_value(s.last(), 16) == Some((n % 16) as int));
    }
}

/// How long the hexadecimal text of a 16-bit number is.
pub proof fn hex_length(n: nat)
    requires
        n < 0x10000,
    ensures
        hex(n).len() <= 4,
{
    reveal_with_fuel(hex, 5);
}

/// A character is the digit with value `v` exactly when it is the `v`-th of `0` to `9`, then `a` to
/// `f` or `A` to `F`.
pub proof fn digit_is_its_position(c: char, radix: int, v: int)
    requires
        radix <= 16,
    ensures
        digit_value(c, radix) == Some(v) <==> 0 <= v < radix && {
            ||| v < 10 && c as int == '0' as int + v
            ||| v >= 10 && c as int == 'a' as int + (v - 10)
            ||| v >= 10 && c as int == 'A' as int + (v - 10)
        },
{
}

/// `read_digit` finds exactly the digits below its radix, each with its value.
pub proof fn digits_are_found(c: char, radix: u32, d: Option<u32>, v: u32)
    requires
        radix <= 16,
        call_ensures(read_digit, (c, radix), d),
    ensures
        d == Some(v) <==> v < radix && {
            ||| v < 10 && c as int == '0' as int + v
            ||| v >= 10 && c as int == 'a' as int + (v - 10)
            ||| v >= 10 && c as int == 'A' as int + (v - 10)
        },
{
}

/// No digits denote zero; one more digit takes the value times the radix and adds the digit; what
/// holds another character denotes nothing.
pub proof fn one_more_digit(s: Seq<char>, c: char, radix: int)
    ensures
        digits_value(Seq::empty(), radix) == Some(0int),
        digits_value(s.push(c), radix) == match (digits_value(s, radix), digit_value(c, radix)) {
            (Some(n), Some(d)) => Some(n * radix + d),
            _ => None::<int>,
        },
{
    assert(s.push(c).drop_last() == s);
}

/// One part joined is that part; one more part comes after a separator.
pub proof fn one_more_part(parts: Seq<Seq<char>>, part: Seq<char>, sep: char)
    ensures
        join(Seq::<Seq<char>>::empty(), sep) == Seq::<char>::empty(),
        join(seq![part], sep) == part,
        parts.len() > 0 ==> join(parts.push(part), sep) == join(parts, sep) + seq![sep] + part,
{
    assert(parts.push(part).drop_last() == parts);
}

/// Zeros on the left do not change what digits denote.
pub proof fn leading_zero_changes_nothing(s: Seq<char>, radix: int)
    requires
        radix >= 1,
    ensures
        digits_value(seq!['0'] + s, radix) == digits_value(s, radix),
    decreases s.len(),
{
    let padded = seq!['0'] + s;
    if s.len() == 0 {
        assert(padded.drop_last() == Seq::<char>::empty());
        assert(digits_value(padded.drop_last(), radix) == Some(0int));
        assert(digit_value(padded.last(), radix) == Some(0int));
        assert(0 * radix == 0) by (nonlinear_arith);
    } else {
        assert(padded.drop_last() == seq!['0'] + s.drop_last());
        leading_zero_changes_nothing(s.drop_last(), radix);
    }
}

/// `read_number` reads exactly the nonempty digits that denote at most `max`, as what they denote.
pub proof fn numbers_are_read(s: &[char], radix: u32, max: u32, r: Option<u32>, n: u32)
    requires
        2 <= radix <= 16,
        call_ensures(read_number, (s, radix, max), r),
    ensures
        r == Some(n) <==> s@.len() > 0 && digits_value(s@, radix as int) == Some(n as int) && n
            <= max,
{
}

/// The digits of a number text: what follows a plus sign, where one stands first.
pub open spec fn after_plus(s: Seq<char>) -> Seq<char> {
    if s.len() > 0 && s[0] == '+' {
        s.skip(1)
    } else {
        s
    }
}

/// Whether the first `k` characters are digits that denote more than 16 bits hold.
pub open spec fn is_over(s: Seq<char>, k: int) -> bool {
    0 <= k <= s.len() && (digits_value(s.take(k), 10) matches Some(n) && n > u16::MAX)
}

/// Digits read from the left are too large exactly when a beginning of them is.
proof fn too_large_is_over(s: Seq<char>)
    ensures
        u16_digits(s) == Err::<u16, NumberError>(NumberError::TooLarge) <==> exists|k: int|
            is_over(s, k),
        u16_digits(s) != Err::<u16, NumberError>(NumberError::Empty),
    decreases s.len(),
{
    u16_digits_denote(s);
    if s.len() == 0 {
        assert forall|k: int| !is_over(s, k) by {
            assert(s.take(0) == s);
        }
    } else {
        let init = s.drop_last();
        too_large_is_over(init);
        u16_digits_denote(init);
        assert forall|k: int| k < s.len() implies is_over(s, k) == is_over(init, k) by {
            if 0 <= k {
                assert(s.take(k) == init.take(k));
            }
        }
        assert(s.take(s.len() as int) == s);
        if u16_digits(s) == Err::<u16, NumberError>(NumberError::TooLarge) {
            if u16_digits(init) is Ok {
                assert(is_over(s, s.len() as int));
            } else {
                let k = choose|k: int| is_over(init, k);
                assert(is_over(s, k));
            }
        }
        if exists|k: int| is_over(s, k) {
            let k = choose|k: int| is_over(s, k);
            if k < s.len() {
                assert(is_over(init, k));
            } else if u16_digits(init) is Ok {
            } else {
                let n = digits_value(init, 10)->0;
                assert(init.take(init.len() as int) == init);
                assert(n > u16::MAX);
                assert(is_over(init, init.len() as int));
            }
        }
    }
}

/// `read_u16` reads exactly the nonempty decimal digits, with or without a plus sign before them,
/// that denote at most 65535, as what they denote. Otherwise it says that the text is empty, or
/// that a beginning of the digits is too large, or that there is no digit or another character.
pub proof fn u16_texts_are_read(s: &str, r: Result<u16, NumberError>, n: u16)
    requires
        call_ensures(read_u16, (s,), r),
    ensures
        r == Ok::<u16, NumberError>(n) <==> after_plus(s@).len() > 0 && digits_value(
            after_plus(s@),
            10,
        ) == Some(n as int),
        r == Err::<u16, NumberError>(NumberError::Empty) <==> s@.len() == 0,
        r == Err::<u16, NumberError>(NumberError::TooLarge) <==> exists|k: int|
            is_over(after_plus(s@), k),
{
    let digits = after_plus(s@);
    u16_digits_denote(digits);
    too_large_is_over(digits);
    if digits.len() == 0 {
        assert forall|k: int| !is_over(digits, k) by {
            assert(digits.take(0) == Seq::<char>::empty());
        }
    }
}

/// `decimal_text` writes digits that denote the number, without a leading zero.
pub proof fn decimal_text_denotes(n: u64, t: String)
    requires
        call_ensures(decimal_text, (n,), t),
    ensures
        digits_value(t@, 10) == Some(n as int),
        t@.len() > 0,
        t@[0] == '0' ==> n == 0 && t@.len() == 1,
{
    decimal_is_read_back(n as nat);
    if n > 0 {
        assert(t@[0] != '0');
    }
}

/// `split_chars` cuts at every separator and loses nothing else.
pub proof fn parts_join_back(s: &[char], sep: char, parts: Vec<Vec<char>>)
    requires
        call_ensures(split_chars, (s, sep), parts),
    ensures
        parts@.len() > 0,
        join(views(parts@), sep) == s@,
        forall|i: int| 0 <= i < parts@.len() ==> !(#[trigger] parts@[i])@.contains(sep),
{
    split_is_inverse_of_join(s@, sep);
    assert forall|i: int| 0 <= i < parts@.len() implies !(#[trigger] parts@[i])@.contains(sep) by {
        assert(views(parts@)[i] == parts@[i]@);
    }
}

/// `bool_text` writes `true` or `false`, and the two are not the same.
pub proof fn truth_is_written(b: bool, t: String)
    requires
        call_ensures(bool_text, (b,), t),
    ensures
        b ==> t@ == seq!['t', 'r', 'u', 'e'],
        !b ==> t@ == seq!['f', 'a', 'l', 's', 'e'],
{
    reveal_strlit("true");
    reveal_strlit("false");
}

} // verus!

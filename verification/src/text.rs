//! Text: numerals, durations and comparisons, each with the characters it produces.

use vstd::prelude::*;

verus! {

/// `String::push` appends the given character to the end of the string.
pub assume_specification[ String::push ](s: &mut String, c: char)
    ensures
        final(s)@ == old(s)@.push(c),
;

/// The character for a digit below sixteen, lower case above nine.
pub open spec fn digit(n: nat) -> char {
    if n < 10 {
        ('0' as nat + n) as char
    } else {
        ('a' as nat + (n - 10)) as char
    }
}

/// The numeral of `n` in `radix`, most significant digit first and without leading zeros.
pub open spec fn numeral(n: nat, radix: nat) -> Seq<char>
    decreases n,
    when radix >= 2
{
    if n < radix {
        seq![digit(n)]
    } else {
        proof {
            assert(n / radix < n) by (nonlinear_arith)
                requires
                    n >= radix,
                    radix >= 2,
            ;
        }
        numeral(n / radix, radix).push(digit(n % radix))
    }
}

/// The decimal numeral of `n`.
pub open spec fn decimal(n: nat) -> Seq<char> {
    numeral(n, 10)
}

/// `s` with zeros in front until it is at least `width` characters long.
pub open spec fn zero_padded(s: Seq<char>, width: nat) -> Seq<char> {
    if s.len() < width {
        Seq::new((width - s.len()) as nat, |i: int| '0') + s
    } else {
        s
    }
}

/// Appends the digits of `n` in `radix`.
pub fn push_numeral(out: &mut String, n: u128, radix: u128)
    requires
        2 <= radix <= 16,
    ensures
        final(out)@ == old(out)@ + numeral(n as nat, radix as nat),
    decreases n,
{
    if n >= radix {
        proof {
            assert(n / radix < n) by (nonlinear_arith)
                requires
                    n >= radix,
                    radix >= 2,
            ;
        }
        push_numeral(out, n / radix, radix);
    }
    proof {
        assert(n % radix < radix && (n < radix ==> n % radix == n)) by (nonlinear_arith)
            requires
                radix >= 2,
        ;
    }
    let d: u8 = (n % radix) as u8;
    let c: char = if d < 10 {
        (48u8 + d) as char
    } else {
        (97u8 + (d - 10)) as char
    };
    out.push(c);
    proof {
        assert(c == digit(d as nat));
        assert(out@ =~= old(out)@ + numeral(n as nat, radix as nat));
    }
}

/// Appends the decimal digits of `n`.
pub fn push_decimal(out: &mut String, n: u128)
    ensures
        final(out)@ == old(out)@ + decimal(n as nat),
{
    push_numeral(out, n, 10);
}

/// The decimal numeral of `n` as a string.
pub fn decimal_string(n: u128) -> (s: String)
    ensures
        s@ == decimal(n as nat),
{
    let mut s = String::new();
    push_decimal(&mut s, n);
    assert(s@ =~= decimal(n as nat));
    s
}

/// Appends the digits of `n` in `radix`, zero padded to `width` characters.
pub fn push_padded(out: &mut String, n: u128, radix: u128, width: usize)
    requires
        2 <= radix <= 16,
    ensures
        final(out)@ == old(out)@ + zero_padded(numeral(n as nat, radix as nat), width as nat),
{
    let mut digits = String::new();
    push_numeral(&mut digits, n, radix);
    assert(digits@ =~= numeral(n as nat, radix as nat));
    let len = digits.as_str().unicode_len();
    let mut at: usize = len;
    while at < width
        invariant
            len <= at,
            at <= width || at == len,
            len == digits@.len(),
            out@ == old(out)@ + Seq::new((at - len) as nat, |i: int| '0'),
        decreases width - at,
    {
        out.push('0');
        at = at + 1;
        assert(out@ =~= old(out)@ + Seq::new((at - len) as nat, |i: int| '0'));
    }
    out.append(digits.as_str());
    assert(out@ =~= old(out)@ + zero_padded(numeral(n as nat, radix as nat), width as nat));
}

/// What follows the point in a decimal fraction `rest / unit`, where `unit` is a power of ten:
/// a point and the digits up to the last one that is not zero, or nothing for a whole number.
pub open spec fn fraction(rest: nat, unit: nat) -> Seq<char> {
    if rest == 0 {
        seq![]
    } else {
        seq!['.'] + fraction_digits(rest, unit)
    }
}

/// The digits of `rest / unit` after the point, without trailing zeros.
pub open spec fn fraction_digits(rest: nat, unit: nat) -> Seq<char>
    decreases unit,
{
    if rest == 0 || unit < 10 {
        seq![]
    } else {
        seq![digit(rest / (unit / 10))] + fraction_digits(rest % (unit / 10), unit / 10)
    }
}

/// A length of time in the largest unit that leaves a whole part, from seconds down to
/// nanoseconds, with the fraction that is left.
pub open spec fn duration(nanos: nat) -> Seq<char> {
    if nanos >= 1_000_000_000 {
        decimal(nanos / 1_000_000_000) + fraction(nanos % 1_000_000_000, 1_000_000_000) + "s"@
    } else if nanos >= 1_000_000 {
        decimal(nanos / 1_000_000) + fraction(nanos % 1_000_000, 1_000_000) + "ms"@
    } else if nanos >= 1_000 {
        decimal(nanos / 1_000) + fraction(nanos % 1_000, 1_000) + "µs"@
    } else {
        decimal(nanos) + "ns"@
    }
}

/// Appends the fraction `rest / unit`.
fn push_fraction(out: &mut String, rest: u128, unit: u128)
    requires
        rest < unit,
        unit == 1_000 || unit == 1_000_000 || unit == 1_000_000_000,
    ensures
        final(out)@ == old(out)@ + fraction(rest as nat, unit as nat),
{
    if rest == 0 {
        assert(out@ =~= old(out)@ + fraction(rest as nat, unit as nat));
        return;
    }
    out.push('.');
    let mut left: u128 = rest;
    let mut scale: u128 = unit;
    assert(out@ =~= old(out)@ + seq!['.']);
    while left > 0 && scale >= 10
        invariant
            left < scale,
            scale <= 1_000_000_000,
            out@ + fraction_digits(left as nat, scale as nat) == old(out)@ + seq!['.']
                + fraction_digits(rest as nat, unit as nat),
            scale == 1 || scale == 10 || scale == 100 || scale == 1_000 || scale == 10_000 || scale
                == 100_000 || scale == 1_000_000 || scale == 10_000_000 || scale == 100_000_000
                || scale == 1_000_000_000,
        decreases scale,
    {
        let step: u128 = scale / 10;
        let d: u8 = (left / step) as u8;
        proof {
            assert(left / step < 10) by (nonlinear_arith)
                requires
                    left < scale,
                    scale == 10 * step,
                    step > 0,
            ;
        }
        let ghost before = out@;
        out.push((48u8 + d) as char);
        proof {
            assert(fraction_digits(left as nat, scale as nat) == seq![digit(d as nat)]
                + fraction_digits((left % step) as nat, step as nat));
            assert(out@ + fraction_digits((left % step) as nat, step as nat) =~= before
                + fraction_digits(left as nat, scale as nat));
        }
        left = left % step;
        scale = step;
    }
    proof {
        assert(fraction_digits(left as nat, scale as nat) =~= seq![]);
        assert(out@ =~= old(out)@ + fraction(rest as nat, unit as nat));
    }
}

/// Appends a length of time.
pub fn push_duration(out: &mut String, nanos: u128)
    ensures
        final(out)@ == old(out)@ + duration(nanos as nat),
{
    if nanos >= 1_000_000_000 {
        push_decimal(out, nanos / 1_000_000_000);
        push_fraction(out, nanos % 1_000_000_000, 1_000_000_000);
        out.append("s");
    } else if nanos >= 1_000_000 {
        push_decimal(out, nanos / 1_000_000);
        push_fraction(out, nanos % 1_000_000, 1_000_000);
        out.append("ms");
    } else if nanos >= 1_000 {
        push_decimal(out, nanos / 1_000);
        push_fraction(out, nanos % 1_000, 1_000);
        out.append("µs");
    } else {
        push_decimal(out, nanos);
        out.append("ns");
    }
    assert(out@ =~= old(out)@ + duration(nanos as nat));
}

/// The characters of a string, one by one.
pub fn chars_of(s: &str) -> (v: Vec<char>)
    ensures
        v@ == s@,
{
    let mut v: Vec<char> = Vec::new();
    for c in it: s.chars()
        invariant
            v@ == it.seq().take(it.index()),
            it.seq() == s@,
    {
        v.push(c);
        assert(it.seq().take(it.index() + 1) =~= it.seq().take(it.index()).push(c));
    }
    assert(s@.take(s@.len() as int) =~= s@);
    v
}

/// The string made of the characters of `v` from `from` up to `to`.
pub fn string_of(v: &Vec<char>, from: usize, to: usize) -> (s: String)
    requires
        from <= to <= v@.len(),
    ensures
        s@ == v@.subrange(from as int, to as int),
{
    let mut s = String::new();
    let mut i: usize = from;
    while i < to
        invariant
            from <= i <= to <= v@.len(),
            s@ == v@.subrange(from as int, i as int),
        decreases to - i,
    {
        s.push(v[i]);
        i = i + 1;
        assert(v@.subrange(from as int, i as int) =~= v@.subrange(from as int, i - 1).push(
            v@[i - 1],
        ));
    }
    s
}

/// Whether two strings hold the same characters.
pub fn same(a: &str, b: &str) -> (r: bool)
    ensures
        r == (a@ == b@),
{
    a.to_owned() == b.to_owned()
}

/// The value of a digit character in `radix`, if it is one.
pub open spec fn digit_value(c: char, radix: nat) -> Option<nat> {
    let v = if '0' <= c <= '9' {
        c as nat - '0' as nat
    } else if 'a' <= c <= 'z' {
        c as nat - 'a' as nat + 10
    } else if 'A' <= c <= 'Z' {
        c as nat - 'A' as nat + 10
    } else {
        1000
    };
    if v < radix {
        Some(v as nat)
    } else {
        None
    }
}

/// The value of a string of digits, if every character of it is one.
pub open spec fn digits_value(s: Seq<char>, radix: nat) -> Option<nat>
    decreases s.len(),
{
    if s.len() == 0 {
        Some(0)
    } else {
        match (digits_value(s.drop_last(), radix), digit_value(s.last(), radix)) {
            (Some(high), Some(low)) => Some(high * radix + low),
            _ => None,
        }
    }
}

/// The digits of a number, after the plus sign that may stand in front of them.
pub open spec fn unsigned_digits(s: Seq<char>) -> Seq<char> {
    if s.len() > 0 && s[0] == '+' {
        s.subrange(1, s.len() as int)
    } else {
        s
    }
}

/// The value of an unsigned number of at most `max`: at least one digit, and an optional plus
/// sign in front.
pub open spec fn unsigned_value(s: Seq<char>, radix: nat, max: nat) -> Option<nat> {
    let digits = unsigned_digits(s);
    if digits.len() == 0 {
        None
    } else {
        match digits_value(digits, radix) {
            Some(v) => if v <= max {
                Some(v)
            } else {
                None
            },
            None => None,
        }
    }
}

/// If a prefix of a digit string is not a number, or is already too large, so is the whole.
proof fn lemma_digits_prefix(s: Seq<char>, k: int, radix: nat, max: nat)
    requires
        0 <= k <= s.len(),
        radix >= 2,
    ensures
        digits_value(s.take(k), radix) is None ==> digits_value(s, radix) is None,
        (digits_value(s.take(k), radix) matches Some(v) ==> v > max ==> (digits_value(
            s,
            radix,
        ) matches Some(w) ==> w > max)),
    decreases s.len() - k,
{
    if k == s.len() {
        assert(s.take(k) =~= s);
    } else {
        let next = s.take(k + 1);
        assert(next.drop_last() =~= s.take(k));
        lemma_digits_prefix(s, k + 1, radix, max);
        if let Some(v) = digits_value(s.take(k), radix) {
            if let Some(low) = digit_value(s[k], radix) {
                assert(v * radix + low >= v) by (nonlinear_arith)
                    requires
                        radix >= 2,
                        v >= 0,
                        low >= 0,
                ;
            }
        }
    }
}

/// The number that `s` spells in `radix`, if it spells one of at most `max`.
pub fn parse_unsigned(s: &str, radix: u32, max: u32) -> (r: Option<u32>)
    requires
        2 <= radix <= 16,
    ensures
        match r {
            Some(v) => unsigned_value(s@, radix as nat, max as nat) == Some(v as nat),
            None => unsigned_value(s@, radix as nat, max as nat) is None,
        },
{
    let chars = chars_of(s);
    let start: usize = if chars.len() > 0 && chars[0] == '+' {
        1
    } else {
        0
    };
    let ghost digits = unsigned_digits(s@);
    assert(digits =~= s@.subrange(start as int, s@.len() as int));
    if start == chars.len() {
        return None;
    }
    let mut value: u64 = 0;
    let mut i: usize = start;
    while i < chars.len()
        invariant
            start <= i <= chars@.len(),
            chars@ == s@,
            digits == s@.subrange(start as int, s@.len() as int),
            digits == unsigned_digits(s@),
            digits.len() > 0,
            2 <= radix <= 16,
            value <= max,
            digits_value(digits.take(i - start), radix as nat) == Some(value as nat),
        decreases chars.len() - i,
    {
        let c: char = chars[i];
        let d: u32 = if '0' <= c && c <= '9' {
            c as u32 - 48
        } else if 'a' <= c && c <= 'z' {
            c as u32 - 97 + 10
        } else if 'A' <= c && c <= 'Z' {
            c as u32 - 65 + 10
        } else {
            1000
        };
        proof {
            let next = digits.take(i - start + 1);
            assert(next.drop_last() =~= digits.take(i - start));
            assert(next.last() == c);
            lemma_digits_prefix(digits, i - start + 1, radix as nat, max as nat);
            assert(value * radix <= 0xffff_ffff * 16) by (nonlinear_arith)
                requires
                    value <= 0xffff_ffff,
                    radix <= 16,
            ;
        }
        if d >= radix {
            return None;
        }
        let next: u64 = value * (radix as u64) + d as u64;
        if next > max as u64 {
            return None;
        }
        value = next;
        i = i + 1;
    }
    proof {
        assert(digits.take(digits.len() as int) =~= digits);
    }
    Some(value as u32)
}

/// Whether a character is white space.
pub open spec fn is_blank(c: char) -> bool {
    ||| '\u{9}' <= c <= '\u{d}'
    ||| c == ' '
    ||| c == '\u{85}'
    ||| c == '\u{a0}'
    ||| c == '\u{1680}'
    ||| '\u{2000}' <= c <= '\u{200a}'
    ||| c == '\u{2028}'
    ||| c == '\u{2029}'
    ||| c == '\u{202f}'
    ||| c == '\u{205f}'
    ||| c == '\u{3000}'
}

/// Text without the white space in front of it.
pub open spec fn trimmed_front(s: Seq<char>) -> Seq<char>
    decreases s.len(),
{
    if s.len() > 0 && is_blank(s[0]) {
        trimmed_front(s.drop_first())
    } else {
        s
    }
}

/// Text without the white space behind it.
pub open spec fn trimmed_back(s: Seq<char>) -> Seq<char>
    decreases s.len(),
{
    if s.len() > 0 && is_blank(s.last()) {
        trimmed_back(s.drop_last())
    } else {
        s
    }
}

/// Text without the white space around it.
pub open spec fn trimmed(s: Seq<char>) -> Seq<char> {
    trimmed_back(trimmed_front(s))
}

/// Whether a character is white space.
fn blank(c: char) -> (r: bool)
    ensures
        r == is_blank(c),
{
    ('\u{9}' <= c && c <= '\u{d}') || c == ' ' || c == '\u{85}' || c == '\u{a0}' || c == '\u{1680}'
        || ('\u{2000}' <= c && c <= '\u{200a}') || c == '\u{2028}' || c == '\u{2029}' || c
        == '\u{202f}' || c == '\u{205f}' || c == '\u{3000}'
}

/// Text without the white space around it.
pub fn trim(s: &str) -> (r: String)
    ensures
        r@ == trimmed(s@),
{
    let chars = chars_of(s);
    let mut from: usize = 0;
    assert(chars@.subrange(0, chars@.len() as int) =~= chars@);
    while from < chars.len() && blank(chars[from])
        invariant
            from <= chars@.len(),
            chars@ == s@,
            trimmed_front(chars@.subrange(from as int, chars@.len() as int)) == trimmed_front(s@),
        decreases chars@.len() - from,
    {
        assert(chars@.subrange(from as int, chars@.len() as int).drop_first() =~= chars@.subrange(
            from + 1,
            chars@.len() as int,
        ));
        from = from + 1;
    }
    let mut to: usize = chars.len();
    while to > from && blank(chars[to - 1])
        invariant
            from <= to <= chars@.len(),
            trimmed_back(chars@.subrange(from as int, to as int)) == trimmed(s@),
        decreases to - from,
    {
        assert(chars@.subrange(from as int, to as int).drop_last() =~= chars@.subrange(
            from as int,
            to - 1,
        ));
        to = to - 1;
    }
    string_of(&chars, from, to)
}

/// Whether `s` starts with `prefix`.
pub open spec fn has_prefix(s: Seq<char>, prefix: Seq<char>) -> bool {
    prefix.len() <= s.len() && s.take(prefix.len() as int) == prefix
}

/// What follows `prefix` in `s`, if `s` starts with it.
pub fn after_prefix(s: &str, prefix: &str) -> (r: Option<String>)
    ensures
        match r {
            Some(rest) => has_prefix(s@, prefix@) && rest@ == s@.skip(prefix@.len() as int),
            None => !has_prefix(s@, prefix@),
        },
{
    let chars = chars_of(s);
    let start = chars_of(prefix);
    if start.len() > chars.len() {
        return None;
    }
    let mut i: usize = 0;
    while i < start.len()
        invariant
            i <= start@.len() <= chars@.len(),
            chars@ == s@,
            start@ == prefix@,
            forall|k: int| 0 <= k < i ==> chars@[k] == start@[k],
        decreases start@.len() - i,
    {
        if chars[i] != start[i] {
            assert(s@.take(prefix@.len() as int)[i as int] != prefix@[i as int]);
            return None;
        }
        i = i + 1;
    }
    assert(s@.take(prefix@.len() as int) =~= prefix@);
    let rest = string_of(&chars, start.len(), chars.len());
    assert(rest@ =~= s@.skip(prefix@.len() as int));
    Some(rest)
}

/// How many characters of `s` stand in front of the first `c`: all of them where there is none.
pub open spec fn first_at(s: Seq<char>, c: char) -> nat
    decreases s.len(),
{
    if s.len() == 0 || s[0] == c {
        0
    } else {
        1 + first_at(s.drop_first(), c)
    }
}

/// What follows the last `c` in `s`: all of `s` where there is none.
pub open spec fn after_last(s: Seq<char>, c: char) -> Seq<char>
    decreases s.len(),
{
    if s.len() == 0 || s.last() == c {
        seq![]
    } else {
        after_last(s.drop_last(), c).push(s.last())
    }
}

pub(crate) proof fn lemma_first_at(s: Seq<char>, c: char, n: int)
    requires
        0 <= n <= s.len(),
        forall|i: int| 0 <= i < n ==> s[i] != c,
        n == s.len() || s[n] == c,
    ensures
        first_at(s, c) == n,
    decreases n,
{
    if n > 0 {
        assert forall|i: int| 0 <= i < n - 1 implies s.drop_first()[i] != c by {
            assert(s[i + 1] != c);
        }
        lemma_first_at(s.drop_first(), c, n - 1);
    }
}

/// Where the first `c` stands in `v`, or the length of `v`.
pub fn find_first(v: &Vec<char>, c: char) -> (n: usize)
    ensures
        n == first_at(v@, c),
        n <= v@.len(),
        n < v@.len() ==> v@[n as int] == c,
{
    let mut n: usize = 0;
    while n < v.len() && v[n] != c
        invariant
            n <= v@.len(),
            forall|i: int| 0 <= i < n ==> v@[i] != c,
        decreases v@.len() - n,
    {
        n = n + 1;
    }
    proof {
        lemma_first_at(v@, c, n as int);
    }
    n
}

pub(crate) proof fn lemma_after_last(s: Seq<char>, c: char, n: int)
    requires
        0 <= n <= s.len(),
        forall|i: int| n <= i < s.len() ==> s[i] != c,
        n == 0 || s[n - 1] == c,
    ensures
        after_last(s, c) == s.skip(n),
    decreases s.len(),
{
    if n == s.len() {
        assert(s.skip(n) =~= seq![]);
    } else {
        lemma_after_last(s.drop_last(), c, n);
        assert(s.skip(n) =~= s.drop_last().skip(n).push(s.last()));
    }
}

/// Where the text behind the last `c` starts in the part of `v` from `from` on.
pub fn find_last(v: &Vec<char>, from: usize, c: char) -> (n: usize)
    requires
        from <= v@.len(),
    ensures
        from <= n <= v@.len(),
        v@.skip(n as int) == after_last(v@.skip(from as int), c),
{
    let mut n: usize = v.len();
    while n > from && v[n - 1] != c
        invariant
            from <= n <= v@.len(),
            forall|i: int| n <= i < v@.len() ==> v@[i] != c,
        decreases n,
    {
        n = n - 1;
    }
    proof {
        let tail = v@.skip(from as int);
        lemma_after_last(tail, c, n - from);
        assert(tail.skip(n - from) =~= v@.skip(n as int));
    }
    n
}

/// Whether `a` comes before `b` in the order of a list of names: at the first character in which
/// they differ, `a` has the smaller one.
pub open spec fn sorts_before(a: Seq<char>, b: Seq<char>) -> bool
    decreases a.len(),
{
    if a.len() == 0 || b.len() == 0 {
        false
    } else if a[0] != b[0] {
        a[0] < b[0]
    } else {
        sorts_before(a.drop_first(), b.drop_first())
    }
}

/// What follows two texts that differ does not change their order.
pub proof fn lemma_sorts_by_front(a: Seq<char>, b: Seq<char>, x: Seq<char>, y: Seq<char>)
    requires
        sorts_before(a, b),
    ensures
        sorts_before(a + x, b + y),
    decreases a.len(),
{
    assert((a + x).drop_first() =~= a.drop_first() + x);
    assert((b + y).drop_first() =~= b.drop_first() + y);
    if a[0] == b[0] {
        lemma_sorts_by_front(a.drop_first(), b.drop_first(), x, y);
    }
}

/// What two texts have in front in common does not change their order.
pub proof fn lemma_sorts_by_back(front: Seq<char>, x: Seq<char>, y: Seq<char>)
    requires
        sorts_before(x, y),
    ensures
        sorts_before(front + x, front + y),
    decreases front.len(),
{
    if front.len() == 0 {
        assert(front + x =~= x);
        assert(front + y =~= y);
    } else {
        assert((front + x).drop_first() =~= front.drop_first() + x);
        assert((front + y).drop_first() =~= front.drop_first() + y);
        lemma_sorts_by_back(front.drop_first(), x, y);
    }
}

/// The last `width` decimal digits of `n`.
spec fn fixed(n: nat, width: nat) -> Seq<char>
    decreases width,
{
    if width == 0 {
        seq![]
    } else {
        fixed(n / 10, (width - 1) as nat).push(digit(n % 10))
    }
}

/// Ten to the power of `width`.
pub open spec fn ten_to(width: nat) -> nat
    decreases width,
{
    if width == 0 {
        1
    } else {
        10 * ten_to((width - 1) as nat)
    }
}

proof fn lemma_fixed_zero(width: nat)
    ensures
        fixed(0, width) == Seq::new(width, |i: int| '0'),
    decreases width,
{
    if width > 0 {
        lemma_fixed_zero((width - 1) as nat);
    }
    assert(fixed(0, width) =~= Seq::new(width, |i: int| '0'));
}

proof fn lemma_padded_is_fixed(n: nat, width: nat)
    requires
        n < ten_to(width),
        width > 0,
    ensures
        zero_padded(decimal(n), width) == fixed(n, width),
    decreases width,
{
    let less = (width - 1) as nat;
    if n < 10 {
        lemma_fixed_zero(less);
        assert(zero_padded(decimal(n), width) =~= fixed(n, width));
    } else {
        assert(less > 0) by {
            reveal_with_fuel(ten_to, 2);
        }
        lemma_padded_is_fixed(n / 10, less);
        assert(decimal(n) == decimal(n / 10).push(digit(n % 10)));
        assert(zero_padded(decimal(n), width) =~= zero_padded(decimal(n / 10), less).push(
            digit(n % 10),
        ));
    }
}

proof fn lemma_fixed_sorts(n: nat, m: nat, width: nat)
    requires
        n < m < ten_to(width),
    ensures
        sorts_before(fixed(n, width), fixed(m, width)),
    decreases width,
{
    let less = (width - 1) as nat;
    let (x, y) = (seq![digit(n % 10)], seq![digit(m % 10)]);
    assert(fixed(n, width) =~= fixed(n / 10, less) + x);
    assert(fixed(m, width) =~= fixed(m / 10, less) + y);
    if n / 10 < m / 10 {
        lemma_fixed_sorts(n / 10, m / 10, less);
        lemma_sorts_by_front(fixed(n / 10, less), fixed(m / 10, less), x, y);
    } else {
        assert(sorts_before(x, y));
        lemma_sorts_by_back(fixed(n / 10, less), x, y);
    }
}

/// Numbers that are padded to one width sort as they count.
pub proof fn padded_numbers_sort_as_they_count(n: nat, m: nat, width: nat)
    requires
        n < m < ten_to(width),
        width > 0,
    ensures
        sorts_before(zero_padded(decimal(n), width), zero_padded(decimal(m), width)),
{
    lemma_padded_is_fixed(n, width);
    lemma_padded_is_fixed(m, width);
    lemma_fixed_sorts(n, m, width);
}

/// Whether `part` stands somewhere in `whole`.
#[verifier::opaque]
pub open spec fn mentions(whole: Seq<char>, part: Seq<char>) -> bool {
    exists|i: int|
        0 <= i && i + part.len() <= whole.len() && #[trigger] whole.subrange(i, i + part.len())
            == part
}

// ---- what numerals mean --------------------------------------------------------------------

/// A decimal numeral grows by one digit behind, from `0` to `9`, for each step of ten.
pub proof fn a_decimal_numeral_is_written_digit_by_digit(n: nat, d: nat)
    requires
        d < 10,
    ensures
        decimal(d) == seq![('0' as nat + d) as char],
        n > 0 ==> decimal(10 * n + d) == decimal(n).push(('0' as nat + d) as char),
{
    assert((10 * n + d) / 10 == n && (10 * n + d) % 10 == d);
}

proof fn lemma_digit_reads_back(d: nat, radix: nat)
    requires
        d < radix <= 16,
    ensures
        digit_value(digit(d), radix) == Some(d),
        digit(d) != '+',
{
}

proof fn lemma_zeros_read_as_nothing(k: nat, digits: Seq<char>, radix: nat)
    requires
        radix >= 2,
    ensures
        digits_value(Seq::new(k, |i: int| '0') + digits, radix) == digits_value(digits, radix),
    decreases k + digits.len(),
{
    let zeros = Seq::new(k, |i: int| '0');
    let all = zeros + digits;
    if digits.len() > 0 {
        assert(all.drop_last() =~= zeros + digits.drop_last());
        assert(all.last() == digits.last());
        lemma_zeros_read_as_nothing(k, digits.drop_last(), radix);
    } else if k > 0 {
        let less = (k - 1) as nat;
        assert(all.drop_last() =~= Seq::new(less, |i: int| '0') + digits);
        assert(all.last() == '0');
        lemma_zeros_read_as_nothing(less, digits, radix);
        assert(0 * radix + 0 == 0) by (nonlinear_arith);
    } else {
        assert(all =~= digits);
    }
}

proof fn lemma_numeral_reads_back(n: nat, radix: nat)
    requires
        2 <= radix <= 16,
    ensures
        digits_value(numeral(n, radix), radix) == Some(n),
        numeral(n, radix).len() > 0,
        numeral(n, radix)[0] != '+',
    decreases n,
{
    if n < radix {
        lemma_digit_reads_back(n, radix);
        reveal_with_fuel(digits_value, 2);
        let s = seq![digit(n)];
        assert(s.drop_last() =~= seq![]);
        assert(0 * radix + n == n) by (nonlinear_arith);
    } else {
        assert(n / radix < n && n == (n / radix) * radix + n % radix && n % radix < radix)
            by (nonlinear_arith)
            requires
                n >= radix,
                radix >= 2,
        ;
        lemma_numeral_reads_back(n / radix, radix);
        lemma_digit_reads_back(n % radix, radix);
        let s = numeral(n, radix);
        assert(s.drop_last() =~= numeral(n / radix, radix));
        assert(s.last() == digit(n % radix));
    }
}

/// A number that was written is read back as itself, with a plus sign in front of it or zeros,
/// where it is not above the largest that is read.
pub proof fn a_number_is_read_back_as_it_was_written(n: nat, radix: nat, width: nat, max: nat)
    requires
        2 <= radix <= 16,
    ensures
        unsigned_value(zero_padded(numeral(n, radix), width), radix, max) == if n <= max {
            Some(n)
        } else {
            None
        },
        unsigned_value(seq!['+'] + numeral(n, radix), radix, max) == if n <= max {
            Some(n)
        } else {
            None
        },
{
    lemma_numeral_reads_back(n, radix);
    let plain = numeral(n, radix);
    let padded = zero_padded(plain, width);
    if plain.len() < width {
        lemma_zeros_read_as_nothing((width - plain.len()) as nat, plain, radix);
        assert(padded[0] == '0');
    }
    assert((seq!['+'] + plain).subrange(1, plain.len() as int + 1) =~= plain);
}

/// A text with anything but digits in it is no number, and neither is an empty one.
pub proof fn only_digits_make_a_number(s: Seq<char>, radix: nat, max: nat, i: int)
    requires
        radix <= 10,
        0 <= i < s.len(),
        !('0' <= s[i] <= '9'),
        i > 0 || s[i] != '+',
    ensures
        unsigned_value(s, radix, max) is None,
        unsigned_value(seq![], radix, max) is None,
        unsigned_value(seq!['+'], radix, max) is None,
{
    let digits = unsigned_digits(s);
    if s[0] == '+' {
        assert(digits[i - 1] == s[i]);
        lemma_no_digit(digits, radix, i - 1);
    } else {
        lemma_no_digit(digits, radix, i);
    }
    assert(seq!['+'].subrange(1, 1) =~= seq![]);
}

proof fn lemma_no_digit(s: Seq<char>, radix: nat, i: int)
    requires
        radix <= 10,
        0 <= i < s.len(),
        !('0' <= s[i] <= '9'),
    ensures
        digits_value(s, radix) is None,
    decreases s.len(),
{
    if i < s.len() - 1 {
        lemma_no_digit(s.drop_last(), radix, i);
    }
}

/// Trimming takes white space off both ends and nothing else.
pub proof fn trimming_takes_white_space_off_the_ends(s: Seq<char>) -> (ends: (int, int))
    ensures
        0 <= ends.0 <= ends.1 <= s.len(),
        trimmed(s) == s.subrange(ends.0, ends.1),
        forall|i: int| 0 <= i < ends.0 ==> is_blank(#[trigger] s[i]),
        forall|i: int| ends.1 <= i < s.len() ==> is_blank(#[trigger] s[i]),
        trimmed(s).len() > 0 ==> !is_blank(trimmed(s)[0]) && !is_blank(trimmed(s).last()),
{
    let from = lemma_trimmed_front(s);
    let t = trimmed_front(s);
    let to = lemma_trimmed_back(t);
    assert(t.subrange(0, to) =~= s.subrange(from, from + to));
    assert forall|i: int| from + to <= i < s.len() implies is_blank(#[trigger] s[i]) by {
        assert(t[i - from] == s[i]);
    }
    (from, from + to)
}

proof fn lemma_trimmed_front(s: Seq<char>) -> (from: int)
    ensures
        0 <= from <= s.len(),
        trimmed_front(s) == s.subrange(from, s.len() as int),
        forall|i: int| 0 <= i < from ==> is_blank(#[trigger] s[i]),
        trimmed_front(s).len() > 0 ==> !is_blank(trimmed_front(s)[0]),
    decreases s.len(),
{
    if s.len() > 0 && is_blank(s[0]) {
        let rest = s.drop_first();
        let from = lemma_trimmed_front(rest);
        assert(rest.subrange(from, rest.len() as int) =~= s.subrange(from + 1, s.len() as int));
        assert forall|i: int| 0 <= i < from + 1 implies is_blank(#[trigger] s[i]) by {
            if i > 0 {
                assert(rest[i - 1] == s[i]);
            }
        }
        from + 1
    } else {
        assert(s.subrange(0, s.len() as int) =~= s);
        0
    }
}

proof fn lemma_trimmed_back(s: Seq<char>) -> (to: int)
    ensures
        0 <= to <= s.len(),
        trimmed_back(s) == s.subrange(0, to),
        forall|i: int| to <= i < s.len() ==> is_blank(#[trigger] s[i]),
        trimmed_back(s).len() > 0 ==> !is_blank(trimmed_back(s).last()),
    decreases s.len(),
{
    if s.len() > 0 && is_blank(s.last()) {
        let rest = s.drop_last();
        let to = lemma_trimmed_back(rest);
        assert(rest.subrange(0, to) =~= s.subrange(0, to));
        assert forall|i: int| to <= i < s.len() implies is_blank(#[trigger] s[i]) by {
            if i < s.len() - 1 {
                assert(rest[i] == s[i]);
            }
        }
        to
    } else {
        assert(s.subrange(0, s.len() as int) =~= s);
        s.len() as int
    }
}

/// White space is what Unicode calls so: the space, the controls from tab to carriage return, and
/// the wider spaces; no letter, digit or sign of ASCII is.
pub proof fn no_visible_ascii_is_white_space(c: char)
    ensures
        '!' <= c <= '~' ==> !is_blank(c),
        c == ' ' || c == '\t' || c == '\n' || c == '\r' ==> is_blank(c),
{
}

/// A length of time is told in whole units where it is made of them, and a shorter one is never
/// told in a longer unit.
pub proof fn whole_units_are_told_without_a_fraction(n: nat)
    requires
        n > 0,
    ensures
        duration(n * 1_000_000_000) == decimal(n) + "s"@,
        n < 1000 ==> duration(n * 1_000_000) == decimal(n) + "ms"@,
        n < 1000 ==> duration(n * 1_000) == decimal(n) + "µs"@,
        n < 1000 ==> duration(n) == decimal(n) + "ns"@,
        duration(0) == decimal(0) + "ns"@,
{
    assert((n * 1_000_000_000) / 1_000_000_000 == n && (n * 1_000_000_000) % 1_000_000_000 == 0);
    assert(decimal(n) + seq![] + "s"@ =~= decimal(n) + "s"@);
    assert(decimal(n) + seq![] + "ms"@ =~= decimal(n) + "ms"@);
    assert(decimal(n) + seq![] + "µs"@ =~= decimal(n) + "µs"@);
}

/// Half a second and the like: the digits of the fraction are those of the next unit, down to the
/// last that is not zero.
pub proof fn a_fraction_of_tenths_has_one_digit(n: nat, tenths: nat)
    requires
        n > 0,
        0 < tenths < 10,
    ensures
        duration(n * 1_000_000_000 + tenths * 100_000_000) == decimal(n) + seq![
            '.',
            ('0' as nat + tenths) as char,
        ] + "s"@,
        n < 1000 ==> duration(n * 1_000_000 + tenths * 100_000) == decimal(n) + seq![
            '.',
            ('0' as nat + tenths) as char,
        ] + "ms"@,
{
    let whole = n * 1_000_000_000 + tenths * 100_000_000;
    assert(whole / 1_000_000_000 == n && whole % 1_000_000_000 == tenths * 100_000_000);
    let less = n * 1_000_000 + tenths * 100_000;
    assert(less / 1_000_000 == n && less % 1_000_000 == tenths * 100_000);
    reveal_with_fuel(fraction_digits, 2);
    assert((tenths * 100_000_000) / 100_000_000 == tenths && (tenths * 100_000_000) % 100_000_000
        == 0);
    assert((tenths * 100_000) / 100_000 == tenths && (tenths * 100_000) % 100_000 == 0);
    assert(fraction(tenths * 100_000_000, 1_000_000_000) =~= seq![
        '.',
        ('0' as nat + tenths) as char,
    ]);
    assert(fraction(tenths * 100_000, 1_000_000) =~= seq!['.', ('0' as nat + tenths) as char]);
}

/// A text begins with what is put in front of it, also where nothing follows, and with nothing else
/// of that length.
pub proof fn a_text_begins_with_what_is_in_front(front: Seq<char>, other: Seq<char>, rest: Seq<char>)
    ensures
        has_prefix(front + rest, front),
        other.len() == front.len() && has_prefix(front + rest, other) ==> other == front,
        other.len() > front.len() + rest.len() ==> !has_prefix(front + rest, other),
{
    assert((front + rest).take(front.len() as int) =~= front);
}

} // verus!

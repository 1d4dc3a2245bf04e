//! Decimal and hexadecimal text.

use vstd::prelude::*;
use vstd::string::StringExecFns;

verus! {

/// The character of a decimal or upper-case hexadecimal digit.
pub open spec fn digit(d: nat) -> char {
    if d < 10 {
        (48 + d) as char
    } else {
        (55 + d) as char
    }
}

/// `n` in decimal.
pub open spec fn nat_text(n: nat) -> Seq<char>
    decreases n,
{
    if n < 10 {
        seq![digit(n)]
    } else {
        nat_text(n / 10).push(digit(n % 10))
    }
}

/// `i` in decimal, with a minus sign if negative.
pub open spec fn int_text(i: int) -> Seq<char> {
    if i < 0 {
        seq!['-'] + nat_text((-i) as nat)
    } else {
        nat_text(i as nat)
    }
}

/// The last `width` upper-case hexadecimal digits of `v`.
pub open spec fn hex_text(v: nat, width: nat) -> Seq<char>
    decreases width,
{
    if width == 0 {
        Seq::empty()
    } else {
        hex_text(v / 16, (width - 1) as nat).push(digit(v % 16))
    }
}

/// The character of a lower-case hexadecimal digit.
pub open spec fn lower_digit(d: nat) -> char {
    if d < 10 {
        (48 + d) as char
    } else {
        (87 + d) as char
    }
}

/// `n` in lower-case hexadecimal, without leading zeros.
pub open spec fn lower_hex(n: nat) -> Seq<char>
    decreases n,
{
    if n < 16 {
        seq![lower_digit(n)]
    } else {
        lower_hex(n / 16).push(lower_digit(n % 16))
    }
}

/// The last `width` lower-case hexadecimal digits of `v`.
pub open spec fn lower_hex_padded(v: nat, width: nat) -> Seq<char>
    decreases width,
{
    if width == 0 {
        Seq::empty()
    } else {
        lower_hex_padded(v / 16, (width - 1) as nat).push(lower_digit(v % 16))
    }
}

/// The strings of `parts` with `sep` between them.
pub open spec fn joined(parts: Seq<Seq<char>>, sep: Seq<char>) -> Seq<char>
    decreases parts.len(),
{
    if parts.len() == 0 {
        Seq::empty()
    } else if parts.len() == 1 {
        parts[0]
    } else {
        joined(parts.drop_last(), sep) + sep + parts.last()
    }
}

/// The text of one digit.
fn digit_str(d: u8) -> (s: &'static str)
    requires
        d < 16,
    ensures
        s@ == seq![digit(d as nat)],
{
    proof {
        reveal_strlit("0");
        reveal_strlit("1");
        reveal_strlit("2");
        reveal_strlit("3");
        reveal_strlit("4");
        reveal_strlit("5");
        reveal_strlit("6");
        reveal_strlit("7");
        reveal_strlit("8");
        reveal_strlit("9");
        reveal_strlit("A");
        reveal_strlit("B");
        reveal_strlit("C");
        reveal_strlit("D");
        reveal_strlit("E");
        reveal_strlit("F");
    }
    let s: &'static str = if d == 0 {
        "0"
    } else if d == 1 {
        "1"
    } else if d == 2 {
        "2"
    } else if d == 3 {
        "3"
    } else if d == 4 {
        "4"
    } else if d == 5 {
        "5"
    } else if d == 6 {
        "6"
    } else if d == 7 {
        "7"
    } else if d == 8 {
        "8"
    } else if d == 9 {
        "9"
    } else if d == 10 {
        "A"
    } else if d == 11 {
        "B"
    } else if d == 12 {
        "C"
    } else if d == 13 {
        "D"
    } else if d == 14 {
        "E"
    } else {
        "F"
    };
    assert(s@ =~= seq![digit(d as nat)]);
    s
}

/// The text of one digit, in lower case.
fn lower_digit_str(d: u8) -> (s: &'static str)
    requires
        d < 16,
    ensures
        s@ == seq![lower_digit(d as nat)],
{
    proof {
        reveal_strlit("a");
        reveal_strlit("b");
        reveal_strlit("c");
        reveal_strlit("d");
        reveal_strlit("e");
        reveal_strlit("f");
    }
    if d < 10 {
        return digit_str(d);
    }
    let s: &'static str = if d == 10 {
        "a"
    } else if d == 11 {
        "b"
    } else if d == 12 {
        "c"
    } else if d == 13 {
        "d"
    } else if d == 14 {
        "e"
    } else {
        "f"
    };
    assert(s@ =~= seq![lower_digit(d as nat)]);
    s
}

/// Appends `v` in decimal.
pub fn push_dec(out: &mut String, v: u64)
    ensures
        final(out)@ == old(out)@ + nat_text(v as nat),
    decreases v,
{
    if v < 10 {
        out.append(digit_str(v as u8));
    } else {
        push_dec(out, v / 10);
        out.append(digit_str((v % 10) as u8));
        assert(out@ =~= old(out)@ + nat_text(v as nat));
    }
}

/// Appends `v` in lower-case hexadecimal, without leading zeros.
pub fn push_lower_hex(out: &mut String, v: u32)
    ensures
        final(out)@ == old(out)@ + lower_hex(v as nat),
    decreases v,
{
    if v < 16 {
        out.append(lower_digit_str(v as u8));
    } else {
        push_lower_hex(out, v / 16);
        out.append(lower_digit_str((v % 16) as u8));
        assert(out@ =~= old(out)@ + lower_hex(v as nat));
    }
}

/// Appends the last `width` lower-case hexadecimal digits of `v`.
pub fn push_lower_hex_padded(out: &mut String, v: u32, width: u32)
    ensures
        final(out)@ == old(out)@ + lower_hex_padded(v as nat, width as nat),
    decreases width,
{
    if width == 0 {
        assert(out@ =~= old(out)@ + lower_hex_padded(v as nat, 0));
    } else {
        push_lower_hex_padded(out, v / 16, width - 1);
        out.append(lower_digit_str((v % 16) as u8));
        assert(out@ =~= old(out)@ + lower_hex_padded(v as nat, width as nat));
    }
}

/// Appends `v` in decimal, with a minus sign if negative.
pub fn push_int(out: &mut String, v: i32)
    ensures
        final(out)@ == old(out)@ + int_text(v as int),
{
    if v < 0 {
        proof {
            reveal_strlit("-");
            assert("-"@ =~= seq!['-']);
        }
        out.append("-");
        push_dec(out, (-(v as i64)) as u64);
        assert(out@ =~= old(out)@ + int_text(v as int));
    } else {
        push_dec(out, v as u64);
    }
}

/// Appends the last `width` upper-case hexadecimal digits of `v`.
pub fn push_hex(out: &mut String, v: u32, width: u32)
    ensures
        final(out)@ == old(out)@ + hex_text(v as nat, width as nat),
    decreases width,
{
    if width == 0 {
        assert(out@ =~= old(out)@ + hex_text(v as nat, 0));
    } else {
        push_hex(out, v / 16, width - 1);
        out.append(digit_str((v % 16) as u8));
        assert(out@ =~= old(out)@ + hex_text(v as nat, width as nat));
    }
}

/// The characters of a string.
pub fn chars_of(s: &str) -> (v: Vec<char>)
    ensures
        v@ == s@,
{
    let mut v: Vec<char> = Vec::new();
    for c in it: s.chars()
        invariant
            v@ == it.seq().take(it.index()),
            it.seq() == s@,
    {
        v.push(c);
    }
    assert(s@.take(s@.len() as int) =~= s@);
    v
}

/// Whether two strings are equal.
pub fn same_text(a: &str, b: &str) -> (same: bool)
    ensures
        same == (a@ == b@),
{
    let x = chars_of(a);
    let y = chars_of(b);
    same_chars(x.as_slice(), y.as_slice())
}

/// Whether two runs of characters are equal.
pub fn same_chars(x: &[char], y: &[char]) -> (same: bool)
    ensures
        same == (x@ == y@),
{
    if x.len() != y.len() {
        return false;
    }
    let mut i: usize = 0;
    while i < x.len()
        invariant
            i <= x@.len(),
            x@.len() == y@.len(),
            forall|k: int| 0 <= k < i ==> x@[k] == y@[k],
        decreases x@.len() - i,
    {
        if x[i] != y[i] {
            return false;
        }
        i += 1;
    }
    assert(x@ =~= y@);
    true
}

/// Whether `s` starts with `prefix`.
pub fn has_prefix(s: &str, prefix: &str) -> (r: bool)
    ensures
        r == prefix@.is_prefix_of(s@),
{
    let x = chars_of(s);
    let y = chars_of(prefix);
    if x.len() < y.len() {
        return false;
    }
    let head = vstd::slice::slice_subrange(x.as_slice(), 0, y.len());
    same_chars(head, y.as_slice())
}

/// The pieces of `s` between occurrences of `c`.
pub open spec fn split(s: Seq<char>, c: char) -> Seq<Seq<char>>
    decreases s.len(),
{
    if s.len() == 0 {
        seq![Seq::empty()]
    } else {
        let front = split(s.drop_last(), c);
        if s.last() == c {
            front.push(Seq::empty())
        } else {
            front.update(front.len() - 1, front.last().push(s.last()))
        }
    }
}

/// `s` without `c`.
pub open spec fn lacks(s: Seq<char>, c: char) -> bool {
    forall|i: int| 0 <= i < s.len() ==> s[i] != c
}

pub proof fn split_is_never_empty(s: Seq<char>, c: char)
    ensures
        split(s, c).len() >= 1,
    decreases s.len(),
{
    if s.len() > 0 {
        split_is_never_empty(s.drop_last(), c);
    }
}

/// A string without the separator is one piece.
pub proof fn split_without_separator(s: Seq<char>, c: char)
    requires
        lacks(s, c),
    ensures
        split(s, c) == seq![s],
    decreases s.len(),
{
    if s.len() > 0 {
        assert(lacks(s.drop_last(), c));
        split_without_separator(s.drop_last(), c);
        assert(s.drop_last().push(s.last()) =~= s);
        assert(split(s, c) =~= seq![s]);
    } else {
        assert(s =~= Seq::empty());
    }
}

/// The piece behind the last separator is split off whole.
pub proof fn split_last_piece(a: Seq<char>, b: Seq<char>, c: char)
    requires
        lacks(b, c),
    ensures
        split(a + seq![c] + b, c) == split(a, c).push(b),
    decreases b.len(),
{
    let s = a + seq![c] + b;
    split_is_never_empty(a, c);
    if b.len() == 0 {
        assert(s.drop_last() =~= a);
        assert(b =~= Seq::empty());
    } else {
        assert(lacks(b.drop_last(), c));
        split_last_piece(a, b.drop_last(), c);
        assert(s.drop_last() =~= a + seq![c] + b.drop_last());
        assert(s.last() == b.last());
        assert(b.drop_last().push(b.last()) =~= b);
        assert(split(s, c) =~= split(a, c).push(b));
    }
}

/// `r` marks off the pieces `parts` of `chars`.
pub open spec fn ranges_of(r: Seq<(usize, usize)>, chars: Seq<char>, parts: Seq<Seq<char>>) -> bool {
    &&& r.len() == parts.len()
    &&& forall|i: int|
        #![trigger r[i]]
        #![trigger parts[i]]
        0 <= i < r.len() ==> {
            &&& r[i].0 <= r[i].1 <= chars.len()
            &&& chars.subrange(r[i].0 as int, r[i].1 as int) == parts[i]
        }
}

/// Marks off the pieces of `chars[from..to]` between occurrences of `c`.
pub fn split_ranges(chars: &[char], from: usize, to: usize, c: char) -> (r: Vec<(usize, usize)>)
    requires
        from <= to <= chars@.len(),
    ensures
        ranges_of(r@, chars@, split(chars@.subrange(from as int, to as int), c)),
{
    let mut r: Vec<(usize, usize)> = Vec::new();
    let mut start: usize = from;
    let mut i: usize = from;
    proof {
        assert(chars@.subrange(from as int, from as int) =~= Seq::empty());
    }
    while i < to
        invariant
            from <= start <= i <= to <= chars@.len(),
            split(chars@.subrange(from as int, i as int), c).len() == r@.len() + 1,
            split(chars@.subrange(from as int, i as int), c).last() == chars@.subrange(
                start as int,
                i as int,
            ),
            ranges_of(
                r@,
                chars@,
                split(chars@.subrange(from as int, i as int), c).drop_last(),
            ),
        decreases to - i,
    {
        let ghost before = split(chars@.subrange(from as int, i as int), c);
        let ghost next = chars@.subrange(from as int, i + 1);
        proof {
            assert(next.drop_last() =~= chars@.subrange(from as int, i as int));
            assert(next.last() == chars@[i as int]);
        }
        if chars[i] == c {
            r.push((start, i));
            start = i + 1;
            proof {
                assert(split(next, c) =~= before.push(Seq::empty()));
                assert(split(next, c).drop_last() =~= before);
                assert(chars@.subrange(start as int, i + 1) =~= Seq::empty());
            }
        } else {
            proof {
                assert(chars@.subrange(start as int, i + 1) =~= chars@.subrange(
                    start as int,
                    i as int,
                ).push(chars@[i as int]));
                assert(split(next, c).drop_last() =~= before.drop_last());
            }
        }
        i += 1;
    }
    let ghost all = split(chars@.subrange(from as int, to as int), c);
    r.push((start, to));
    assert(all.drop_last().push(all.last()) =~= all);
    r
}

/// The place of the first `c`; the length if there is none.
pub open spec fn first_place(s: Seq<char>, c: char) -> int
    decreases s.len(),
{
    if s.len() == 0 || s[0] == c {
        0
    } else {
        1 + first_place(s.subrange(1, s.len() as int), c)
    }
}

pub proof fn first_place_is_first(s: Seq<char>, c: char, k: int)
    requires
        0 <= k <= s.len(),
        forall|i: int| 0 <= i < k ==> s[i] != c,
        k < s.len() ==> s[k] == c,
    ensures
        first_place(s, c) == k,
    decreases s.len(),
{
    if k > 0 {
        let t = s.subrange(1, s.len() as int);
        assert(s[0] != c);
        assert forall|i: int| 0 <= i < k - 1 implies t[i] != c by {
            assert(t[i] == s[i + 1]);
        }
        first_place_is_first(t, c, k - 1);
    }
}

/// Finds the first `c` in `chars[from..to]`, counted from `from`.
pub fn find_char(chars: &[char], from: usize, to: usize, c: char) -> (k: usize)
    requires
        from <= to <= chars@.len(),
    ensures
        k == first_place(chars@.subrange(from as int, to as int), c),
        k <= to - from,
{
    let ghost s = chars@.subrange(from as int, to as int);
    let mut k: usize = 0;
    while k < to - from && chars[from + k] != c
        invariant
            from <= to <= chars@.len(),
            k <= to - from,
            s == chars@.subrange(from as int, to as int),
            forall|i: int| 0 <= i < k ==> s[i] != c,
        decreases to - from - k,
    {
        k += 1;
    }
    proof {
        first_place_is_first(s, c, k as int);
    }
    k
}

/// Unicode white space.
pub open spec fn is_space(c: char) -> bool {
    let n = c as u32;
    ||| 9 <= n <= 13
    ||| n == 0x20
    ||| n == 0x85
    ||| n == 0xa0
    ||| n == 0x1680
    ||| 0x2000 <= n <= 0x200a
    ||| n == 0x2028
    ||| n == 0x2029
    ||| n == 0x202f
    ||| n == 0x205f
    ||| n == 0x3000
}

/// `s` without white space at its start.
pub open spec fn trim_start(s: Seq<char>) -> Seq<char>
    decreases s.len(),
{
    if s.len() > 0 && is_space(s[0]) {
        trim_start(s.subrange(1, s.len() as int))
    } else {
        s
    }
}

/// `s` without white space at its end.
pub open spec fn trim_end(s: Seq<char>) -> Seq<char>
    decreases s.len(),
{
    if s.len() > 0 && is_space(s.last()) {
        trim_end(s.drop_last())
    } else {
        s
    }
}

/// `s` without white space at either end.
pub open spec fn trim(s: Seq<char>) -> Seq<char> {
    trim_end(trim_start(s))
}

/// Trimming a string that neither starts nor ends in white space changes
/// nothing.
pub proof fn trim_of_trimmed(s: Seq<char>)
    requires
        s.len() > 0 ==> !is_space(s[0]) && !is_space(s.last()),
    ensures
        trim(s) == s,
{
}

fn white(c: char) -> (r: bool)
    ensures
        r == is_space(c),
{
    let n: u32 = c as u32;
    (9 <= n && n <= 13) || n == 0x20 || n == 0x85 || n == 0xa0 || n == 0x1680 || (0x2000 <= n && n
        <= 0x200a) || n == 0x2028 || n == 0x2029 || n == 0x202f || n == 0x205f || n == 0x3000
}

/// Narrows `from..to` to the part without white space at either end.
pub fn trim_range(chars: &[char], from: usize, to: usize) -> (r: (usize, usize))
    requires
        from <= to <= chars@.len(),
    ensures
        from <= r.0 <= r.1 <= to,
        chars@.subrange(r.0 as int, r.1 as int) == trim(
            chars@.subrange(from as int, to as int),
        ),
{
    let ghost s = chars@.subrange(from as int, to as int);
    let mut a: usize = from;
    while a < to && white(chars[a])
        invariant
            from <= a <= to <= chars@.len(),
            trim_start(chars@.subrange(a as int, to as int)) == trim_start(s),
        decreases to - a,
    {
        let ghost t = chars@.subrange(a as int, to as int);
        a += 1;
        assert(t.subrange(1, t.len() as int) =~= chars@.subrange(a as int, to as int));
    }
    assert(chars@.subrange(a as int, to as int) == trim_start(s));
    let mut b: usize = to;
    while a < b && white(chars[b - 1])
        invariant
            from <= a <= b <= to <= chars@.len(),
            trim_end(chars@.subrange(a as int, b as int)) == trim_end(trim_start(s)),
        decreases b - a,
    {
        let ghost t = chars@.subrange(a as int, b as int);
        b -= 1;
        assert(t.drop_last() =~= chars@.subrange(a as int, b as int));
    }
    (a, b)
}

/// Whether a character is a decimal digit.
pub open spec fn is_digit(c: char) -> bool {
    48 <= c as u32 <= 57
}

/// All of `s` are decimal digits.
pub open spec fn all_digits(s: Seq<char>) -> bool {
    forall|i: int| 0 <= i < s.len() ==> is_digit(s[i])
}

/// The number that decimal digits denote.
pub open spec fn digits_value(s: Seq<char>) -> nat
    decreases s.len(),
{
    if s.len() == 0 {
        0
    } else {
        10 * digits_value(s.drop_last()) + (s.last() as u32 - 48) as nat
    }
}

/// `s` without one leading plus sign.
pub open spec fn unsigned_part(s: Seq<char>) -> Seq<char> {
    if s.len() > 0 && s[0] == '+' {
        s.subrange(1, s.len() as int)
    } else {
        s
    }
}

/// The number not above `max` that `s` denotes in decimal, an optional plus
/// sign in front.
pub open spec fn read_nat(s: Seq<char>, max: nat) -> Option<nat> {
    let d = unsigned_part(s);
    if d.len() > 0 && all_digits(d) && digits_value(d) <= max {
        Some(digits_value(d))
    } else {
        None
    }
}

proof fn longer_digits_are_no_less(s: Seq<char>, k: int)
    requires
        all_digits(s),
        0 <= k <= s.len(),
    ensures
        digits_value(s.take(k)) <= digits_value(s),
    decreases s.len() - k,
{
    if k < s.len() {
        let t = s.take(k + 1);
        assert(t.drop_last() =~= s.take(k));
        longer_digits_are_no_less(s, k + 1);
    } else {
        assert(s.take(k) =~= s);
    }
}

/// Reads the decimal number in `chars[from..to]`, if it is one and not above
/// `max`.
pub fn parse_number(chars: &[char], from: usize, to: usize, max: u64) -> (r: Option<u64>)
    requires
        from <= to <= chars@.len(),
    ensures
        match r {
            Some(n) => read_nat(chars@.subrange(from as int, to as int), max as nat) == Some(
                n as nat,
            ),
            None => read_nat(chars@.subrange(from as int, to as int), max as nat) is None,
        },
{
    let ghost s = chars@.subrange(from as int, to as int);
    let mut start: usize = from;
    if from < to && chars[from] == '+' {
        start = from + 1;
    }
    let ghost d = chars@.subrange(start as int, to as int);
    proof {
        assert(d =~= unsigned_part(s));
    }
    if start == to {
        return None;
    }
    let mut n: u64 = 0;
    let mut i: usize = start;
    while i < to
        invariant
            from <= start <= i <= to <= chars@.len(),
            d == chars@.subrange(start as int, to as int),
            n == digits_value(d.take(i - start)),
            n <= max,
            d == unsigned_part(s),
            s == chars@.subrange(from as int, to as int),
            forall|k: int| 0 <= k < i - start ==> is_digit(d[k]),
        decreases to - i,
    {
        let c: u32 = chars[i] as u32;
        proof {
            assert(d[i - start] == chars@[i as int]);
            assert(d.take(i - start + 1).drop_last() =~= d.take(i - start));
        }
        if c < 48 || c > 57 {
            assert(!is_digit(d[i - start]));
            return None;
        }
        let v: u64 = (c - 48) as u64;
        let wide: u128 = 10 * (n as u128) + v as u128;
        if wide > max as u128 {
            proof {
                if all_digits(d) {
                    longer_digits_are_no_less(d, i - start + 1);
                }
            }
            return None;
        }
        n = wide as u64;
        i += 1;
    }
    proof {
        assert(d.take(to - start) =~= d);
    }
    Some(n)
}

/// A number written in decimal reads back as itself.
pub proof fn decimal_round_trip(n: nat)
    ensures
        nat_text(n).len() > 0,
        all_digits(nat_text(n)),
        digits_value(nat_text(n)) == n,
    decreases n,
{
    if n >= 10 {
        decimal_round_trip(n / 10);
        assert(nat_text(n).drop_last() =~= nat_text(n / 10));
        assert(nat_text(n).last() == digit(n % 10));
        assert(digit(n % 10) as u32 == 48 + n % 10);
        assert(n == 10 * (n / 10) + n % 10);
    } else {
        assert(nat_text(n).drop_last() =~= Seq::empty());
        assert(nat_text(n).last() == digit(n));
        assert(digit(n) as u32 == 48 + n);
        assert(digits_value(nat_text(n).drop_last()) == 0);
    }
}

} // verus!

//! Character-level helpers: decimal numerals, hexadecimal bytes and string building.

use vstd::prelude::*;

verus! {

broadcast use vstd::string::group_string_axioms;

/// Appends one character to a string.
///
/// Trusted: calls `String::push`, documented as appending the given `char` to the end
/// of the string; the contract states exactly that over the character sequences.
#[verifier::external_body]
fn push_char(s: &mut String, c: char)
    ensures
        final(s)@ == old(s)@.push(c),
{
    s.push(c);
}

/// The characters of a string slice, collected into a vector.
pub fn chars_of(s: &str) -> (v: Vec<char>)
    ensures
        v@ == s@,
{
    let mut v: Vec<char> = Vec::new();
    for c in it: s.chars()
        invariant
            v@ == it.seq().take(it.index() as int),
            it.seq() == s@,
    {
        v.push(c);
    }
    v
}

/// Builds a string from a sequence of characters.
pub fn string_from_chars(cs: &Vec<char>) -> (s: String)
    ensures
        s@ == cs@,
{
    let mut s = String::new();
    let mut i: usize = 0;
    while i < cs.len()
        invariant
            i <= cs.len(),
            s@ == cs@.take(i as int),
        decreases cs.len() - i,
    {
        push_char(&mut s, cs[i]);
        proof {
            assert(cs@.take(i as int).push(cs@[i as int]) =~= cs@.take(i + 1));
        }
        i = i + 1;
    }
    proof {
        assert(cs@.take(cs.len() as int) =~= cs@);
    }
    s
}


/// Whether two string slices hold the same characters.
pub fn str_equals(a: &str, b: &str) -> (r: bool)
    ensures
        r == (a@ == b@),
{
    let x = chars_of(a);
    let y = chars_of(b);
    if x.len() != y.len() {
        return false;
    }
    let mut i: usize = 0;
    while i < x.len()
        invariant
            x@ == a@,
            y@ == b@,
            x.len() == y.len(),
            i <= x.len(),
            forall|j: int| 0 <= j < i ==> x@[j] == y@[j],
        decreases x.len() - i,
    {
        if x[i] != y[i] {
            return false;
        }
        i = i + 1;
    }
    proof {
        assert(x@ =~= y@);
    }
    true
}

// ---------------------------------------------------------------------------
// Decimal numerals
// ---------------------------------------------------------------------------

/// The character of a decimal digit.
pub open spec fn digit_char(d: nat) -> char {
    if d == 0 { '0' }
    else if d == 1 { '1' }
    else if d == 2 { '2' }
    else if d == 3 { '3' }
    else if d == 4 { '4' }
    else if d == 5 { '5' }
    else if d == 6 { '6' }
    else if d == 7 { '7' }
    else if d == 8 { '8' }
    else { '9' }
}

/// Whether a character is an ASCII decimal digit.
pub open spec fn is_digit(c: char) -> bool {
    '0' <= c && c <= '9'
}

/// The value of a decimal digit character.
pub open spec fn digit_value(c: char) -> nat {
    (c as int - '0' as int) as nat
}

/// Whether every character of `s` is a decimal digit.
pub open spec fn all_digits(s: Seq<char>) -> bool {
    forall|i: int| 0 <= i < s.len() ==> is_digit(#[trigger] s[i])
}

/// The value of a string of decimal digits, most significant first.
pub open spec fn decimal_value(s: Seq<char>) -> nat
    decreases s.len(),
{
    if s.len() == 0 {
        0
    } else {
        decimal_value(s.drop_last()) * 10 + digit_value(s.last())
    }
}

/// The shortest decimal numeral of `n`, as `to_string` prints it.
pub open spec fn decimal_of(n: nat) -> Seq<char>
    decreases n,
{
    if n < 10 {
        seq![digit_char(n)]
    } else {
        decimal_of(n / 10).push(digit_char(n % 10))
    }
}

/// The numeral of a signed integer: a `-` in front of negative values.
pub open spec fn signed_decimal_of(v: int) -> Seq<char> {
    if v < 0 {
        seq!['-'] + decimal_of((-v) as nat)
    } else {
        decimal_of(v as nat)
    }
}

/// What `str::parse` gives for an unsigned integer type whose largest value is `max`:
/// an optional `+`, then at least one digit, and a value no larger than `max`.
pub open spec fn parse_unsigned_spec(s: Seq<char>, max: nat) -> Option<nat> {
    let digits = if s.len() > 0 && s[0] == '+' { s.drop_first() } else { s };
    if digits.len() > 0 && all_digits(digits) && decimal_value(digits) <= max {
        Some(decimal_value(digits))
    } else {
        None
    }
}

/// What `str::parse::<i64>` gives: an optional sign, then at least one digit, within range.
pub open spec fn parse_i64_spec(s: Seq<char>) -> Option<int> {
    if s.len() > 0 && s[0] == '-' {
        let digits = s.drop_first();
        if digits.len() > 0 && all_digits(digits) && decimal_value(digits) <= 0x8000_0000_0000_0000 {
            Some(-decimal_value(digits))
        } else {
            None
        }
    } else {
        match parse_unsigned_spec(s, 0x7fff_ffff_ffff_ffff) {
            Some(v) => Some(v as int),
            None => None,
        }
    }
}

proof fn lemma_digit_char(d: nat)
    requires
        d < 10,
    ensures
        is_digit(digit_char(d)),
        digit_value(digit_char(d)) == d,
{
}

/// The numeral of `n` is a non-empty digit string whose value is `n`.
pub proof fn lemma_decimal_of(n: nat)
    ensures
        decimal_of(n).len() > 0,
        all_digits(decimal_of(n)),
        decimal_value(decimal_of(n)) == n,
        decimal_of(n)[0] != '+',
        decimal_of(n)[0] != '-',
    decreases n,
{
    if n < 10 {
        lemma_digit_char(n);
        assert(decimal_of(n).drop_last() =~= Seq::<char>::empty());
        assert(decimal_value(Seq::<char>::empty()) == 0);
    } else {
        lemma_decimal_of(n / 10);
        lemma_digit_char(n % 10);
        let s = decimal_of(n);
        assert(s.drop_last() =~= decimal_of(n / 10));
        assert(s.last() == digit_char(n % 10));
        assert(decimal_value(s) == decimal_value(decimal_of(n / 10)) * 10 + digit_value(digit_char(n % 10)));
        assert(n == (n / 10) * 10 + n % 10);
        assert forall|i: int| 0 <= i < s.len() implies is_digit(#[trigger] s[i]) by {
            if i < s.len() - 1 {
                assert(s[i] == decimal_of(n / 10)[i]);
            }
        }
    }
}

/// Decimal parsing inverts decimal printing.
pub proof fn lemma_parse_decimal_of(n: nat, max: nat)
    requires
        n <= max,
    ensures
        parse_unsigned_spec(decimal_of(n), max) == Some(n),
{
    lemma_decimal_of(n);
}

/// Signed decimal parsing inverts signed decimal printing on the `i64` range.
pub proof fn lemma_parse_signed_decimal_of(v: int)
    requires
        i64::MIN <= v <= i64::MAX,
    ensures
        parse_i64_spec(signed_decimal_of(v)) == Some(v),
{
    if v < 0 {
        lemma_decimal_of((-v) as nat);
        assert((seq!['-'] + decimal_of((-v) as nat)).drop_first() =~= decimal_of((-v) as nat));
    } else {
        lemma_decimal_of(v as nat);
    }
}

proof fn lemma_decimal_value_prefix(s: Seq<char>, k: int)
    requires
        all_digits(s),
        0 <= k <= s.len(),
    ensures
        decimal_value(s.take(k)) <= decimal_value(s),
    decreases s.len() - k,
{
    if k < s.len() {
        lemma_decimal_value_prefix(s, k + 1);
        assert(s.take(k + 1).drop_last() =~= s.take(k));
    } else {
        assert(s.take(k) =~= s);
    }
}

fn digit_to_char(d: u8) -> (c: char)
    requires
        d < 10,
    ensures
        c == digit_char(d as nat),
{
    if d == 0 { '0' }
    else if d == 1 { '1' }
    else if d == 2 { '2' }
    else if d == 3 { '3' }
    else if d == 4 { '4' }
    else if d == 5 { '5' }
    else if d == 6 { '6' }
    else if d == 7 { '7' }
    else if d == 8 { '8' }
    else { '9' }
}

/// Appends the decimal numeral of `n` to `out`.
pub fn push_decimal(out: &mut Vec<char>, n: u128)
    ensures
        final(out)@ == old(out)@ + decimal_of(n as nat),
    decreases n,
{
    if n >= 10 {
        push_decimal(out, n / 10);
    }
    out.push(digit_to_char((n % 10) as u8));
    proof {
        if n < 10 {
            assert(decimal_of(n as nat) =~= seq![digit_char(n as nat)]);
        }
    }
}

/// The decimal numeral of an unsigned value.
pub fn decimal_string(n: u128) -> (s: String)
    ensures
        s@ == decimal_of(n as nat),
{
    let mut v: Vec<char> = Vec::new();
    push_decimal(&mut v, n);
    proof {
        assert(v@ =~= decimal_of(n as nat));
    }
    string_from_chars(&v)
}

/// The decimal numeral of a signed value, with `-` in front of negative values.
pub fn signed_decimal_string(v: i64) -> (s: String)
    ensures
        s@ == signed_decimal_of(v as int),
{
    let mut out: Vec<char> = Vec::new();
    if v < 0 {
        out.push('-');
        let magnitude: u128 = (0i128 - (v as i128)) as u128;
        push_decimal(&mut out, magnitude);
    } else {
        push_decimal(&mut out, v as u128);
    }
    proof {
        assert(out@ =~= signed_decimal_of(v as int));
    }
    string_from_chars(&out)
}

/// Parses `cs[start..end]` as a non-empty digit string of value at most `max`.
fn parse_digits(cs: &Vec<char>, start: usize, end: usize, max: u128) -> (r: Option<u128>)
    requires
        start <= end <= cs.len(),
    ensures
        ({
            let digits = cs@.subrange(start as int, end as int);
            r == if digits.len() > 0 && all_digits(digits) && decimal_value(digits) <= max {
                Some(decimal_value(digits) as u128)
            } else {
                None::<u128>
            }
        }),
{
    let ghost digits = cs@.subrange(start as int, end as int);
    if start == end {
        return None;
    }
    let mut acc: u128 = 0;
    let mut i: usize = start;
    while i < end
        invariant
            start <= i <= end,
            end <= cs.len(),
            digits == cs@.subrange(start as int, end as int),
            all_digits(digits.take(i - start)),
            acc as nat == decimal_value(digits.take(i - start)),
            acc <= max,
        decreases end - i,
    {
        let c = cs[i];
        if !('0' <= c && c <= '9') {
            proof {
                assert(digits[i - start] == c);
            }
            return None;
        }
        let d: u128 = ((c as u32) - ('0' as u32)) as u128;
        proof {
            assert(digits.take(i + 1 - start).drop_last() =~= digits.take(i - start));
            assert(digits.take(i + 1 - start).last() == c);
        }
        if d > max || acc > (max - d) / 10 {
            proof {
                assert(acc * 10 + d > max) by (nonlinear_arith)
                    requires
                        d > max || acc > (max - d) / 10,
                        d <= 9,
                {
                }
                let longer = digits.take(i + 1 - start);
                if all_digits(digits) {
                    lemma_decimal_value_prefix(digits, i + 1 - start);
                }
            }
            return None;
        }
        proof {
            assert(acc * 10 + d <= max) by (nonlinear_arith)
                requires
                    acc <= (max - d) / 10,
                    d <= max,
            {
            }
        }
        acc = acc * 10 + d;
        i = i + 1;
        proof {
            assert forall|j: int| 0 <= j < i - start implies is_digit(#[trigger] digits.take(i - start)[j]) by {
                if j < i - 1 - start {
                    assert(digits.take(i - start)[j] == digits.take(i - 1 - start)[j]);
                }
            }
        }
    }
    proof {
        assert(digits.take(end - start) =~= digits);
    }
    Some(acc)
}


/// Parses an unsigned decimal integer no larger than `max`, as `str::parse` does.
pub fn parse_unsigned(s: &str, max: u128) -> (r: Option<u128>)
    ensures
        r matches Some(v) ==> parse_unsigned_spec(s@, max as nat) == Some(v as nat),
        r is None ==> parse_unsigned_spec(s@, max as nat) is None,
{
    let cs = chars_of(s);
    proof {
        assert(cs@.subrange(0, cs@.len() as int) =~= s@);
    }
    parse_unsigned_range(&cs, 0, cs.len(), max)
}

/// Parses `cs[start..end]` as an unsigned decimal integer no larger than `max`.
pub fn parse_unsigned_range(cs: &Vec<char>, start: usize, end: usize, max: u128) -> (r: Option<u128>)
    requires
        start <= end <= cs.len(),
    ensures
        r matches Some(v) ==> parse_unsigned_spec(cs@.subrange(start as int, end as int), max as nat) == Some(v as nat),
        r is None ==> parse_unsigned_spec(cs@.subrange(start as int, end as int), max as nat) is None,
{
    let ghost s = cs@.subrange(start as int, end as int);
    if start < end && cs[start] == '+' {
        proof {
            assert(cs@.subrange(start + 1, end as int) =~= s.drop_first());
        }
        parse_digits(cs, start + 1, end, max)
    } else {
        parse_digits(cs, start, end, max)
    }
}

/// Parses a signed decimal `i64`, as `str::parse::<i64>` does.
pub fn parse_signed(s: &str) -> (r: Option<i64>)
    ensures
        r matches Some(v) ==> parse_i64_spec(s@) == Some(v as int),
        r is None ==> parse_i64_spec(s@) is None,
{
    let cs = chars_of(s);
    if cs.len() > 0 && cs[0] == '-' {
        proof {
            assert(cs@.subrange(1, cs.len() as int) =~= s@.drop_first());
        }
        match parse_digits(&cs, 1, cs.len(), 0x8000_0000_0000_0000) {
            Some(m) => {
                let v: i128 = 0i128 - (m as i128);
                Some(v as i64)
            },
            None => None,
        }
    } else {
        match parse_unsigned(s, 0x7fff_ffff_ffff_ffff) {
            Some(v) => Some(v as i64),
            None => None,
        }
    }
}

// ---------------------------------------------------------------------------
// Separators
// ---------------------------------------------------------------------------

/// The index of the first `x` in `s`, or the length of `s` when there is none.
pub open spec fn find_first<A>(s: Seq<A>, x: A) -> int
    decreases s.len(),
{
    if s.len() == 0 {
        0
    } else if s[0] == x {
        0
    } else {
        1 + find_first(s.drop_first(), x)
    }
}

/// `find_first` lands within the sequence, on an occurrence when it is not at the end.
pub proof fn lemma_find_first<A>(s: Seq<A>, x: A)
    ensures
        0 <= find_first(s, x) <= s.len(),
        find_first(s, x) < s.len() ==> s[find_first(s, x)] == x,
        forall|i: int| 0 <= i < find_first(s, x) ==> s[i] != x,
    decreases s.len(),
{
    if s.len() > 0 && s[0] != x {
        lemma_find_first(s.drop_first(), x);
        assert forall|i: int| 0 <= i < find_first(s, x) implies s[i] != x by {
            if i > 0 {
                assert(s[i] == s.drop_first()[i - 1]);
            }
        }
    }
}

/// A position holding `x`, with no `x` before it, is where `find_first` lands.
pub proof fn lemma_find_first_at<A>(s: Seq<A>, x: A, k: int)
    requires
        0 <= k <= s.len(),
        k < s.len() ==> s[k] == x,
        forall|i: int| 0 <= i < k ==> s[i] != x,
    ensures
        find_first(s, x) == k,
    decreases s.len(),
{
    if s.len() > 0 && k > 0 {
        assert(s[0] != x);
        lemma_find_first_at(s.drop_first(), x, k - 1);
    }
}

/// The index in `cs` of the first `c` at or after `from`, or `cs.len()` when there is none.
pub fn find_char_from(cs: &Vec<char>, c: char, from: usize) -> (k: usize)
    requires
        from <= cs.len(),
    ensures
        k as int == from + find_first(cs@.skip(from as int), c),
{
    let mut i: usize = from;
    while i < cs.len()
        invariant
            from <= i <= cs.len(),
            forall|j: int| from <= j < i ==> cs@[j] != c,
        decreases cs.len() - i,
    {
        if cs[i] == c {
            proof {
                lemma_find_first_at(cs@.skip(from as int), c, i - from);
            }
            return i;
        }
        i = i + 1;
    }
    proof {
        lemma_find_first_at(cs@.skip(from as int), c, i - from);
    }
    i
}

// ---------------------------------------------------------------------------
// Hexadecimal bytes
// ---------------------------------------------------------------------------

/// The lower-case hexadecimal digit of a value below 16.
pub open spec fn hex_digit(d: nat) -> char {
    if d < 10 { digit_char(d) }
    else if d == 10 { 'a' }
    else if d == 11 { 'b' }
    else if d == 12 { 'c' }
    else if d == 13 { 'd' }
    else if d == 14 { 'e' }
    else { 'f' }
}

/// Two lower-case hexadecimal digits per byte, as `format!("{byte:02x}")` prints them.
pub open spec fn hex_of(bytes: Seq<u8>) -> Seq<char>
    decreases bytes.len(),
{
    if bytes.len() == 0 {
        Seq::empty()
    } else {
        hex_of(bytes.drop_last()) + seq![
            hex_digit((bytes.last() / 16) as nat),
            hex_digit((bytes.last() % 16) as nat),
        ]
    }
}

fn hex_digit_char(d: u8) -> (c: char)
    requires
        d < 16,
    ensures
        c == hex_digit(d as nat),
{
    if d < 10 { digit_to_char(d) }
    else if d == 10 { 'a' }
    else if d == 11 { 'b' }
    else if d == 12 { 'c' }
    else if d == 13 { 'd' }
    else if d == 14 { 'e' }
    else { 'f' }
}

/// Appends the hexadecimal digits of `bytes` to `out`.
pub fn push_hex(out: &mut Vec<char>, bytes: &[u8])
    ensures
        final(out)@ == old(out)@ + hex_of(bytes@),
{
    let ghost start = out@;
    let mut i: usize = 0;
    while i < bytes.len()
        invariant
            i <= bytes.len(),
            out@ == start + hex_of(bytes@.take(i as int)),
        decreases bytes.len() - i,
    {
        let b = bytes[i];
        out.push(hex_digit_char(b / 16));
        out.push(hex_digit_char(b % 16));
        proof {
            assert(bytes@.take(i + 1).drop_last() =~= bytes@.take(i as int));
            assert(bytes@.take(i + 1).last() == b);
            assert(out@ =~= start + hex_of(bytes@.take(i + 1)));
        }
        i = i + 1;
    }
    proof {
        assert(bytes@.take(bytes.len() as int) =~= bytes@);
    }
}

/// Appends the characters of a string slice to `out`.
pub fn push_str(out: &mut Vec<char>, s: &str)
    ensures
        final(out)@ == old(out)@ + s@,
{
    let cs = chars_of(s);
    let ghost start = out@;
    let mut i: usize = 0;
    while i < cs.len()
        invariant
            i <= cs.len(),
            cs@ == s@,
            out@ == start + cs@.take(i as int),
        decreases cs.len() - i,
    {
        out.push(cs[i]);
        proof {
            assert(cs@.take(i + 1) =~= cs@.take(i as int).push(cs@[i as int]));
        }
        i = i + 1;
    }
    proof {
        assert(cs@.take(cs.len() as int) =~= cs@);
    }
}

} // verus!

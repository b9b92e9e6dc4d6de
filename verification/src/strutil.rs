//! Verified string building blocks for the statement compilers.
//!
//! The compilers assemble SQL text out of joined part lists and decimal
//! renderings of 1-based placeholder indices, and the value codec parses
//! decimal integers and recognizes float literals. This module holds those
//! character-level operations together with their specifications.

use vstd::prelude::*;
use vstd::arithmetic::div_mod::lemma_fundamental_div_mod;

verus! {

// ---------------------------------------------------------------------------
// Joining part lists
// ---------------------------------------------------------------------------

/// `parts` joined into one character sequence with `sep` between
/// consecutive parts.
pub open spec fn seq_join(parts: Seq<Seq<char>>, sep: Seq<char>) -> Seq<char>
    decreases parts.len(),
{
    if parts.len() == 0 {
        Seq::empty()
    } else if parts.len() == 1 {
        parts[0]
    } else {
        parts[0] + sep + seq_join(parts.drop_first(), sep)
    }
}

/// Appending one more part extends the joined text by a separator (when
/// anything came before) and the part itself.
pub proof fn lemma_seq_join_push(parts: Seq<Seq<char>>, sep: Seq<char>, x: Seq<char>)
    ensures
        seq_join(parts.push(x), sep) == if parts.len() == 0 {
            x
        } else {
            seq_join(parts, sep) + sep + x
        },
    decreases parts.len(),
{
    if parts.len() == 0 {
        assert(parts.push(x).len() == 1);
        assert(parts.push(x)[0] == x);
    } else if parts.len() == 1 {
        assert(parts.push(x).drop_first() =~= seq![x]);
        assert(parts.push(x)[0] == parts[0]);
        assert(seq_join(seq![x], sep) == x);
        assert(seq_join(parts.push(x), sep) == parts[0] + sep + x);
    } else {
        lemma_seq_join_push(parts.drop_first(), sep, x);
        assert(parts.push(x).drop_first() =~= parts.drop_first().push(x));
        assert(parts[0] + sep + (seq_join(parts.drop_first(), sep) + sep + x) =~= (parts[0] + sep
            + seq_join(parts.drop_first(), sep)) + sep + x);
    }
}

/// The views of a list of strings.
pub open spec fn views_of(parts: Seq<String>) -> Seq<Seq<char>> {
    parts.map_values(|p: String| p@)
}

/// Joins the strings in `parts`, writing `sep` between consecutive parts.
pub fn join_strings(parts: &Vec<String>, sep: &str) -> (r: String)
    ensures
        r@ == seq_join(views_of(parts@), sep@),
{
    let ghost vs = views_of(parts@);
    let mut r = String::new();
    let mut i: usize = 0;
    while i < parts.len()
        invariant
            i <= parts.len(),
            vs == views_of(parts@),
            vs.len() == parts.len(),
            r@ == seq_join(vs.take(i as int), sep@),
        decreases parts.len() - i,
    {
        if i > 0 {
            r.append(sep);
        }
        r.append(parts[i].as_str());
        proof {
            lemma_seq_join_push(vs.take(i as int), sep@, vs[i as int]);
            assert(vs.take(i as int).push(vs[i as int]) =~= vs.take(i as int + 1));
        }
        i += 1;
    }
    proof {
        assert(vs.take(parts.len() as int) =~= vs);
    }
    r
}

/// Whether two strings hold the same characters.
pub fn str_eq(a: &str, b: &str) -> (r: bool)
    ensures
        r == (a@ == b@),
{
    let an = a.unicode_len();
    if an != b.unicode_len() {
        return false;
    }
    let mut i: usize = 0;
    while i < an
        invariant
            i <= an,
            an == a@.len(),
            an == b@.len(),
            forall|j: int| 0 <= j < i ==> a@[j] == b@[j],
        decreases an - i,
    {
        if a.get_char(i) != b.get_char(i) {
            return false;
        }
        i += 1;
    }
    proof {
        assert(a@ =~= b@);
    }
    true
}

// ---------------------------------------------------------------------------
// Counting characters
// ---------------------------------------------------------------------------

/// How many times the character `c` occurs in `s`.
pub open spec fn char_count(s: Seq<char>, c: char) -> nat
    decreases s.len(),
{
    if s.len() == 0 {
        0
    } else {
        char_count(s.drop_last(), c) + if s.last() == c {
            1nat
        } else {
            0nat
        }
    }
}

/// Occurrence counts add up over concatenation.
pub proof fn lemma_char_count_concat(a: Seq<char>, b: Seq<char>, c: char)
    ensures
        char_count(a + b, c) == char_count(a, c) + char_count(b, c),
    decreases b.len(),
{
    if b.len() == 0 {
        assert(a + b =~= a);
    } else {
        lemma_char_count_concat(a, b.drop_last(), c);
        assert((a + b).drop_last() =~= a + b.drop_last());
        assert((a + b).last() == b.last());
    }
}

/// Joining parts that are free of `c` with a separator containing `c`
/// exactly once puts exactly one `c` between consecutive parts. This is
/// what makes the joined text unambiguous: it has as many separator
/// characters as it has gaps between parts.
pub proof fn lemma_char_count_join(parts: Seq<Seq<char>>, sep: Seq<char>, c: char)
    requires
        char_count(sep, c) == 1,
        forall|i: int| 0 <= i < parts.len() ==> char_count(#[trigger] parts[i], c) == 0,
        parts.len() > 0,
    ensures
        char_count(seq_join(parts, sep), c) == parts.len() - 1,
    decreases parts.len(),
{
    if parts.len() == 1 {
    } else {
        lemma_char_count_join(parts.drop_first(), sep, c);
        lemma_char_count_concat(parts[0], sep, c);
        lemma_char_count_concat(parts[0] + sep, seq_join(parts.drop_first(), sep), c);
    }
}

// ---------------------------------------------------------------------------
// Decimal digits
// ---------------------------------------------------------------------------

/// True for the ten decimal digit characters.
pub open spec fn is_digit(c: char) -> bool {
    c == '0' || c == '1' || c == '2' || c == '3' || c == '4' || c == '5' || c == '6' || c == '7'
        || c == '8' || c == '9'
}

/// The numeric value of a decimal digit character.
pub open spec fn digit_val(c: char) -> nat {
    if c == '1' {
        1
    } else if c == '2' {
        2
    } else if c == '3' {
        3
    } else if c == '4' {
        4
    } else if c == '5' {
        5
    } else if c == '6' {
        6
    } else if c == '7' {
        7
    } else if c == '8' {
        8
    } else if c == '9' {
        9
    } else {
        0
    }
}

/// The digit character for a value below ten.
pub open spec fn digit_char(d: nat) -> char {
    if d == 1 {
        '1'
    } else if d == 2 {
        '2'
    } else if d == 3 {
        '3'
    } else if d == 4 {
        '4'
    } else if d == 5 {
        '5'
    } else if d == 6 {
        '6'
    } else if d == 7 {
        '7'
    } else if d == 8 {
        '8'
    } else if d == 9 {
        '9'
    } else {
        '0'
    }
}

/// The canonical decimal rendering of a natural number: most significant
/// digit first, no sign, no leading zeros (a single `0` for zero).
pub open spec fn dec_nat(n: nat) -> Seq<char>
    decreases n,
{
    if n < 10 {
        seq![digit_char(n)]
    } else {
        dec_nat(n / 10) + seq![digit_char(n % 10)]
    }
}

/// The canonical decimal rendering of an integer: a leading `-` for
/// negative values, the digits of the magnitude otherwise.
pub open spec fn dec_int(n: int) -> Seq<char> {
    if n >= 0 {
        dec_nat(n as nat)
    } else {
        seq!['-'] + dec_nat((-n) as nat)
    }
}

/// A decimal rendering consists of digit characters only.
pub proof fn lemma_dec_nat_digits(n: nat)
    ensures
        dec_nat(n).len() >= 1,
        forall|i: int| 0 <= i < dec_nat(n).len() ==> is_digit(#[trigger] dec_nat(n)[i]),
    decreases n,
{
    if n < 10 {
    } else {
        lemma_dec_nat_digits(n / 10);
    }
}

/// The string of one decimal digit character.
fn digit_str(d: u64) -> (r: &'static str)
    requires
        d < 10,
    ensures
        r@ == seq![digit_char(d as nat)],
{
    proof {
        reveal_strlit("0");
        reveal_strlit("1");
        reveal_strlit("2");
        reveal_strlit("3");
        reveal_strlit("4");
        reveal_strlit("5");
        reveal_strlit("6");
        reveal_strlit("7");
        reveal_strlit("8");
        reveal_strlit("9");
    }
    match d {
        1 => "1",
        2 => "2",
        3 => "3",
        4 => "4",
        5 => "5",
        6 => "6",
        7 => "7",
        8 => "8",
        9 => "9",
        _ => "0",
    }
}

/// Renders an unsigned value in decimal.
pub fn format_u64(n: u64) -> (r: String)
    ensures
        r@ == dec_nat(n as nat),
    decreases n,
{
    if n < 10 {
        let mut s = String::new();
        s.append(digit_str(n));
        assert(s@ =~= dec_nat(n as nat));
        s
    } else {
        let mut s = format_u64(n / 10);
        s.append(digit_str(n % 10));
        assert(s@ =~= dec_nat(n as nat));
        s
    }
}

/// Renders a signed value in decimal.
pub fn format_i64(n: i64) -> (r: String)
    ensures
        r@ == dec_int(n as int),
{
    if n >= 0 {
        format_u64(n as u64)
    } else {
        let m: u64 = ((-(n + 1)) as u64) + 1;
        assert(m as int == -(n as int));
        let mut s = String::new();
        proof {
            reveal_strlit("-");
        }
        s.append("-");
        let digits = format_u64(m);
        s.append(digits.as_str());
        assert(s@ =~= dec_int(n as int));
        s
    }
}

// ---------------------------------------------------------------------------
// Parsing decimal integers
// ---------------------------------------------------------------------------

/// The unsigned value of a digit string, folded from the left.
pub open spec fn digits_value(s: Seq<char>) -> nat
    decreases s.len(),
{
    if s.len() == 0 {
        0
    } else {
        digits_value(s.drop_last()) * 10 + digit_val(s.last())
    }
}

/// True when every character of `s` is a decimal digit.
pub open spec fn all_digits(s: Seq<char>) -> bool {
    forall|i: int| 0 <= i < s.len() ==> is_digit(#[trigger] s[i])
}

/// An integer literal: an optional single `+` or `-` sign followed by one
/// or more decimal digits.
pub open spec fn is_int_literal(s: Seq<char>) -> bool {
    if s.len() == 0 {
        false
    } else if s[0] == '+' || s[0] == '-' {
        s.len() > 1 && all_digits(s.skip(1))
    } else {
        all_digits(s)
    }
}

/// The mathematical value of an integer literal.
pub open spec fn int_literal_value(s: Seq<char>) -> int {
    if s.len() > 0 && s[0] == '-' {
        -(digits_value(s.skip(1)) as int)
    } else if s.len() > 0 && s[0] == '+' {
        digits_value(s.skip(1)) as int
    } else {
        digits_value(s) as int
    }
}

/// A digit string is worth at least as much as any of its prefixes.
pub proof fn lemma_digits_value_prefix_le(s: Seq<char>, i: int)
    requires
        0 <= i <= s.len(),
    ensures
        digits_value(s.take(i)) <= digits_value(s),
    decreases s.len(),
{
    if i == s.len() {
        assert(s.take(i) =~= s);
    } else {
        assert(s.len() > 0);
        lemma_digits_value_prefix_le(s.drop_last(), i);
        assert(s.drop_last().take(i) =~= s.take(i));
    }
}

/// A digit character is worth the digit it was made from.
pub proof fn lemma_digit_roundtrip(d: nat)
    requires
        d < 10,
    ensures
        digit_val(digit_char(d)) == d,
{
}

/// Parsing a canonical decimal rendering recovers the value.
pub proof fn lemma_digits_value_dec_nat(n: nat)
    ensures
        digits_value(dec_nat(n)) == n,
    decreases n,
{
    if n < 10 {
        assert(seq![digit_char(n)].drop_last() =~= Seq::<char>::empty());
        assert(digits_value(Seq::<char>::empty()) == 0);
        assert(seq![digit_char(n)].last() == digit_char(n));
        lemma_digit_roundtrip(n);
    } else {
        lemma_digits_value_dec_nat(n / 10);
        assert((dec_nat(n / 10) + seq![digit_char(n % 10)]).drop_last() =~= dec_nat(n / 10));
        assert((dec_nat(n / 10) + seq![digit_char(n % 10)]).last() == digit_char(n % 10));
        lemma_digit_roundtrip((n % 10) as nat);
        assert(digits_value(dec_nat(n)) == digits_value(dec_nat(n / 10)) * 10 + digit_val(
            digit_char(n % 10),
        ));
        assert(digits_value(dec_nat(n)) == (n / 10) * 10 + (n % 10));
        lemma_fundamental_div_mod(n as int, 10);
        assert(n == 10 * (n / 10) + n % 10);
        assert((n / 10) * 10 == 10 * (n / 10)) by (nonlinear_arith);
    }
}

/// The canonical decimal rendering of an integer is an integer literal,
/// and parsing it recovers the value.
pub proof fn lemma_int_literal_roundtrip(n: int)
    ensures
        is_int_literal(dec_int(n)),
        int_literal_value(dec_int(n)) == n,
{
    if n >= 0 {
        lemma_dec_nat_digits(n as nat);
        lemma_digits_value_dec_nat(n as nat);
        assert(is_digit(dec_nat(n as nat)[0]));
        assert(dec_int(n)[0] != '+' && dec_int(n)[0] != '-');
    } else {
        lemma_dec_nat_digits((-n) as nat);
        lemma_digits_value_dec_nat((-n) as nat);
        let s = dec_int(n);
        assert(s[0] == '-');
        assert(s.skip(1) =~= dec_nat((-n) as nat));
    }
}

/// The digit value of a character, or `None` for any other character.
pub fn digit_of(c: char) -> (r: Option<u64>)
    ensures
        is_digit(c) ==> r == Some(digit_val(c) as u64),
        !is_digit(c) ==> r is None,
{
    match c {
        '0' => Some(0),
        '1' => Some(1),
        '2' => Some(2),
        '3' => Some(3),
        '4' => Some(4),
        '5' => Some(5),
        '6' => Some(6),
        '7' => Some(7),
        '8' => Some(8),
        '9' => Some(9),
        _ => None,
    }
}

/// Parses a decimal integer literal into a signed 64-bit value.
///
/// Returns `None` when `s` is not an integer literal or its value does not
/// fit the signed 64-bit range.
pub fn parse_i64(s: &str) -> (r: Option<i64>)
    ensures
        match r {
            Some(v) => is_int_literal(s@) && int_literal_value(s@) == v as int,
            None => !is_int_literal(s@) || int_literal_value(s@) < i64::MIN
                || int_literal_value(s@) > i64::MAX,
        },
{
    let len = s.unicode_len();
    if len == 0 {
        return None;
    }
    let c0 = s.get_char(0);
    let neg = c0 == '-';
    let start: usize = if c0 == '-' || c0 == '+' {
        1
    } else {
        0
    };
    if start == len {
        return None;
    }
    let ghost ds = s@.skip(start as int);
    proof {
        if start == 0 {
            assert(ds =~= s@);
        }
    }
    let mut acc: u128 = 0;
    let mut i: usize = start;
    while i < len
        invariant
            start <= i <= len,
            len == s@.len(),
            start == 1 || start == 0,
            start == 1 ==> (s@[0] == '+' || s@[0] == '-'),
            start == 1 ==> (neg <==> s@[0] == '-'),
            start == 0 ==> ds == s@ && !neg && s@[0] != '+' && s@[0] != '-',
            ds == s@.skip(start as int),
            ds.len() == len - start,
            forall|j: int| 0 <= j < i - start ==> is_digit(#[trigger] ds[j]),
            acc == digits_value(ds.take(i - start)),
            acc <= 0x8000_0000_0000_0000u128,
        decreases len - i,
    {
        let c = s.get_char(i);
        let ghost k = i - start;
        proof {
            assert(ds[k] == s@[i as int]);
        }
        let d = match digit_of(c) {
            Some(d) => d,
            None => {
                proof {
                    assert(!is_digit(ds[k]));
                    assert(!all_digits(ds));
                }
                return None;
            },
        };
        proof {
            assert(ds.take(k + 1).drop_last() =~= ds.take(k));
            assert(ds.take(k + 1).last() == ds[k]);
        }
        acc = acc * 10 + (d as u128);
        i += 1;
        proof {
            assert(acc == digits_value(ds.take(k + 1)));
        }
        if acc > 0x8000_0000_0000_0000u128 {
            proof {
                lemma_digits_value_prefix_le(ds, k + 1);
                assert(ds.take(ds.len() as int) =~= ds);
                assert(digits_value(ds) >= acc);
                assert(int_literal_value(s@) < i64::MIN || int_literal_value(s@) > i64::MAX);
            }
            return None;
        }
    }
    proof {
        assert(ds.take(len - start) =~= ds);
        assert(all_digits(ds));
        assert(is_int_literal(s@));
        assert(acc == digits_value(ds));
        if neg {
            assert(int_literal_value(s@) == -(digits_value(ds) as int));
        } else {
            assert(int_literal_value(s@) == digits_value(ds) as int);
        }
    }
    if neg {
        if acc == 0x8000_0000_0000_0000u128 {
            Some(i64::MIN)
        } else {
            Some(-(acc as i64))
        }
    } else {
        if acc == 0x8000_0000_0000_0000u128 {
            None
        } else {
            Some(acc as i64)
        }
    }
}

// ---------------------------------------------------------------------------
// Recognizing float literals
// ---------------------------------------------------------------------------

/// The first position at or after `i` that does not hold a digit.
pub open spec fn skip_digits(s: Seq<char>, i: int) -> int
    decreases s.len() - i,
{
    if 0 <= i < s.len() && is_digit(s[i]) {
        skip_digits(s, i + 1)
    } else {
        i
    }
}

/// A well-formed exponent suffix starting at `i`: either nothing at all,
/// or `e`/`E`, an optional sign, and one or more digits reaching the end.
pub open spec fn float_exp_ok(s: Seq<char>, i: int) -> bool {
    if i == s.len() {
        true
    } else if 0 <= i < s.len() && (s[i] == 'e' || s[i] == 'E') {
        let j = if i + 1 < s.len() && (s[i + 1] == '+' || s[i + 1] == '-') {
            i + 2
        } else {
            i + 1
        };
        j < s.len() && skip_digits(s, j) == s.len()
    } else {
        false
    }
}

/// A float literal: an optional sign; then digits, optionally followed by
/// a point and more digits, with at least one digit on one side of the
/// point; then an optional exponent suffix. This matches the textual forms
/// a finite double renders to (`80.1`, `-0.5`, `2e10`, `1.5E-3`); the
/// non-finite spellings are deliberately not literals.
pub open spec fn is_float_literal(s: Seq<char>) -> bool {
    let b: int = if s.len() > 0 && (s[0] == '+' || s[0] == '-') {
        1
    } else {
        0
    };
    let p = skip_digits(s, b);
    if 0 <= p < s.len() && s[p] == '.' {
        let q = skip_digits(s, p + 1);
        (p > b || q > p + 1) && float_exp_ok(s, q)
    } else {
        p > b && float_exp_ok(s, p)
    }
}

/// The first position at or after `from` that does not hold a digit.
fn scan_digits(s: &str, from: usize) -> (r: usize)
    requires
        from <= s@.len(),
    ensures
        r == skip_digits(s@, from as int),
        from <= r <= s@.len(),
{
    let len = s.unicode_len();
    let mut i = from;
    while i < len
        invariant
            from <= i <= len,
            len == s@.len(),
            skip_digits(s@, from as int) == skip_digits(s@, i as int),
        decreases len - i,
    {
        let c = s.get_char(i);
        if digit_of(c).is_none() {
            return i;
        }
        i += 1;
    }
    i
}

/// Whether `s` is a float literal.
pub fn is_float_text(s: &str) -> (r: bool)
    ensures
        r == is_float_literal(s@),
{
    let len = s.unicode_len();
    let b: usize = if len > 0 && {
        let c = s.get_char(0);
        c == '+' || c == '-'
    } {
        1
    } else {
        0
    };
    let p = scan_digits(s, b);
    if p < len && s.get_char(p) == '.' {
        let q = scan_digits(s, p + 1);
        (p > b || q > p + 1) && exp_ok(s, q)
    } else {
        p > b && exp_ok(s, p)
    }
}

/// Whether an exponent suffix starting at `i` is well formed.
fn exp_ok(s: &str, i: usize) -> (r: bool)
    requires
        i <= s@.len(),
    ensures
        r == float_exp_ok(s@, i as int),
{
    let len = s.unicode_len();
    if i == len {
        return true;
    }
    let c = s.get_char(i);
    if c != 'e' && c != 'E' {
        return false;
    }
    let j: usize = if i + 1 < len && {
        let c1 = s.get_char(i + 1);
        c1 == '+' || c1 == '-'
    } {
        i + 2
    } else {
        i + 1
    };
    if j >= len {
        return false;
    }
    scan_digits(s, j) == len
}

} // verus!

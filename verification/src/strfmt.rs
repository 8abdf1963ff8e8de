//! Verified building blocks for the textual trace format: decimal rendering,
//! zero padding, string equality and line joining.

use vstd::prelude::*;
use vstd::string::StrSliceExecFns;
use vstd::string::StringExecFns;

verus! {

/// The character for one decimal digit.
pub open spec fn spec_digit_char(d: int) -> char {
    if d == 0 {
        '0'
    } else if d == 1 {
        '1'
    } else if d == 2 {
        '2'
    } else if d == 3 {
        '3'
    } else if d == 4 {
        '4'
    } else if d == 5 {
        '5'
    } else if d == 6 {
        '6'
    } else if d == 7 {
        '7'
    } else if d == 8 {
        '8'
    } else {
        '9'
    }
}

/// The decimal rendering of a non-negative integer, most significant digit
/// first, with no leading zeros (except for zero itself).
pub open spec fn spec_dec_digits(n: int) -> Seq<char>
    decreases n,
{
    if n < 10 {
        seq![spec_digit_char(n)]
    } else {
        spec_dec_digits(n / 10).push(spec_digit_char(n % 10))
    }
}

/// A run of `k` zero characters.
pub open spec fn spec_zeros(k: int) -> Seq<char> {
    if k <= 0 {
        Seq::empty()
    } else {
        Seq::new(k as nat, |i: int| '0')
    }
}

/// The decimal rendering of `n`, left-padded with zeros to at least `width`
/// characters.
pub open spec fn spec_padded_dec(n: int, width: int) -> Seq<char> {
    spec_zeros(width - spec_dec_digits(n).len()) + spec_dec_digits(n)
}

pub fn digit_char(d: u8) -> (c: char)
    requires
        d < 10,
    ensures
        c == spec_digit_char(d as int),
{
    if d == 0 {
        '0'
    } else if d == 1 {
        '1'
    } else if d == 2 {
        '2'
    } else if d == 3 {
        '3'
    } else if d == 4 {
        '4'
    } else if d == 5 {
        '5'
    } else if d == 6 {
        '6'
    } else if d == 7 {
        '7'
    } else if d == 8 {
        '8'
    } else {
        '9'
    }
}

/// Relies on `String::push`: appends exactly the given character at the end.
#[verifier::external_body]
pub(crate) fn push_char(s: &mut String, c: char)
    ensures
        final(s)@ == old(s)@.push(c),
{
    s.push(c);
}

/// Renders `n` in decimal.
pub fn u128_to_string(n: u128) -> (r: String)
    ensures
        r@ == spec_dec_digits(n as int),
    decreases n,
{
    if n < 10 {
        let mut s = String::new();
        push_char(&mut s, digit_char(n as u8));
        proof {
            assert(s@ =~= seq![spec_digit_char(n as int)]);
        }
        s
    } else {
        let mut s = u128_to_string(n / 10);
        push_char(&mut s, digit_char((n % 10) as u8));
        proof {
            assert(s@ =~= spec_dec_digits(n as int));
        }
        s
    }
}

pub fn u64_to_string(n: u64) -> (r: String)
    ensures
        r@ == spec_dec_digits(n as int),
{
    u128_to_string(n as u128)
}

/// Renders `n` in decimal, left-padded with zeros to at least `width`
/// characters.
pub fn padded_dec(n: u128, width: usize) -> (r: String)
    ensures
        r@ == spec_padded_dec(n as int, width as int),
{
    let digits = u128_to_string(n);
    let len = digits.as_str().unicode_len();
    let mut s = String::new();
    let mut i: usize = len;
    while i < width
        invariant
            len <= i <= width || (i == len && i >= width),
            len == spec_dec_digits(n as int).len(),
            s@ =~= spec_zeros(i - len),
        decreases width - i,
    {
        push_char(&mut s, '0');
        proof {
            assert(s@ =~= spec_zeros(i + 1 - len));
        }
        i += 1;
    }
    s.append(digits.as_str());
    proof {
        assert(s@ =~= spec_padded_dec(n as int, width as int));
    }
    s
}

/// Character-wise string equality.
pub fn str_eq(a: &str, b: &str) -> (r: bool)
    ensures
        r == (a@ == b@),
{
    let n = a.unicode_len();
    let m = b.unicode_len();
    if n != m {
        return false;
    }
    let mut i: usize = 0;
    while i < n
        invariant
            i <= n,
            n == a@.len(),
            n == b@.len(),
            forall|j: int| 0 <= j < i ==> a@[j] == b@[j],
        decreases n - i,
    {
        if a.get_char(i) != b.get_char(i) {
            return false;
        }
        i += 1;
    }
    proof {
        assert(a@ =~= b@);
    }
    true
}

/// The lines joined with a newline between each adjacent pair.
pub open spec fn spec_join_lines(lines: Seq<Seq<char>>) -> Seq<char>
    decreases lines.len(),
{
    if lines.len() == 0 {
        Seq::empty()
    } else if lines.len() == 1 {
        lines[0]
    } else {
        spec_join_lines(lines.drop_last()) + seq!['\n'] + lines.last()
    }
}

/// Joins the lines with a newline between each adjacent pair.
pub fn join_lines(lines: &Vec<String>) -> (r: String)
    ensures
        r@ == spec_join_lines(lines@.map_values(|l: String| l@)),
{
    let ghost views = lines@.map_values(|l: String| l@);
    let mut s = String::new();
    let mut i: usize = 0;
    while i < lines.len()
        invariant
            i <= lines.len(),
            views == lines@.map_values(|l: String| l@),
            views.len() == lines@.len(),
            s@ == spec_join_lines(views.take(i as int)),
        decreases lines.len() - i,
    {
        if i > 0 {
            push_char(&mut s, '\n');
        }
        s.append(lines[i].as_str());
        proof {
            assert(views.take(i + 1).drop_last() =~= views.take(i as int));
            assert(views.take(i + 1).last() == views[i as int]);
            if i == 0 {
                assert(s@ =~= spec_join_lines(views.take(i + 1)));
            } else {
                assert(s@ =~= spec_join_lines(views.take(i + 1)));
            }
        }
        i += 1;
    }
    proof {
        assert(views.take(lines@.len() as int) =~= views);
    }
    s
}

} // verus!

verus! {

/// The decimal rendering of a signed integer: a minus sign before the
/// magnitude for negative values.
pub open spec fn spec_dec_int(n: int) -> Seq<char> {
    if n < 0 {
        seq!['-'] + spec_dec_digits(-n)
    } else {
        spec_dec_digits(n)
    }
}

/// Renders a signed integer in decimal.
pub fn i64_to_string(n: i64) -> (r: String)
    ensures
        r@ == spec_dec_int(n as int),
{
    if n < 0 {
        let mag = (-(n as i128)) as u128;
        let mut s = String::new();
        push_char(&mut s, '-');
        let digits = u128_to_string(mag);
        s.append(digits.as_str());
        proof {
            assert(s@ =~= spec_dec_int(n as int));
        }
        s
    } else {
        u128_to_string(n as u128)
    }
}

} // verus!

verus! {

/// Lexicographic order on character data: the empty text first, then by the
/// first differing character's codepoint.
pub open spec fn spec_lex_le(a: Seq<char>, b: Seq<char>) -> bool
    decreases a.len(),
{
    if a.len() == 0 {
        true
    } else if b.len() == 0 {
        false
    } else if a[0] != b[0] {
        (a[0] as int) < (b[0] as int)
    } else {
        spec_lex_le(a.drop_first(), b.drop_first())
    }
}

pub open spec fn spec_pow10(w: nat) -> int
    decreases w,
{
    if w == 0 {
        1
    } else {
        10 * spec_pow10((w - 1) as nat)
    }
}

/// The order is reflexive.
pub proof fn lemma_lex_refl(a: Seq<char>)
    ensures
        spec_lex_le(a, a),
    decreases a.len(),
{
    if a.len() > 0 {
        lemma_lex_refl(a.drop_first());
    }
}

/// Appending one character to each of two equally long texts compares the
/// texts first and the appended characters on a tie.
proof fn lemma_lex_push(a: Seq<char>, b: Seq<char>, x: char, y: char)
    requires
        a.len() == b.len(),
    ensures
        spec_lex_le(a.push(x), b.push(y)) <==> (if a == b {
            (x as int) <= (y as int)
        } else {
            spec_lex_le(a, b)
        }),
    decreases a.len(),
{
    if a.len() == 0 {
        assert(a =~= b);
        assert(a.push(x)[0] == x);
        assert(b.push(y)[0] == y);
        assert(a.push(x).drop_first() =~= Seq::<char>::empty());
        assert(b.push(y).drop_first() =~= Seq::<char>::empty());
        assert(spec_lex_le(Seq::<char>::empty(), Seq::<char>::empty()));
        if x == y {
            assert(spec_lex_le(a.push(x), b.push(y)));
        } else {
            assert(spec_lex_le(a.push(x), b.push(y)) == ((x as int) < (y as int)));
        }
    } else {
        assert(a.push(x)[0] == a[0]);
        assert(b.push(y)[0] == b[0]);
        assert(a.push(x).drop_first() =~= a.drop_first().push(x));
        assert(b.push(y).drop_first() =~= b.drop_first().push(y));
        lemma_lex_push(a.drop_first(), b.drop_first(), x, y);
        if a[0] != b[0] {
            assert(spec_lex_le(a.push(x), b.push(y)) == ((a[0] as int) < (b[0] as int)));
            assert(spec_lex_le(a, b) == ((a[0] as int) < (b[0] as int)));
            assert(a != b);
        }
        if a[0] == b[0] {
            assert(spec_lex_le(a.push(x), b.push(y)) == spec_lex_le(
                a.drop_first().push(x),
                b.drop_first().push(y),
            ));
            assert(spec_lex_le(a, b) == spec_lex_le(a.drop_first(), b.drop_first()));
        }
        if a[0] == b[0] {
            if a.drop_first() == b.drop_first() {
                assert forall|i: int| 0 <= i < a.len() implies a[i] == b[i] by {
                    if i > 0 {
                        assert(a.drop_first()[i - 1] == a[i]);
                        assert(b.drop_first()[i - 1] == b[i]);
                    }
                }
                assert(a =~= b);
            }
        }
    }
}

/// Comparing two concatenations with equally long heads: the heads decide,
/// the tails break a tie.
pub proof fn lemma_lex_concat(a1: Seq<char>, a2: Seq<char>, t1: Seq<char>, t2: Seq<char>)
    requires
        a1.len() == a2.len(),
        spec_lex_le(a1, a2),
        a1 == a2 ==> spec_lex_le(t1, t2),
    ensures
        spec_lex_le(a1 + t1, a2 + t2),
    decreases a1.len(),
{
    if a1.len() == 0 {
        assert(a1 =~= a2);
        assert(a1 + t1 =~= t1);
        assert(a2 + t2 =~= t2);
    } else {
        assert((a1 + t1)[0] == a1[0]);
        assert((a2 + t2)[0] == a2[0]);
        assert((a1 + t1).drop_first() =~= a1.drop_first() + t1);
        assert((a2 + t2).drop_first() =~= a2.drop_first() + t2);
        if a1[0] == a2[0] {
            if a1.drop_first() == a2.drop_first() {
                assert forall|i: int| 0 <= i < a1.len() implies a1[i] == a2[i] by {
                    if i > 0 {
                        assert(a1.drop_first()[i - 1] == a1[i]);
                        assert(a2.drop_first()[i - 1] == a2[i]);
                    }
                }
                assert(a1 =~= a2);
            }
            lemma_lex_concat(a1.drop_first(), a2.drop_first(), t1, t2);
        }
    }
}

/// A value below ten to the `w` renders in at most `w` digits.
proof fn lemma_dec_digits_len(n: int, w: nat)
    requires
        0 <= n < spec_pow10(w),
        w >= 1,
    ensures
        spec_dec_digits(n).len() <= w,
    decreases w,
{
    assert(spec_pow10(0) == 1);
    assert(spec_pow10(1) == 10);
    if n >= 10 {
        assert(spec_pow10(w) == 10 * spec_pow10((w - 1) as nat));
        lemma_dec_digits_len(n / 10, (w - 1) as nat);
    }
}

/// A value below ten to the `w`, zero-padded to width `w`, renders in exactly
/// `w` characters.
pub proof fn lemma_padded_dec_len(n: int, w: nat)
    requires
        0 <= n < spec_pow10(w),
        w >= 1,
    ensures
        spec_padded_dec(n, w as int).len() == w,
{
    lemma_dec_digits_len(n, w);
}

/// Fixed-width rendering peels its last digit.
proof fn lemma_padded_dec_unfold(n: int, w: nat)
    requires
        0 <= n,
        w >= 2,
    ensures
        spec_padded_dec(n, w as int) == spec_padded_dec(n / 10, w - 1).push(
            spec_digit_char(n % 10),
        ),
{
    if n < 10 {
        assert(spec_dec_digits(n / 10) =~= seq![spec_digit_char(0)]);
        assert(spec_padded_dec(n, w as int) =~= spec_padded_dec(n / 10, w - 1).push(
            spec_digit_char(n % 10),
        ));
    } else {
        assert(spec_padded_dec(n, w as int) =~= spec_padded_dec(n / 10, w - 1).push(
            spec_digit_char(n % 10),
        ));
    }
}

/// Digit characters order as their digits.
proof fn lemma_digit_char_order(d1: int, d2: int)
    requires
        0 <= d1 < 10,
        0 <= d2 < 10,
    ensures
        d1 <= d2 <==> (spec_digit_char(d1) as int) <= (spec_digit_char(d2) as int),
        d1 == d2 <==> spec_digit_char(d1) == spec_digit_char(d2),
{
}

/// Equal fixed-width renderings carry equal values.
pub proof fn lemma_padded_dec_injective(n1: int, n2: int, w: nat)
    requires
        0 <= n1 < spec_pow10(w),
        0 <= n2 < spec_pow10(w),
        w >= 1,
        spec_padded_dec(n1, w as int) == spec_padded_dec(n2, w as int),
    ensures
        n1 == n2,
    decreases w,
{
    assert(spec_pow10(0) == 1);
    assert(spec_pow10(1) == 10);
    if w == 1 {
        assert(spec_padded_dec(n1, 1) =~= seq![spec_digit_char(n1)]);
        assert(spec_padded_dec(n2, 1) =~= seq![spec_digit_char(n2)]);
        assert(spec_padded_dec(n1, 1)[0] == spec_padded_dec(n2, 1)[0]);
        lemma_digit_char_order(n1, n2);
    } else {
        lemma_padded_dec_unfold(n1, w);
        lemma_padded_dec_unfold(n2, w);
        let a = spec_padded_dec(n1 / 10, w - 1);
        let b = spec_padded_dec(n2 / 10, w - 1);
        assert(a.push(spec_digit_char(n1 % 10)) == b.push(spec_digit_char(n2 % 10)));
        assert(spec_pow10(w) == 10 * spec_pow10((w - 1) as nat));
        lemma_padded_dec_len(n1 / 10, (w - 1) as nat);
        lemma_padded_dec_len(n2 / 10, (w - 1) as nat);
        assert(a =~= b) by {
            assert(forall|i: int|
                0 <= i < a.len() ==> #[trigger] a[i] == a.push(spec_digit_char(n1 % 10))[i]);
            assert(forall|i: int|
                0 <= i < b.len() ==> #[trigger] b[i] == b.push(spec_digit_char(n2 % 10))[i]);
        }
        lemma_padded_dec_injective(n1 / 10, n2 / 10, (w - 1) as nat);
        assert(a.push(spec_digit_char(n1 % 10)).last() == spec_digit_char(n1 % 10));
        assert(b.push(spec_digit_char(n2 % 10)).last() == spec_digit_char(n2 % 10));
        lemma_digit_char_order(n1 % 10, n2 % 10);
    }
}

/// Zero-padded fixed-width decimal renderings sort as their values: the
/// smaller value's rendering is lexicographically no later.
pub proof fn lemma_padded_dec_lex(n1: int, n2: int, w: nat)
    requires
        0 <= n1 <= n2 < spec_pow10(w),
        w >= 1,
    ensures
        spec_lex_le(spec_padded_dec(n1, w as int), spec_padded_dec(n2, w as int)),
    decreases w,
{
    assert(spec_pow10(0) == 1);
    assert(spec_pow10(1) == 10);
    if w == 1 {
        assert(spec_padded_dec(n1, 1) =~= seq![spec_digit_char(n1)]);
        assert(spec_padded_dec(n2, 1) =~= seq![spec_digit_char(n2)]);
        lemma_digit_char_order(n1, n2);
        if spec_digit_char(n1) == spec_digit_char(n2) {
            assert(seq![spec_digit_char(n1)].drop_first() =~= Seq::<char>::empty());
            assert(spec_lex_le(Seq::<char>::empty(), Seq::<char>::empty()));
            assert(spec_lex_le(seq![spec_digit_char(n1)], seq![spec_digit_char(n2)]));
        } else {
            assert(spec_lex_le(seq![spec_digit_char(n1)], seq![spec_digit_char(n2)]));
        }
    } else {
        lemma_padded_dec_unfold(n1, w);
        lemma_padded_dec_unfold(n2, w);
        assert(spec_pow10(w) == 10 * spec_pow10((w - 1) as nat));
        let a = spec_padded_dec(n1 / 10, w - 1);
        let b = spec_padded_dec(n2 / 10, w - 1);
        lemma_padded_dec_len(n1 / 10, (w - 1) as nat);
        lemma_padded_dec_len(n2 / 10, (w - 1) as nat);
        lemma_padded_dec_lex(n1 / 10, n2 / 10, (w - 1) as nat);
        lemma_lex_push(a, b, spec_digit_char(n1 % 10), spec_digit_char(n2 % 10));
        if a == b {
            lemma_padded_dec_injective(n1 / 10, n2 / 10, (w - 1) as nat);
            lemma_digit_char_order(n1 % 10, n2 % 10);
        }
    }
}

} // verus!

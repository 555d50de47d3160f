//! Decimal text: formatting and parsing unsigned integers.

use vstd::prelude::*;

verus! {

/// An ASCII decimal digit.
pub open spec fn is_digit(c: char) -> bool {
    '0' <= c && c <= '9'
}

/// The value of an ASCII decimal digit.
pub open spec fn digit_value(c: char) -> nat {
    (c as int - '0' as int) as nat
}

/// The digit character for a value below ten.
pub open spec fn digit_char(d: nat) -> char {
    seq!['0', '1', '2', '3', '4', '5', '6', '7', '8', '9'][d as int]
}

/// Every character is an ASCII decimal digit.
pub open spec fn all_digits(s: Seq<char>) -> bool {
    forall|i: int| 0 <= i < s.len() ==> #[trigger] is_digit(s[i])
}

/// The number that a string of decimal digits denotes.
pub open spec fn digits_value(s: Seq<char>) -> nat
    decreases s.len(),
{
    if s.len() == 0 {
        0
    } else {
        digits_value(s.drop_last()) * 10 + digit_value(s.last())
    }
}

/// The shortest decimal text of `n`, with no sign and no leading zero.
pub open spec fn decimal(n: nat) -> Seq<char>
    decreases n,
{
    if n < 10 {
        seq![digit_char(n)]
    } else {
        decimal(n / 10).push(digit_char(n % 10))
    }
}

/// The digits after an optional leading `+`.
pub open spec fn unsigned_digits(s: Seq<char>) -> Seq<char> {
    if s.len() > 0 && s[0] == '+' {
        s.drop_first()
    } else {
        s
    }
}

/// What `str::parse` gives for an unsigned integer type whose largest value is
/// `max`: an optional `+`, then one or more ASCII digits whose value is at most
/// `max`; any other text is an error.
pub open spec fn parse_unsigned(s: Seq<char>, max: nat) -> Option<nat> {
    let d = unsigned_digits(s);
    if d.len() > 0 && all_digits(d) && digits_value(d) <= max {
        Some(digits_value(d))
    } else {
        None
    }
}

/// `str::parse::<u64>` as a function of the text.
pub open spec fn spec_parse_u64(s: Seq<char>) -> Option<u64> {
    match parse_unsigned(s, u64::MAX as nat) {
        Some(v) => Some(v as u64),
        None => None,
    }
}

/// `str::parse::<u16>` as a function of the text.
pub open spec fn spec_parse_u16(s: Seq<char>) -> Option<u16> {
    match parse_unsigned(s, u16::MAX as nat) {
        Some(v) => Some(v as u16),
        None => None,
    }
}

proof fn lemma_digit_char(d: nat)
    requires
        d < 10,
    ensures
        is_digit(digit_char(d)),
        digit_value(digit_char(d)) == d,
{
}

/// A longer run of digits denotes at least as much as its prefix.
proof fn lemma_digits_value_prefix(s: Seq<char>, k: int)
    requires
        0 <= k <= s.len(),
    ensures
        digits_value(s.take(k)) <= digits_value(s),
    decreases s.len() - k,
{
    if k < s.len() {
        lemma_digits_value_prefix(s, k + 1);
        assert(s.take(k + 1).drop_last() =~= s.take(k));
    } else {
        assert(s.take(k) =~= s);
    }
}

proof fn lemma_decimal_shape(n: nat)
    ensures
        decimal(n).len() > 0,
        all_digits(decimal(n)),
        digits_value(decimal(n)) == n,
        decimal(n)[0] != '+',
    decreases n,
{
    lemma_digit_char(n % 10);
    if n >= 10 {
        lemma_decimal_shape(n / 10);
        let d = decimal(n);
        assert(d.drop_last() =~= decimal(n / 10));
        assert(d.last() == digit_char(n % 10));
        assert(digits_value(d) == (n / 10) * 10 + n % 10);
        assert(n == (n / 10) * 10 + n % 10) by (nonlinear_arith);
        assert forall|i: int| 0 <= i < d.len() implies #[trigger] is_digit(d[i]) by {
            if i < d.len() - 1 {
                assert(d[i] == decimal(n / 10)[i]);
            }
        }
    } else {
        lemma_digit_char(n);
        assert(decimal(n).drop_last() =~= Seq::<char>::empty());
        assert(digits_value(Seq::<char>::empty()) == 0);
    }
}

/// Formatting then parsing gives the number back: the decimal text of any
/// `u64` parses as that same `u64`.
pub proof fn lemma_parse_decimal_u64(n: u64)
    ensures
        spec_parse_u64(decimal(n as nat)) == Some(n),
{
    lemma_decimal_shape(n as nat);
}

/// The decimal text of any `u16` parses as that same `u16`.
pub proof fn lemma_parse_decimal_u16(n: u16)
    ensures
        spec_parse_u16(decimal(n as nat)) == Some(n),
{
    lemma_decimal_shape(n as nat);
}

fn digit_str(d: u64) -> (r: &'static str)
    requires
        d < 10,
    ensures
        r@ == seq![digit_char(d as nat)],
{
    proof {
        reveal_strlit("0");
        reveal_strlit("1");
        reveal_strlit("2");
        reveal_strlit("3");
        reveal_strlit("4");
        reveal_strlit("5");
        reveal_strlit("6");
        reveal_strlit("7");
        reveal_strlit("8");
        reveal_strlit("9");
    }
    if d == 0 {
        "0"
    } else if d == 1 {
        "1"
    } else if d == 2 {
        "2"
    } else if d == 3 {
        "3"
    } else if d == 4 {
        "4"
    } else if d == 5 {
        "5"
    } else if d == 6 {
        "6"
    } else if d == 7 {
        "7"
    } else if d == 8 {
        "8"
    } else {
        "9"
    }
}

/// The decimal text of `n`, as `n.to_string()` writes it.
pub fn to_decimal(n: u64) -> (r: String)
    ensures
        r@ == decimal(n as nat),
    decreases n,
{
    if n < 10 {
        String::from_str(digit_str(n))
    } else {
        let mut s = to_decimal(n / 10);
        s.append(digit_str(n % 10));
        s
    }
}

/// Appends the decimal text of `n` to `out`.
pub fn push_decimal(out: &mut String, n: u64)
    ensures
        final(out)@ == old(out)@ + decimal(n as nat),
{
    let d = to_decimal(n);
    out.append(d.as_str());
}

/// Parses the characters `from..to` of `s` as an unsigned integer no larger
/// than `max`.
fn parse_range(s: &str, from: usize, to: usize, max: u64) -> (r: Option<u64>)
    requires
        from <= to <= s@.len(),
        max >= 9,
    ensures
        match parse_unsigned(s@.subrange(from as int, to as int), max as nat) {
            Some(v) => r == Some(v as u64),
            None => r is None,
        },
{
    let ghost t = s@.subrange(from as int, to as int);
    let mut start = from;
    if from < to && s.get_char(from) == '+' {
        start = from + 1;
    }
    let ghost d = unsigned_digits(t);
    assert(d =~= s@.subrange(start as int, to as int));
    if start == to {
        return None;
    }
    let mut v: u64 = 0;
    let mut i = start;
    while i < to
        invariant
            from <= start <= i <= to <= s@.len(),
            d =~= s@.subrange(start as int, to as int),
            d == unsigned_digits(s@.subrange(from as int, to as int)),
            max >= 9,
            all_digits(d.take(i - start)),
            v as nat == digits_value(d.take(i - start)),
            v <= max,
        decreases to - i,
    {
        let c = s.get_char(i);
        assert(c == d[i - start]);
        if !('0' <= c && c <= '9') {
            assert(!is_digit(d[i - start]));
            return None;
        }
        let dv = (c as u32 - '0' as u32) as u64;
        assert(dv as nat == digit_value(c) && dv <= 9);
        let ghost k = (i - start) as int;
        assert(d.take(k + 1).drop_last() =~= d.take(k));
        if v > (max - dv) / 10 {
            proof {
                assert(digits_value(d.take(k + 1)) == v * 10 + dv);
                assert(v * 10 + dv > max) by (nonlinear_arith)
                    requires
                        v > (max - dv) / 10,
                        dv <= 9,
                        max >= 9,
                ;
                lemma_digits_value_prefix(d, k + 1);
            }
            return None;
        }
        assert(v * 10 + dv <= max) by (nonlinear_arith)
            requires v <= (max - dv) / 10, dv <= 9;
        v = v * 10 + dv;
        i = i + 1;
        assert forall|j: int| 0 <= j < d.take(k + 1).len() implies #[trigger] is_digit(d.take(k + 1)[j]) by {
            if j < k {
                assert(d.take(k + 1)[j] == d.take(k)[j]);
            }
        }
    }
    assert(d.take(i - start) =~= d);
    Some(v)
}

/// Parses `s` as `str::parse::<u64>` does.
pub fn parse_u64(s: &str) -> (r: Option<u64>)
    ensures
        r == spec_parse_u64(s@),
{
    let n = s.unicode_len();
    assert(s@.subrange(0, n as int) =~= s@);
    parse_range(s, 0, n, u64::MAX)
}

/// Parses `s` as `str::parse::<u16>` does.
pub fn parse_u16(s: &str) -> (r: Option<u16>)
    ensures
        r == spec_parse_u16(s@),
{
    let n = s.unicode_len();
    assert(s@.subrange(0, n as int) =~= s@);
    match parse_range(s, 0, n, u16::MAX as u64) {
        Some(v) => Some(v as u16),
        None => None,
    }
}

/// The pieces of `s` between occurrences of `sep`, in order, as `str::split`
/// yields them: text without `sep` is one piece, and each `sep` starts a new one.
pub open spec fn split_on(s: Seq<char>, sep: char) -> Seq<Seq<char>>
    decreases s.len(),
{
    if s.len() == 0 {
        seq![Seq::empty()]
    } else {
        let p = split_on(s.drop_last(), sep);
        if s.last() == sep {
            p.push(Seq::empty())
        } else {
            p.update(p.len() - 1, p.last().push(s.last()))
        }
    }
}

/// The values of the pieces that parse as `u64`, in order; the others are
/// skipped (`filter_map` over `str::parse::<u64>`).
pub open spec fn parsed_u64s(pieces: Seq<Seq<char>>) -> Seq<u64>
    decreases pieces.len(),
{
    if pieces.len() == 0 {
        seq![]
    } else {
        let rest = parsed_u64s(pieces.drop_last());
        match spec_parse_u64(pieces.last()) {
            Some(v) => rest.push(v),
            None => rest,
        }
    }
}

proof fn lemma_split_on_nonempty(s: Seq<char>, sep: char)
    ensures
        split_on(s, sep).len() >= 1,
    decreases s.len(),
{
    if s.len() > 0 {
        lemma_split_on_nonempty(s.drop_last(), sep);
    }
}

/// Splits `s` at every `:` and keeps the values of the pieces that parse as
/// `u64`, in order.
pub fn colon_separated_u64s(s: &str) -> (r: Vec<u64>)
    ensures
        r@ == parsed_u64s(split_on(s@, ':')),
{
    let n = s.unicode_len();
    let mut parts: Vec<u64> = Vec::new();
    let mut start: usize = 0;
    let mut i: usize = 0;
    proof {
        assert(s@.take(0) =~= Seq::<char>::empty());
        assert(s@.subrange(0, 0) =~= Seq::<char>::empty());
    }
    while i < n
        invariant
            n == s@.len(),
            0 <= start <= i <= n,
            split_on(s@.take(i as int), ':').len() >= 1,
            split_on(s@.take(i as int), ':').last() == s@.subrange(start as int, i as int),
            parts@ == parsed_u64s(split_on(s@.take(i as int), ':').drop_last()),
        decreases n - i,
    {
        let ghost sp = split_on(s@.take(i as int), ':');
        let c = s.get_char(i);
        proof {
            assert(s@.take(i + 1).drop_last() =~= s@.take(i as int));
            assert(s@.take(i + 1).last() == c);
        }
        if c == ':' {
            let piece = parse_range(s, start, i, u64::MAX);
            match piece {
                Some(v) => {
                    parts.push(v);
                },
                None => {},
            }
            proof {
                let sp2 = split_on(s@.take(i + 1), ':');
                assert(sp2 == sp.push(Seq::empty()));
                assert(sp2.drop_last() =~= sp);
                assert(s@.subrange(i + 1, i + 1) =~= Seq::<char>::empty());
            }
            start = i + 1;
        } else {
            proof {
                let sp2 = split_on(s@.take(i + 1), ':');
                assert(sp2.drop_last() =~= sp.drop_last());
                assert(s@.subrange(start as int, i + 1) =~= s@.subrange(start as int, i as int).push(c));
            }
        }
        i = i + 1;
    }
    let last = parse_range(s, start, n, u64::MAX);
    proof {
        assert(s@.take(n as int) =~= s@);
    }
    match last {
        Some(v) => {
            parts.push(v);
        },
        None => {},
    }
    parts
}

/// No character of `s` is `sep`.
pub open spec fn free_of(s: Seq<char>, sep: char) -> bool {
    forall|i: int| 0 <= i < s.len() ==> s[i] != sep
}

/// Appending text without `sep` extends the last piece.
proof fn lemma_split_on_extend(z: Seq<char>, y: Seq<char>, sep: char)
    requires
        free_of(y, sep),
    ensures
        split_on(z + y, sep).len() == split_on(z, sep).len(),
        split_on(z + y, sep) == split_on(z, sep).update(
            split_on(z, sep).len() - 1,
            split_on(z, sep).last() + y,
        ),
    decreases y.len(),
{
    lemma_split_on_nonempty(z, sep);
    if y.len() == 0 {
        assert(z + y =~= z);
        assert(split_on(z, sep).last() + y =~= split_on(z, sep).last());
        assert(split_on(z, sep).update(split_on(z, sep).len() - 1, split_on(z, sep).last())
            =~= split_on(z, sep));
    } else {
        let y0 = y.drop_last();
        lemma_split_on_extend(z, y0, sep);
        assert((z + y).drop_last() =~= z + y0);
        assert((z + y).last() == y.last());
        assert(y.last() != sep);
        let p = split_on(z, sep);
        assert(p.last() + y =~= (p.last() + y0).push(y.last()));
        assert(split_on(z + y, sep) =~= p.update(p.len() - 1, p.last() + y));
    }
}

/// Joining two texts with `sep`, where the second holds no `sep`, adds the
/// second as a piece of its own.
pub proof fn lemma_split_on_join(x: Seq<char>, y: Seq<char>, sep: char)
    requires
        free_of(y, sep),
    ensures
        split_on(x.push(sep) + y, sep) == split_on(x, sep).push(y),
{
    lemma_split_on_nonempty(x, sep);
    assert(x.push(sep).drop_last() =~= x);
    assert(split_on(x.push(sep), sep) == split_on(x, sep).push(Seq::empty()));
    lemma_split_on_extend(x.push(sep), y, sep);
    assert(Seq::<char>::empty() + y =~= y);
    assert(split_on(x.push(sep) + y, sep) =~= split_on(x, sep).push(y));
}

/// Text without `sep` is a single piece.
pub proof fn lemma_split_on_single(y: Seq<char>, sep: char)
    requires
        free_of(y, sep),
    ensures
        split_on(y, sep) == seq![y],
{
    lemma_split_on_extend(Seq::empty(), y, sep);
    assert(Seq::<char>::empty() + y =~= y);
    assert(split_on(Seq::<char>::empty(), sep) =~= seq![Seq::<char>::empty()]);
    assert(seq![Seq::<char>::empty()].update(0, Seq::<char>::empty() + y) =~= seq![y]);
}

/// The decimal text of a number holds no character but digits.
pub proof fn lemma_decimal_digits(n: nat)
    ensures
        decimal(n).len() > 0,
        all_digits(decimal(n)),
        free_of(decimal(n), ':'),
{
    lemma_decimal_shape(n);
    assert forall|i: int| 0 <= i < decimal(n).len() implies decimal(n)[i] != ':' by {
        assert(is_digit(decimal(n)[i]));
    }
}

/// `n` zero digits.
pub open spec fn zeros(n: nat) -> Seq<char> {
    Seq::new(n, |i: int| '0')
}

proof fn lemma_zeros_prefix(k: nat, b: Seq<char>)
    ensures
        digits_value(zeros(k) + b) == digits_value(b),
        all_digits(b) ==> all_digits(zeros(k) + b),
    decreases b.len() + k,
{
    if b.len() == 0 {
        assert(zeros(k) + b =~= zeros(k));
        if k > 0 {
            assert(zeros(k).drop_last() =~= zeros((k - 1) as nat));
            lemma_zeros_prefix((k - 1) as nat, b);
            assert(zeros((k - 1) as nat) + b =~= zeros((k - 1) as nat));
        }
    } else {
        lemma_zeros_prefix(k, b.drop_last());
        assert((zeros(k) + b).drop_last() =~= zeros(k) + b.drop_last());
        assert((zeros(k) + b).last() == b.last());
    }
    if all_digits(b) {
        assert forall|i: int| 0 <= i < (zeros(k) + b).len() implies #[trigger] is_digit(
            (zeros(k) + b)[i],
        ) by {
            if i >= k {
                assert((zeros(k) + b)[i] == b[i - k]);
            }
        }
    }
}

/// Parsing accepts a leading `+` and leading zeros: `+` then the decimal text
/// of `n`, and any number of zeros then that text, both parse as `n`.
pub proof fn lemma_parse_sign_and_zeros(n: u64, k: nat)
    ensures
        spec_parse_u64(seq!['+'] + decimal(n as nat)) == Some(n),
        spec_parse_u64(zeros(k) + decimal(n as nat)) == Some(n),
{
    lemma_decimal_shape(n as nat);
    assert((seq!['+'] + decimal(n as nat)).drop_first() =~= decimal(n as nat));
    lemma_zeros_prefix(k, decimal(n as nat));
    assert((zeros(k) + decimal(n as nat))[0] != '+') by {
        if k > 0 {
            assert((zeros(k) + decimal(n as nat))[0] == '0');
        } else {
            assert(zeros(k) + decimal(n as nat) =~= decimal(n as nat));
        }
    }
}

/// Parsing refuses any text with a character that is not a digit, other than
/// a `+` in front; it refuses the empty text and a lone `+`; and it refuses
/// the decimal text of a number past the largest `u64`.
pub proof fn lemma_parse_refuses(s: Seq<char>, i: int, big: nat)
    requires
        0 <= i < s.len(),
        !is_digit(s[i]),
        !(i == 0 && s[i] == '+'),
        big > u64::MAX,
    ensures
        spec_parse_u64(s) is None,
        spec_parse_u64(seq![]) is None,
        spec_parse_u64(seq!['+']) is None,
        spec_parse_u64(decimal(big)) is None,
{
    lemma_decimal_shape(big);
    let d = unsigned_digits(s);
    if s[0] == '+' {
        assert(d[i - 1] == s[i]);
    } else {
        assert(d[i] == s[i]);
    }
    assert(seq!['+'].drop_first().len() == 0);
}

}

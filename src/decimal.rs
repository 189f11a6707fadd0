//! Decimal digit strings, as bytes.
use vstd::prelude::*;

verus! {

/// The byte is an ASCII decimal digit.
pub open spec fn is_digit(b: u8) -> bool {
    48 <= b <= 57
}

/// Every byte of `s` is an ASCII decimal digit.
pub open spec fn all_digits(s: Seq<u8>) -> bool {
    forall|i: int| 0 <= i < s.len() ==> is_digit(#[trigger] s[i])
}

/// The number that the digit string `s` writes in base ten (0 for no digits).
pub open spec fn digits_value(s: Seq<u8>) -> nat
    decreases s.len(),
{
    if s.len() == 0 {
        0
    } else {
        digits_value(s.drop_last()) * 10 + (s.last() - 48) as nat
    }
}

/// A prefix of a digit string never writes a larger number than the whole.
pub proof fn lemma_digits_value_prefix(s: Seq<u8>, n: int)
    requires
        all_digits(s),
        0 <= n <= s.len(),
    ensures
        digits_value(s.take(n)) <= digits_value(s),
    decreases s.len(),
{
    if n == s.len() {
        assert(s.take(n) =~= s);
    } else {
        assert(s.drop_last().take(n) =~= s.take(n));
        lemma_digits_value_prefix(s.drop_last(), n);
    }
}

/// Reads the digits `s[from..to]` as a `u64`; `None` when the number does not fit.
pub fn digits_to_u64(s: &[u8], from: usize, to: usize) -> (r: Option<u64>)
    requires
        from <= to <= s@.len(),
        all_digits(s@.subrange(from as int, to as int)),
    ensures
        r matches Some(v) ==> v == digits_value(s@.subrange(from as int, to as int)),
        r is None <==> digits_value(s@.subrange(from as int, to as int)) > u64::MAX,
{
    let ghost whole = s@.subrange(from as int, to as int);
    let mut v: u64 = 0;
    let mut i: usize = from;
    while i < to
        invariant
            from <= i <= to <= s@.len(),
            whole == s@.subrange(from as int, to as int),
            all_digits(whole),
            v == digits_value(s@.subrange(from as int, i as int)),
        decreases to - i,
    {
        let ghost next = s@.subrange(from as int, i + 1);
        proof {
            assert(next.drop_last() =~= s@.subrange(from as int, i as int));
            assert(next =~= whole.take(i + 1 - from));
            assert(is_digit(whole[i - from]));
            lemma_digits_value_prefix(whole, i + 1 - from);
        }
        let d = (s[i] - 48u8) as u64;
        match v.checked_mul(10) {
            None => {
                return None;
            },
            Some(m) => match m.checked_add(d) {
                None => {
                    return None;
                },
                Some(w) => {
                    v = w;
                },
            },
        }
        i = i + 1;
    }
    Some(v)
}

/// The character of a decimal digit `d < 10`.
pub open spec fn digit_char(d: nat) -> char {
    seq!['0', '1', '2', '3', '4', '5', '6', '7', '8', '9'][d as int]
}

/// The shortest decimal text of `n`.
pub open spec fn decimal_chars(n: nat) -> Seq<char>
    decreases n,
{
    if n < 10 {
        seq![digit_char(n)]
    } else {
        decimal_chars(n / 10).push(digit_char(n % 10))
    }
}

/// The decimal text of `n`, with a leading `-` where it is negative.
pub open spec fn signed_decimal_chars(n: int) -> Seq<char> {
    if n < 0 {
        seq!['-'] + decimal_chars((-n) as nat)
    } else {
        decimal_chars(n as nat)
    }
}

/// Relies on `u64`'s `Display`, through `to_string`: the shortest decimal text
/// of the number, without sign or padding.
#[verifier::external_body]
pub(crate) fn decimal_text(n: u64) -> (r: String)
    ensures
        r@ == decimal_chars(n as nat),
{
    n.to_string()
}

/// The decimal text of `n`, with a leading `-` where it is negative.
pub fn signed_decimal_text(n: i16) -> (r: String)
    ensures
        r@ == signed_decimal_chars(n as int),
{
    if n < 0 {
        let magnitude = decimal_text((-(n as i32)) as u64);
        let mut r = String::from_str("-");
        proof {
            reveal_strlit("-");
        }
        r.append(magnitude.as_str());
        assert(r@ =~= seq!['-'] + decimal_chars((-n) as nat));
        r
    } else {
        decimal_text(n as u64)
    }
}

/// The text of a level given in hundredths: its sign where negative, the
/// whole units, a point and exactly two decimal places.
pub open spec fn hundredths_chars(v: int) -> Seq<char> {
    let m = if v < 0 {
        -v
    } else {
        v
    };
    let sign = if v < 0 {
        seq!['-']
    } else {
        Seq::<char>::empty()
    };
    sign + decimal_chars((m / 100) as nat) + seq!['.', digit_char(((m % 100) / 10) as nat), digit_char((m % 10) as nat)]
}

/// Writes a level given in hundredths with two decimal places (`-4523` is `-45.23`).
pub fn hundredths_text(v: i64) -> (r: String)
    requires
        v > i64::MIN,
    ensures
        r@ == hundredths_chars(v as int),
{
    let m: u64 = if v < 0 { (-v) as u64 } else { v as u64 };
    let mut r = if v < 0 {
        String::from_str("-")
    } else {
        String::new()
    };
    proof {
        reveal_strlit("-");
    }
    let whole = decimal_text(m / 100);
    r.append(whole.as_str());
    let tenths = decimal_text((m % 100) / 10);
    let last = decimal_text(m % 10);
    r.append(".");
    proof {
        reveal_strlit(".");
    }
    r.append(tenths.as_str());
    r.append(last.as_str());
    assert(r@ =~= hundredths_chars(v as int));
    r
}

} // verus!

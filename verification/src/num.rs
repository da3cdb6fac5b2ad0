//! Reading and writing unsigned integers as text, in the radixes the
//! metrics sources use (decimal and hexadecimal).
use vstd::prelude::*;

verus! {

/// The value of `c` as a digit in `radix` (at most 36), as `char::to_digit`
/// gives it: `0-9`, then letters of either case.
pub open spec fn digit_of(c: char, radix: nat) -> Option<nat> {
    let u = c as u32;
    let d: int = if 48 <= u <= 57 {
        u - 48
    } else if 97 <= u <= 122 {
        u - 97 + 10
    } else if 65 <= u <= 90 {
        u - 65 + 10
    } else {
        100
    };
    if d < radix {
        Some(d as nat)
    } else {
        None
    }
}

/// Every character of `s` is a digit in `radix`.
pub open spec fn all_digits(s: Seq<char>, radix: nat) -> bool {
    forall|i: int| 0 <= i < s.len() ==> (#[trigger] digit_of(s[i], radix)) is Some
}

/// The number that the digits `s` write in `radix`, most significant first.
pub open spec fn digits_value(s: Seq<char>, radix: nat) -> nat
    decreases s.len(),
{
    if s.len() == 0 {
        0
    } else {
        digits_value(s.drop_last(), radix) * radix + match digit_of(s.last(), radix) {
            Some(d) => d,
            None => 0,
        }
    }
}

/// The number `s` writes in `radix`, as `from_str_radix` and `str::parse`
/// read an unsigned integer type whose largest value is `max`: an optional
/// leading `+`, then at least one digit; `None` when a character is no digit
/// or the value exceeds `max`.
pub open spec fn parse_unsigned(s: Seq<char>, radix: nat, max: nat) -> Option<nat> {
    if s.len() == 0 {
        None
    } else if s.len() == 1 && (s[0] == '+' || s[0] == '-') {
        None
    } else {
        let d = if s[0] == '+' {
            s.subrange(1, s.len() as int)
        } else {
            s
        };
        if all_digits(d, radix) && digits_value(d, radix) <= max {
            Some(digits_value(d, radix))
        } else {
            None
        }
    }
}

/// The number `s` writes in decimal, as `str::parse` reads a signed integer
/// type holding `min..=max`: an optional sign, then at least one digit;
/// `None` when a character is no digit or the value is out of range.
pub open spec fn parse_signed(s: Seq<char>, min: int, max: int) -> Option<int> {
    if s.len() == 0 {
        None
    } else if s.len() == 1 && (s[0] == '+' || s[0] == '-') {
        None
    } else {
        let d = if s[0] == '+' || s[0] == '-' {
            s.subrange(1, s.len() as int)
        } else {
            s
        };
        let v: int = if s[0] == '-' {
            -digits_value(d, 10)
        } else {
            digits_value(d, 10) as int
        };
        if all_digits(d, 10) && min <= v <= max {
            Some(v)
        } else {
            None
        }
    }
}

/// The digit character for `d` (lower-case letters past nine).
pub open spec fn digit_char(d: nat) -> char {
    if d < 10 {
        (48 + d) as char
    } else {
        (87 + d) as char
    }
}

/// `n` written in `radix` without leading zeros (`"0"` for zero).
pub open spec fn radix_repr(n: nat, radix: nat) -> Seq<char>
    decreases n,
{
    if n < radix || radix < 2 {
        seq![digit_char(n)]
    } else {
        proof {
            assert(n / radix < n) by (nonlinear_arith)
                requires
                    n >= radix,
                    radix >= 2,
            ;
        }
        radix_repr(n / radix, radix).push(digit_char(n % radix))
    }
}

/// `n` in decimal.
pub open spec fn decimal(n: nat) -> Seq<char> {
    radix_repr(n, 10)
}

/// `n` in lower-case hexadecimal.
pub open spec fn hex(n: nat) -> Seq<char> {
    radix_repr(n, 16)
}

/// `n` in lower-case hexadecimal, at least two digits (`{:02x}`).
pub open spec fn hex2(n: nat) -> Seq<char> {
    if n < 16 {
        seq!['0'].add(hex(n))
    } else {
        hex(n)
    }
}

fn digit_value(c: char, radix: u32) -> (r: Option<u32>)
    requires
        2 <= radix <= 36,
    ensures
        match r {
            Some(d) => digit_of(c, radix as nat) == Some(d as nat),
            None => digit_of(c, radix as nat) is None,
        },
{
    let u = c as u32;
    let d: u32 = if 48 <= u && u <= 57 {
        u - 48
    } else if 97 <= u && u <= 122 {
        u - 97 + 10
    } else if 65 <= u && u <= 90 {
        u - 65 + 10
    } else {
        100
    };
    if d < radix {
        Some(d)
    } else {
        None
    }
}

proof fn lemma_digits_value_step(s: Seq<char>, j: int, radix: nat)
    requires
        0 <= j < s.len(),
    ensures
        digits_value(s.take(j + 1), radix) == digits_value(s.take(j), radix) * radix + match digit_of(
            s[j],
            radix,
        ) {
            Some(d) => d,
            None => 0,
        },
{
    assert(s.take(j + 1).drop_last() =~= s.take(j));
}

proof fn lemma_digit_char_value(d: nat, radix: nat)
    requires
        d < radix <= 36,
    ensures
        digit_of(digit_char(d), radix) == Some(d),
{
}

proof fn lemma_repr_digits(n: nat, radix: nat)
    requires
        2 <= radix <= 36,
    ensures
        radix_repr(n, radix).len() >= 1,
        all_digits(radix_repr(n, radix), radix),
        digits_value(radix_repr(n, radix), radix) == n,
    decreases n,
{
    let r = radix_repr(n, radix);
    if n < radix {
        lemma_digit_char_value(n, radix);
        assert(r.drop_last() =~= Seq::<char>::empty());
        assert(r.last() == digit_char(n));
        assert(digits_value(r, radix) == digits_value(Seq::<char>::empty(), radix) * radix + n);
    } else {
        let q = n / radix;
        let m = n % radix;
        assert(q < n && q * radix + m == n && m < radix) by (nonlinear_arith)
            requires
                n >= radix,
                radix >= 2,
                q == n / radix,
                m == n % radix,
        ;
        lemma_repr_digits(q, radix);
        lemma_digit_char_value(m, radix);
        let prev = radix_repr(q, radix);
        assert(r == prev.push(digit_char(m)));
        assert(r.drop_last() =~= prev);
        assert(r.last() == digit_char(m));
        assert(digits_value(r, radix) == digits_value(prev, radix) * radix + m);
        assert forall|i: int| 0 <= i < r.len() implies (#[trigger] digit_of(r[i], radix)) is Some by {
            if i < prev.len() {
                assert(r[i] == prev[i]);
            }
        }
    }
}

/// Reading back what was written: `n` written in `radix` is digits only,
/// and reads as `n` for every type that can hold it.
pub proof fn lemma_read_back_radix(n: nat, radix: nat, max: nat)
    requires
        2 <= radix <= 36,
        n <= max,
    ensures
        all_digits(radix_repr(n, radix), radix),
        parse_unsigned(radix_repr(n, radix), radix, max) == Some(n),
{
    lemma_repr_digits(n, radix);
    let r = radix_repr(n, radix);
    assert(digit_of(r[0], radix) is Some);
}

/// Reads `s` as `parse_unsigned` says, for a type whose largest value is
/// `max`.
#[verifier::spinoff_prover]
pub fn parse_radix(s: &Vec<char>, radix: u32, max: u64) -> (r: Option<u64>)
    requires
        2 <= radix <= 36,
    ensures
        match r {
            Some(v) => parse_unsigned(s@, radix as nat, max as nat) == Some(v as nat),
            None => parse_unsigned(s@, radix as nat, max as nat) is None,
        },
{
    let n = s.len();
    if n == 0 {
        return None;
    }
    if n == 1 && (s[0] == '+' || s[0] == '-') {
        return None;
    }
    let start: usize = if s[0] == '+' {
        1
    } else {
        0
    };
    let ghost d = if s@[0] == '+' {
        s@.subrange(1, s@.len() as int)
    } else {
        s@
    };
    assert(d =~= s@.subrange(start as int, n as int));
    let cap: u128 = max as u128 + 1;
    let mut acc: u128 = 0;
    let mut k = start;
    while k < n
        invariant
            start <= k <= n,
            n == s.len(),
            2 <= radix <= 36,
            cap == max + 1,
            d == s@.subrange(start as int, n as int),
            n >= 1,
            !(n == 1 && (s@[0] == '+' || s@[0] == '-')),
            d == if s@[0] == '+' {
                s@.subrange(1, s@.len() as int)
            } else {
                s@
            },
            acc <= cap,
            acc == if digits_value(d.take(k - start), radix as nat) < cap {
                digits_value(d.take(k - start), radix as nat)
            } else {
                cap as nat
            },
            all_digits(d.take(k - start), radix as nat),
        decreases n - k,
    {
        let dv = digit_value(s[k], radix);
        match dv {
            None => {
                proof {
                    assert(d[k - start] == s@[k as int]);
                    assert(!all_digits(d, radix as nat));
                }
                return None;
            },
            Some(dig) => {
                let ghost j = k - start;
                let ghost v = digits_value(d.take(j), radix as nat);
                proof {
                    lemma_digits_value_step(d, j, radix as nat);
                    assert(d[j] == s@[k as int]);
                    assert(v * radix + dig >= v) by (nonlinear_arith)
                        requires
                            radix >= 2,
                            dig >= 0,
                            v >= 0,
                    ;
                    assert(cap * radix + dig >= cap) by (nonlinear_arith)
                        requires
                            radix >= 2,
                            dig >= 0,
                            cap >= 0,
                    ;
                    if v < cap {
                        assert(acc == v);
                    } else {
                        assert(acc == cap);
                    }
                    assert(acc * radix + dig <= cap * 36 + 36) by (nonlinear_arith)
                        requires
                            acc <= cap,
                            radix <= 36,
                            dig < 36,
                    ;
                    assert(all_digits(d.take(j + 1), radix as nat)) by {
                        assert forall|i: int| 0 <= i < d.take(j + 1).len() implies (#[trigger] digit_of(
                            d.take(j + 1)[i],
                            radix as nat,
                        )) is Some by {
                            if i < j {
                                assert(d.take(j + 1)[i] == d.take(j)[i]);
                            }
                        }
                    }
                }
                let next = acc * (radix as u128) + (dig as u128);
                acc = if next < cap {
                    next
                } else {
                    cap
                };
                k = k + 1;
            },
        }
    }
    proof {
        assert(d.take(n - start) =~= d);
    }
    if acc < cap {
        Some(acc as u64)
    } else {
        None
    }
}

/// Reads `s` as `parse_signed` says, for the type holding `min..=max`.
pub fn parse_signed_decimal(s: &Vec<char>, min: i64, max: i64) -> (r: Option<i64>)
    requires
        min <= 0 <= max,
    ensures
        match r {
            Some(v) => parse_signed(s@, min as int, max as int) == Some(v as int),
            None => parse_signed(s@, min as int, max as int) is None,
        },
{
    let n = s.len();
    if n == 0 {
        return None;
    }
    if n == 1 && (s[0] == '+' || s[0] == '-') {
        return None;
    }
    let neg = s[0] == '-';
    let start: usize = if s[0] == '+' || s[0] == '-' {
        1
    } else {
        0
    };
    let d = copy_digits(s, start);
    let ghost ds = if s@[0] == '+' || s@[0] == '-' {
        s@.subrange(1, n as int)
    } else {
        s@
    };
    assert(d@ =~= ds);
    if d[0] == '+' {
        proof {
            assert(digit_of(ds[0], 10) is None);
        }
        return None;
    }
    let bound: u64 = if neg {
        (0i128 - min as i128) as u64
    } else {
        max as u64
    };
    match parse_radix(&d, 10, bound) {
        Some(v) => {
            if neg {
                Some((0i128 - v as i128) as i64)
            } else {
                Some(v as i64)
            }
        },
        None => None,
    }
}

fn copy_digits(s: &Vec<char>, start: usize) -> (r: Vec<char>)
    requires
        start <= s.len(),
    ensures
        r@ == s@.subrange(start as int, s.len() as int),
{
    let mut r: Vec<char> = Vec::new();
    let mut k = start;
    while k < s.len()
        invariant
            start <= k <= s.len(),
            r@ == s@.subrange(start as int, k as int),
        decreases s.len() - k,
    {
        r.push(s[k]);
        proof {
            assert(r@ =~= s@.subrange(start as int, k + 1));
        }
        k = k + 1;
    }
    r
}

/// The digit character for `d < 16`.
pub fn digit_to_char(d: u64) -> (c: char)
    requires
        d < 16,
    ensures
        c == digit_char(d as nat),
{
    if d < 10 {
        ((48 + d) as u8) as char
    } else {
        ((87 + d) as u8) as char
    }
}

/// Appends `n` written in `radix` to `out`.
pub fn push_radix(out: &mut Vec<char>, n: u64, radix: u64)
    requires
        2 <= radix <= 16,
    ensures
        final(out)@ == old(out)@ + radix_repr(n as nat, radix as nat),
    decreases n,
{
    if n < radix {
        out.push(digit_to_char(n));
    } else {
        assert(n / radix < n) by (nonlinear_arith)
            requires
                n >= radix,
                radix >= 2,
        ;
        push_radix(out, n / radix, radix);
        out.push(digit_to_char(n % radix));
        proof {
            assert(old(out)@ + radix_repr(n as nat, radix as nat) =~= old(out)@ + radix_repr(
                (n / radix) as nat,
                radix as nat,
            ) + seq![digit_char((n % radix) as nat)]);
        }
    }
}

} // verus!

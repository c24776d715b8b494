//! Text utilities: turning string slices into character vectors, string
//! equality over views, and parsing of unsigned integers in a given radix
//! with the grammar `[+]digits`, rejecting the empty body, any non-digit,
//! and any value that does not fit in `usize`.

use vstd::prelude::*;

verus! {

use vstd::std_specs::iter::IteratorSpec;

broadcast use vstd::string::next_postcondition, vstd::string::axiom_spec_iter;

/// Collects the characters of a string slice into a vector.
pub fn str_to_chars(s: &str) -> (v: Vec<char>)
    ensures
        v@ == s@,
{
    let mut it = s.chars();
    let mut v: Vec<char> = Vec::new();
    loop
        invariant
            it.obeys_prophetic_iter_laws(),
            v@ + it.remaining() == s@,
        ensures
            v@ == s@,
        decreases s@.len() - v@.len(),
    {
        let ghost rem = it.remaining();
        match it.next() {
            Some(c) => {
                proof {
                    assert(rem == seq![rem[0]] + rem.drop_first());
                }
                v.push(c);
            },
            None => {
                assert(v@ =~= s@);
                break ;
            },
        }
    }
    v
}

/// Compares two string slices for equality of their character sequences.
pub fn str_eq(a: &str, b: &str) -> (r: bool)
    ensures
        r == (a@ == b@),
{
    let sa: String = a.to_owned();
    let sb: String = b.to_owned();
    let r = sa == sb;
    proof {
        if a@ == b@ {
            assert(sa@ =~= sb@);
        }
    }
    r
}

/// The numeric value of `c` as a digit in base `radix`, or `None` if `c` is
/// not a digit of that base. Digits are `0`-`9`, then `a`-`z` or `A`-`Z`
/// for values ten and above.
pub open spec fn spec_digit_val(c: char, radix: u32) -> Option<u32> {
    let v = if '0' as u32 <= c as u32 && c as u32 <= '9' as u32 {
        (c as u32 - '0' as u32) as int
    } else if 'a' as u32 <= c as u32 && c as u32 <= 'z' as u32 {
        c as u32 - 'a' as u32 + 10
    } else if 'A' as u32 <= c as u32 && c as u32 <= 'Z' as u32 {
        c as u32 - 'A' as u32 + 10
    } else {
        -1
    };
    if 0 <= v < radix {
        Some(v as u32)
    } else {
        None
    }
}

/// Computes the digit value of `c` in base `radix`.
pub fn digit_val(c: char, radix: u32) -> (r: Option<u32>)
    requires
        radix <= 36,
    ensures
        r == spec_digit_val(c, radix),
{
    let u = c as u32;
    let v: i64 = if '0' as u32 <= u && u <= '9' as u32 {
        (u - '0' as u32) as i64
    } else if 'a' as u32 <= u && u <= 'z' as u32 {
        (u - 'a' as u32 + 10) as i64
    } else if 'A' as u32 <= u && u <= 'Z' as u32 {
        (u - 'A' as u32 + 10) as i64
    } else {
        -1
    };
    if 0 <= v && v < radix as i64 {
        Some(v as u32)
    } else {
        None
    }
}

/// The value of a sequence of digits of base `radix`, most significant
/// first, taking each character's digit value (zero if it is not a digit).
pub open spec fn spec_digits_value(s: Seq<char>, radix: u32) -> nat
    decreases s.len(),
{
    if s.len() == 0 {
        0
    } else {
        (spec_digits_value(s.drop_last(), radix) * radix + (match spec_digit_val(
            s.last(),
            radix,
        ) {
            Some(v) => v as int,
            None => 0,
        })) as nat
    }
}

/// A longer digit prefix never has a smaller value.
pub proof fn lemma_digits_value_mono(s: Seq<char>, i: int, j: int, radix: u32)
    requires
        0 <= i <= j <= s.len(),
        radix >= 1,
    ensures
        spec_digits_value(s.take(i), radix) <= spec_digits_value(s.take(j), radix),
    decreases j - i,
{
    if i < j {
        lemma_digits_value_mono(s, i, j - 1, radix);
        let p = s.take(j);
        assert(p.drop_last() =~= s.take(j - 1));
        let prev = spec_digits_value(s.take(j - 1), radix);
        assert(prev * radix >= prev * 1) by (nonlinear_arith)
            requires radix >= 1, prev >= 0;
    }
}

/// Whether every character of `s` is a digit of base `radix`.
pub open spec fn spec_all_digits(s: Seq<char>, radix: u32) -> bool
    decreases s.len(),
{
    s.len() == 0 || (spec_digit_val(s.last(), radix) is Some && spec_all_digits(
        s.drop_last(),
        radix,
    ))
}

/// In an all-digit sequence, every position holds a digit.
pub proof fn lemma_all_digits_at(s: Seq<char>, radix: u32, j: int)
    requires
        spec_all_digits(s, radix),
        0 <= j < s.len(),
    ensures
        spec_digit_val(s[j], radix) is Some,
    decreases s.len(),
{
    if j < s.len() - 1 {
        lemma_all_digits_at(s.drop_last(), radix, j);
    }
}

/// Parses `s` as an unsigned integer in base `radix`: an optional leading
/// `+`, then one or more digits, whose value must fit in `usize`.
pub open spec fn spec_parse_uint(s: Seq<char>, radix: u32) -> Option<usize> {
    let body = if s.len() >= 1 && s[0] == '+' {
        s.skip(1)
    } else {
        s
    };
    if body.len() == 0 {
        None
    } else if !spec_all_digits(body, radix) {
        None
    } else if spec_digits_value(body, radix) > usize::MAX {
        None
    } else {
        Some(spec_digits_value(body, radix) as usize)
    }
}

/// Parses the characters of `v` from position `from` on as an unsigned
/// integer in base `radix`.
pub fn parse_uint_chars(v: &Vec<char>, from: usize, radix: u32) -> (r: Option<usize>)
    requires
        from <= v@.len(),
        2 <= radix <= 36,
    ensures
        r == spec_parse_uint(v@.skip(from as int), radix),
{
    let ghost s = v@.skip(from as int);
    let start: usize = if from < v.len() && v[from] == '+' {
        from + 1
    } else {
        from
    };
    let ghost body = if s.len() >= 1 && s[0] == '+' {
        s.skip(1)
    } else {
        s
    };
    proof {
        assert(body =~= v@.skip(start as int));
    }
    if start == v.len() {
        return None;
    }
    let mut acc: usize = 0;
    let mut i: usize = start;
    while i < v.len()
        invariant
            start <= i <= v@.len(),
            start < v@.len(),
            2 <= radix <= 36,
            body == v@.skip(start as int),
            s == v@.skip(from as int),
            body == (if s.len() >= 1 && s[0] == '+' {
                s.skip(1)
            } else {
                s
            }),
            from <= start,
            spec_all_digits(body.take(i - start), radix),
            acc == spec_digits_value(body.take(i - start), radix),
        decreases v@.len() - i,
    {
        let c = v[i];
        assert(body[i - start] == v@[i as int]);
        match digit_val(c, radix) {
            None => {
                proof {
                    if spec_all_digits(body, radix) {
                        lemma_all_digits_at(body, radix, i - start);
                    }
                }
                return None;
            },
            Some(d) => {
                proof {
                    assert(body.take(i + 1 - start).drop_last() =~= body.take(i - start));
                    assert(acc as int * radix as int + d as int <= usize::MAX as int * 36 + 35)
                        by (nonlinear_arith)
                        requires
                            acc <= usize::MAX,
                            2 <= radix <= 36,
                            d < radix,
                    ;
                }
                let wide: u128 = acc as u128 * radix as u128 + d as u128;
                if wide > usize::MAX as u128 {
                    proof {
                        assert(body.take(i + 1 - start).last() == body[i - start]);
                        assert(spec_digits_value(body.take(i + 1 - start), radix) == acc * radix
                            + d);
                        lemma_digits_value_mono(body, i + 1 - start, body.len() as int, radix);
                        assert(body.take(body.len() as int) =~= body);
                        assert(spec_digits_value(body, radix) > usize::MAX);
                    }
                    return None;
                }
                acc = wide as usize;
                i = i + 1;
            },
        }
    }
    proof {
        assert(body.take(i - start) =~= body);
    }
    Some(acc)
}

/// Parses a whole string slice as an unsigned integer in base `radix`.
pub fn parse_uint(s: &str, radix: u32) -> (r: Option<usize>)
    requires
        2 <= radix <= 36,
    ensures
        r == spec_parse_uint(s@, radix),
{
    let v = str_to_chars(s);
    proof {
        assert(v@.skip(0) =~= s@);
    }
    parse_uint_chars(&v, 0, radix)
}

} // verus!

//! Reading the host service's command-line settings.
use vstd::prelude::*;
use vstd::string::*;
use crate::host::Backend;
use crate::text::{str_eq, decimal, digit_char};

verus! {

/// The backend a `--backend` value names: `wasm` or `binary`.
pub open spec fn spec_parse_backend(name: Seq<char>) -> Option<Backend> {
    if name == seq!['w', 'a', 's', 'm'] {
        Some(Backend::Wasm)
    } else if name == seq!['b', 'i', 'n', 'a', 'r', 'y'] {
        Some(Backend::Binary)
    } else {
        None
    }
}

/// The backend a `--backend` value names, if any.
pub fn parse_backend(name: &str) -> (res: Option<Backend>)
    ensures
        res == spec_parse_backend(name@),
{
    let wasm = "wasm";
    let binary = "binary";
    proof {
        reveal_strlit("wasm");
        reveal_strlit("binary");
    }
    assert(wasm@ =~= seq!['w', 'a', 's', 'm']);
    assert(binary@ =~= seq!['b', 'i', 'n', 'a', 'r', 'y']);
    if str_eq(name, wasm) {
        Some(Backend::Wasm)
    } else if str_eq(name, binary) {
        Some(Backend::Binary)
    } else {
        None
    }
}

pub open spec fn is_digit(c: char) -> bool {
    '0' <= c <= '9'
}

pub open spec fn digit_value(c: char) -> nat {
    (c as nat - '0' as nat) as nat
}

/// The number the decimal digits `s` write.
pub open spec fn digits_value(s: Seq<char>) -> nat
    decreases s.len(),
{
    if s.len() == 0 {
        0
    } else {
        digits_value(s.drop_last()) * 10 + digit_value(s.last())
    }
}

pub open spec fn all_digits(s: Seq<char>) -> bool {
    forall|i: int| 0 <= i < s.len() ==> is_digit(#[trigger] s[i])
}

/// The port `s` writes, as `u16::from_str` reads it: an optional `+`, then
/// one or more decimal digits whose value fits in 16 bits.
pub open spec fn spec_parse_port(s: Seq<char>) -> Option<u16> {
    let digits = if s.len() > 0 && s[0] == '+' {
        s.drop_first()
    } else {
        s
    };
    if digits.len() > 0 && all_digits(digits) && digits_value(digits) <= 65535 {
        Some(digits_value(digits) as u16)
    } else {
        None
    }
}

/// A number written with more digits is at least the number its first
/// digits write.
proof fn lemma_digits_value_prefix(s: Seq<char>, k: int)
    requires
        0 <= k <= s.len(),
    ensures
        digits_value(s.take(k)) <= digits_value(s),
    decreases s.len(),
{
    if k < s.len() {
        lemma_digits_value_prefix(s.drop_last(), k);
        assert(s.drop_last().take(k) =~= s.take(k));
    } else {
        assert(s.take(k) =~= s);
    }
}

/// The port `s` writes, if it writes one.
pub fn parse_port(s: &str) -> (res: Option<u16>)
    ensures
        res == spec_parse_port(s@),
{
    let len = s.unicode_len();
    let start: usize = if len > 0 && s.get_char(0) == '+' {
        1
    } else {
        0
    };
    let ghost digits = s@.subrange(start as int, len as int);
    assert(digits =~= (if s@.len() > 0 && s@[0] == '+' {
        s@.drop_first()
    } else {
        s@
    }));
    if start == len {
        return None;
    }
    let mut value: u32 = 0;
    let mut i: usize = start;
    assert(digits.take(0) =~= Seq::<char>::empty());
    while i < len
        invariant
            start <= i <= len,
            len == s@.len(),
            digits == s@.subrange(start as int, len as int),
            digits == (if s@.len() > 0 && s@[0] == '+' {
                s@.drop_first()
            } else {
                s@
            }),
            value <= 65535,
            value == digits_value(digits.take(i - start)),
            all_digits(digits.take(i - start)),
        decreases len - i,
    {
        let c = s.get_char(i);
        assert(digits[i - start] == c);
        if !('0' <= c && c <= '9') {
            assert(!is_digit(digits[i - start]));
            return None;
        }
        let d: u32 = (c as u32) - ('0' as u32);
        let ghost next = digits.take(i - start + 1);
        assert(next.drop_last() =~= digits.take(i - start));
        assert(next.last() == c);
        let v = value * 10 + d;
        assert(v == digits_value(next));
        if v > 65535 {
            proof {
                if all_digits(digits) {
                    lemma_digits_value_prefix(digits, i - start + 1);
                }
            }
            return None;
        }
        value = v;
        i = i + 1;
        assert(all_digits(digits.take(i - start))) by {
            assert forall|j: int| 0 <= j < i - start implies is_digit(#[trigger] digits.take(i - start)[j]) by {
                if j < i - start - 1 {
                    assert(digits.take(i - start)[j] == digits.take(i - start - 1)[j]);
                }
            }
        }
    }
    assert(digits.take(len - start) =~= digits);
    Some(value as u16)
}

/// The decimal text of `n` is all digits and writes `n`.
pub proof fn lemma_decimal_digits(n: nat)
    ensures
        decimal(n).len() > 0,
        all_digits(decimal(n)),
        digits_value(decimal(n)) == n,
        decimal(n)[0] != '+',
    decreases n,
{
    if n < 10 {
        let d = decimal(n);
        assert(d.drop_last() =~= Seq::<char>::empty());
        assert(d.last() == digit_char(n));
        assert(digit_char(n) as nat == '0' as nat + n);
        assert(digit_value(d.last()) == n);
        assert(digits_value(d.drop_last()) == 0);
        assert(digits_value(d) == digits_value(d.drop_last()) * 10 + digit_value(d.last()));
    } else {
        lemma_decimal_digits(n / 10);
        let d = decimal(n);
        let h = decimal(n / 10);
        assert(d.drop_last() =~= h);
        assert(d.last() == digit_char(n % 10));
        assert(digit_char(n % 10) as nat == '0' as nat + n % 10);
        assert((n / 10) * 10 + n % 10 == n);
        assert(digit_value(d.last()) == n % 10);
        assert(digits_value(d) == digits_value(h) * 10 + digit_value(d.last()));
        assert(d[0] == h[0]);
        assert forall|i: int| 0 <= i < d.len() implies is_digit(#[trigger] d[i]) by {
            if i < h.len() {
                assert(d[i] == h[i]);
            }
        }
    }
}

/// A port written in decimal reads back as the same port.
pub proof fn lemma_parse_port_of_decimal(port: u16)
    ensures
        spec_parse_port(decimal(port as nat)) == Some(port),
{
    lemma_decimal_digits(port as nat);
}

} // verus!

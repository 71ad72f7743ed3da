//! Verified integer parsing: decimal signed and unsigned values as std's
//! `FromStr` accepts them, and the `&`-prefixed register-address syntax of
//! the command line front end.

use vstd::prelude::*;

verus! {

pub open spec fn is_dec_digit(c: char) -> bool {
    '0' <= c && c <= '9'
}

pub open spec fn dec_digit_val(c: char) -> int {
    c as int - '0' as int
}

pub open spec fn all_dec_digits(s: Seq<char>) -> bool {
    forall|i: int| 0 <= i < s.len() ==> is_dec_digit(#[trigger] s[i])
}

/// The value of a digit string, most significant digit first.
pub open spec fn digits_val(s: Seq<char>) -> int
    decreases s.len(),
{
    if s.len() == 0 {
        0
    } else {
        digits_val(s.drop_last()) * 10 + dec_digit_val(s.last())
    }
}

pub open spec fn is_hex_digit(c: char) -> bool {
    ('0' <= c && c <= '9') || ('a' <= c && c <= 'f') || ('A' <= c && c <= 'F')
}

pub open spec fn hex_digit_val(c: char) -> int {
    if '0' <= c && c <= '9' {
        c as int - '0' as int
    } else if 'a' <= c && c <= 'f' {
        c as int - 'a' as int + 10
    } else {
        c as int - 'A' as int + 10
    }
}

pub open spec fn all_hex_digits(s: Seq<char>) -> bool {
    forall|i: int| 0 <= i < s.len() ==> is_hex_digit(#[trigger] s[i])
}

pub open spec fn hex_digits_val(s: Seq<char>) -> int
    decreases s.len(),
{
    if s.len() == 0 {
        0
    } else {
        hex_digits_val(s.drop_last()) * 16 + hex_digit_val(s.last())
    }
}

/// What `str::parse::<i64>` returns: an optional sign, then one or more
/// decimal digits, rejected when the value does not fit in an `i64`.
pub open spec fn spec_parse_i64(s: Seq<char>) -> Option<i64> {
    let signed = s.len() > 0 && (s[0] == '+' || s[0] == '-');
    let neg = s.len() > 0 && s[0] == '-';
    let ds = if signed {
        s.subrange(1, s.len() as int)
    } else {
        s
    };
    if ds.len() == 0 || !all_dec_digits(ds) {
        None
    } else {
        let v = if neg {
            -digits_val(ds)
        } else {
            digits_val(ds)
        };
        if -0x8000_0000_0000_0000 <= v <= 0x7FFF_FFFF_FFFF_FFFF {
            Some(v as i64)
        } else {
            None
        }
    }
}

/// What `str::parse::<u32>` returns: an optional `+`, then one or more
/// decimal digits, rejected when the value does not fit in a `u32`.
pub open spec fn spec_parse_u32(s: Seq<char>) -> Option<u32> {
    let signed = s.len() > 0 && s[0] == '+';
    let ds = if signed {
        s.subrange(1, s.len() as int)
    } else {
        s
    };
    if ds.len() == 0 || !all_dec_digits(ds) {
        None
    } else if digits_val(ds) <= 0xFFFF_FFFF {
        Some(digits_val(ds) as u32)
    } else {
        None
    }
}

/// What `u32::from_str_radix(s, 16)` returns: an optional `+`, then one or
/// more hexadecimal digits, rejected when the value does not fit in a `u32`.
pub open spec fn spec_parse_u32_hex(s: Seq<char>) -> Option<u32> {
    let signed = s.len() > 0 && s[0] == '+';
    let ds = if signed {
        s.subrange(1, s.len() as int)
    } else {
        s
    };
    if ds.len() == 0 || !all_hex_digits(ds) {
        None
    } else if hex_digits_val(ds) <= 0xFFFF_FFFF {
        Some(hex_digits_val(ds) as u32)
    } else {
        None
    }
}

/// Whether a value string fits a data layout directive's width, with signed
/// bounds for an explicitly signed literal and unsigned bounds otherwise.
pub open spec fn spec_layout_compat(layout: Seq<char>, value: Seq<char>) -> bool {
    let signed = value.len() > 0 && (value[0] == '+' || value[0] == '-');
    match spec_parse_i64(value) {
        Some(v) => if layout == ".word"@ {
            if signed {
                -0x8000_0000 <= v <= 0x7FFF_FFFF
            } else {
                v <= 0xFFFF_FFFF
            }
        } else if layout == ".half"@ {
            if signed {
                -0x8000 <= v <= 0x7FFF
            } else {
                v <= 0xFFFF
            }
        } else if layout == ".byte"@ {
            if signed {
                -0x80 <= v <= 0x7F
            } else {
                v <= 0xFF
            }
        } else if layout == ".space"@ {
            if signed {
                0 < v <= 0x7FFF_FFFF
            } else {
                v <= 0xFFFF_FFFF
            }
        } else {
            false
        },
        None => false,
    }
}

proof fn lemma_digits_val_nonneg(s: Seq<char>)
    requires
        all_dec_digits(s),
    ensures
        digits_val(s) >= 0,
    decreases s.len(),
{
    if s.len() > 0 {
        assert(all_dec_digits(s.drop_last())) by {
            assert(forall|i: int|
                0 <= i < s.len() - 1 ==> s.drop_last()[i] == #[trigger] s[i]);
        }
        lemma_digits_val_nonneg(s.drop_last());
    }
}

/// Appending digits never shrinks the value of a digit string.
proof fn lemma_digits_val_prefix(s: Seq<char>, k: int)
    requires
        all_dec_digits(s),
        0 <= k <= s.len(),
    ensures
        digits_val(s.subrange(0, k)) <= digits_val(s),
    decreases s.len() - k,
{
    if k < s.len() {
        lemma_digits_val_prefix(s, k + 1);
        let p = s.subrange(0, k);
        let q = s.subrange(0, k + 1);
        assert(q.drop_last() =~= p);
        assert(all_dec_digits(p));
        lemma_digits_val_nonneg(p);
        assert(digits_val(q) == digits_val(p) * 10 + dec_digit_val(q.last()));
        assert(dec_digit_val(q.last()) >= 0);
        assert(digits_val(p) * 10 >= digits_val(p));
    } else {
        assert(s.subrange(0, k) =~= s);
    }
}

proof fn lemma_hex_digits_val_nonneg(s: Seq<char>)
    requires
        all_hex_digits(s),
    ensures
        hex_digits_val(s) >= 0,
    decreases s.len(),
{
    if s.len() > 0 {
        assert(all_hex_digits(s.drop_last())) by {
            assert(forall|i: int|
                0 <= i < s.len() - 1 ==> s.drop_last()[i] == #[trigger] s[i]);
        }
        lemma_hex_digits_val_nonneg(s.drop_last());
    }
}

proof fn lemma_hex_digits_val_prefix(s: Seq<char>, k: int)
    requires
        all_hex_digits(s),
        0 <= k <= s.len(),
    ensures
        hex_digits_val(s.subrange(0, k)) <= hex_digits_val(s),
    decreases s.len() - k,
{
    if k < s.len() {
        lemma_hex_digits_val_prefix(s, k + 1);
        let p = s.subrange(0, k);
        let q = s.subrange(0, k + 1);
        assert(q.drop_last() =~= p);
        assert(all_hex_digits(p));
        lemma_hex_digits_val_nonneg(p);
        assert(hex_digits_val(q) == hex_digits_val(p) * 16 + hex_digit_val(q.last()));
        assert(hex_digit_val(q.last()) >= 0);
        assert(hex_digits_val(p) * 16 >= hex_digits_val(p));
    } else {
        assert(s.subrange(0, k) =~= s);
    }
}

/// A decimal literal without a minus sign never parses to a negative value.
pub proof fn lemma_parse_i64_nonneg(s: Seq<char>)
    ensures
        (spec_parse_i64(s) is Some && !(s.len() > 0 && s[0] == '-'))
            ==> spec_parse_i64(s).unwrap() >= 0,
{
    if spec_parse_i64(s) is Some && !(s.len() > 0 && s[0] == '-') {
        let signed = s.len() > 0 && (s[0] == '+' || s[0] == '-');
        let ds = if signed {
            s.subrange(1, s.len() as int)
        } else {
            s
        };
        lemma_digits_val_nonneg(ds);
    }
}

/// Parses a signed 64-bit decimal integer exactly as `str::parse::<i64>`.
pub fn parse_i64(s: &str) -> (r: Option<i64>)
    ensures
        r == spec_parse_i64(s@),
{
    let n = s.unicode_len();
    if n == 0 {
        return None;
    }
    let first = s.get_char(0);
    let signed = first == '+' || first == '-';
    let neg = first == '-';
    let start: usize = if signed {
        1
    } else {
        0
    };
    let ghost ds = if signed {
        s@.subrange(1, s@.len() as int)
    } else {
        s@
    };
    if n == start {
        return None;
    }
    // Largest magnitude that still fits: one more for the most negative value.
    let limit: u64 = if neg {
        0x8000_0000_0000_0000
    } else {
        0x7FFF_FFFF_FFFF_FFFF
    };
    let mut acc: u64 = 0;
    let mut i: usize = start;
    proof {
        assert(ds.subrange(0, 0) =~= Seq::<char>::empty());
    }
    while i < n
        invariant
            n == s@.len(),
            start <= i <= n,
            start == if signed { 1int } else { 0int },
            signed == (s@.len() > 0 && (s@[0] == '+' || s@[0] == '-')),
            neg == (s@.len() > 0 && s@[0] == '-'),
            ds == if signed { s@.subrange(1, s@.len() as int) } else { s@ },
            limit == if neg { 0x8000_0000_0000_0000u64 } else { 0x7FFF_FFFF_FFFF_FFFFu64 },
            all_dec_digits(ds.subrange(0, i - start)),
            acc == digits_val(ds.subrange(0, i - start)),
            acc <= limit,
        decreases n - i,
    {
        let c = s.get_char(i);
        proof {
            assert(ds[i - start] == s@[i as int]);
        }
        if !(c >= '0' && c <= '9') {
            proof {
                assert(!is_dec_digit(ds[i - start]));
                assert(!all_dec_digits(ds));
            }
            return None;
        }
        let d: u64 = (c as u32 - 48) as u64;
        let ghost prev = ds.subrange(0, i - start);
        let ghost cur = ds.subrange(0, i + 1 - start);
        proof {
            assert(cur.drop_last() =~= prev);
            assert(cur.last() == ds[i - start]);
            assert(all_dec_digits(cur));
            assert(digits_val(cur) == acc * 10 + d);
        }
        let acc10 = match acc.checked_mul(10) {
            Some(v) => v,
            None => {
                proof {
                    if all_dec_digits(ds) {
                        lemma_digits_val_prefix(ds, i + 1 - start);
                        assert(digits_val(ds) >= digits_val(cur));
                    }
                }
                return None;
            },
        };
        let acc2 = match acc10.checked_add(d) {
            Some(v) => v,
            None => {
                proof {
                    if all_dec_digits(ds) {
                        lemma_digits_val_prefix(ds, i + 1 - start);
                        assert(digits_val(ds) >= digits_val(cur));
                    }
                }
                return None;
            },
        };
        if acc2 > limit {
            proof {
                if all_dec_digits(ds) {
                    lemma_digits_val_prefix(ds, i + 1 - start);
                    assert(digits_val(ds) >= digits_val(cur));
                }
            }
            return None;
        }
        acc = acc2;
        i = i + 1;
    }
    proof {
        assert(ds.subrange(0, ds.len() as int) =~= ds);
    }
    if neg {
        if acc == 0x8000_0000_0000_0000 {
            Some(i64::MIN)
        } else {
            Some(-(acc as i64))
        }
    } else {
        Some(acc as i64)
    }
}

/// Parses an unsigned 32-bit decimal integer exactly as `str::parse::<u32>`.
pub fn parse_u32(s: &str) -> (r: Option<u32>)
    ensures
        r == spec_parse_u32(s@),
{
    let n = s.unicode_len();
    if n == 0 {
        return None;
    }
    let signed = s.get_char(0) == '+';
    let start: usize = if signed {
        1
    } else {
        0
    };
    let ghost ds = if signed {
        s@.subrange(1, s@.len() as int)
    } else {
        s@
    };
    if n == start {
        return None;
    }
    let mut acc: u64 = 0;
    let mut i: usize = start;
    proof {
        assert(ds.subrange(0, 0) =~= Seq::<char>::empty());
    }
    while i < n
        invariant
            n == s@.len(),
            start <= i <= n,
            start == if signed { 1int } else { 0int },
            signed == (s@.len() > 0 && s@[0] == '+'),
            ds == if signed { s@.subrange(1, s@.len() as int) } else { s@ },
            all_dec_digits(ds.subrange(0, i - start)),
            acc == digits_val(ds.subrange(0, i - start)),
            acc <= 0xFFFF_FFFF,
        decreases n - i,
    {
        let c = s.get_char(i);
        proof {
            assert(ds[i - start] == s@[i as int]);
        }
        if !(c >= '0' && c <= '9') {
            proof {
                assert(!is_dec_digit(ds[i - start]));
                assert(!all_dec_digits(ds));
            }
            return None;
        }
        let d: u64 = (c as u32 - 48) as u64;
        let ghost prev = ds.subrange(0, i - start);
        let ghost cur = ds.subrange(0, i + 1 - start);
        proof {
            assert(cur.drop_last() =~= prev);
            assert(cur.last() == ds[i - start]);
            assert(all_dec_digits(cur));
        }
        let acc2 = acc * 10 + d;
        proof {
            assert(digits_val(cur) == acc2);
        }
        if acc2 > 0xFFFF_FFFF {
            proof {
                if all_dec_digits(ds) {
                    lemma_digits_val_prefix(ds, i + 1 - start);
                    assert(digits_val(ds) >= digits_val(cur));
                }
            }
            return None;
        }
        acc = acc2;
        i = i + 1;
    }
    proof {
        assert(ds.subrange(0, ds.len() as int) =~= ds);
    }
    Some(acc as u32)
}

/// Parses an unsigned 32-bit hexadecimal integer exactly as
/// `u32::from_str_radix(s, 16)`.
pub fn parse_u32_hex(s: &str) -> (r: Option<u32>)
    ensures
        r == spec_parse_u32_hex(s@),
{
    let n = s.unicode_len();
    if n == 0 {
        return None;
    }
    let signed = s.get_char(0) == '+';
    let start: usize = if signed {
        1
    } else {
        0
    };
    let ghost ds = if signed {
        s@.subrange(1, s@.len() as int)
    } else {
        s@
    };
    if n == start {
        return None;
    }
    let mut acc: u64 = 0;
    let mut i: usize = start;
    proof {
        assert(ds.subrange(0, 0) =~= Seq::<char>::empty());
    }
    while i < n
        invariant
            n == s@.len(),
            start <= i <= n,
            start == if signed { 1int } else { 0int },
            signed == (s@.len() > 0 && s@[0] == '+'),
            ds == if signed { s@.subrange(1, s@.len() as int) } else { s@ },
            all_hex_digits(ds.subrange(0, i - start)),
            acc == hex_digits_val(ds.subrange(0, i - start)),
            acc <= 0xFFFF_FFFF,
        decreases n - i,
    {
        let c = s.get_char(i);
        proof {
            assert(ds[i - start] == s@[i as int]);
        }
        let d: u64 = if c >= '0' && c <= '9' {
            (c as u32 - 48) as u64
        } else if c >= 'a' && c <= 'f' {
            (c as u32 - 97 + 10) as u64
        } else if c >= 'A' && c <= 'F' {
            (c as u32 - 65 + 10) as u64
        } else {
            proof {
                assert(!is_hex_digit(ds[i - start]));
                assert(!all_hex_digits(ds));
            }
            return None;
        };
        let ghost prev = ds.subrange(0, i - start);
        let ghost cur = ds.subrange(0, i + 1 - start);
        proof {
            assert(cur.drop_last() =~= prev);
            assert(cur.last() == ds[i - start]);
            assert(all_hex_digits(cur));
        }
        let acc2 = acc * 16 + d;
        proof {
            assert(hex_digits_val(cur) == acc2);
        }
        if acc2 > 0xFFFF_FFFF {
            proof {
                if all_hex_digits(ds) {
                    lemma_hex_digits_val_prefix(ds, i + 1 - start);
                    assert(hex_digits_val(ds) >= hex_digits_val(cur));
                }
            }
            return None;
        }
        acc = acc2;
        i = i + 1;
    }
    proof {
        assert(ds.subrange(0, ds.len() as int) =~= ds);
    }
    Some(acc as u32)
}

/// What the command line front end accepts as a memory address: `&` followed
/// by a decimal number, or `&0x` followed by a hexadecimal number.
pub open spec fn spec_valid_address(s: Seq<char>) -> Option<u32> {
    if s.len() > 0 && s[0] == '&' {
        if s.len() >= 3 && s[1] == '0' && s[2] == 'x' {
            spec_parse_u32_hex(s.subrange(3, s.len() as int))
        } else {
            spec_parse_u32(s.subrange(1, s.len() as int))
        }
    } else {
        None
    }
}

/// Recognizes a `&`-prefixed memory address, decimal or `0x`-hexadecimal.
pub fn get_valid_address(addr: &str) -> (r: Option<u32>)
    ensures
        r == spec_valid_address(addr@),
{
    let n = addr.unicode_len();
    if n == 0 || addr.get_char(0) != '&' {
        return None;
    }
    if n >= 3 && addr.get_char(1) == '0' && addr.get_char(2) == 'x' {
        let rest = addr.substring_char(3, n);
        parse_u32_hex(rest)
    } else {
        let rest = addr.substring_char(1, n);
        parse_u32(rest)
    }
}

} // verus!

//! Small verified text utilities shared by the lexer, the parser and the
//! token display code: decimal rendering of `u32`, string equality, and
//! trusted access to std's Unicode character classes.

use vstd::prelude::*;

verus! {

/// The character for a single decimal digit value.
pub open spec fn digit_char(d: int) -> char {
    if d == 0 {
        '0'
    } else if d == 1 {
        '1'
    } else if d == 2 {
        '2'
    } else if d == 3 {
        '3'
    } else if d == 4 {
        '4'
    } else if d == 5 {
        '5'
    } else if d == 6 {
        '6'
    } else if d == 7 {
        '7'
    } else if d == 8 {
        '8'
    } else {
        '9'
    }
}

/// Decimal rendering of a natural number, most significant digit first.
pub open spec fn spec_dec(v: nat) -> Seq<char>
    decreases v,
{
    if v < 10 {
        seq![digit_char(v as int)]
    } else {
        spec_dec(v / 10) + seq![digit_char((v % 10) as int)]
    }
}

/// Digits collected least significant first, rendered most significant first.
pub open spec fn rev_chars(ds: Seq<u8>) -> Seq<char>
    decreases ds.len(),
{
    if ds.len() == 0 {
        Seq::empty()
    } else {
        seq![digit_char(ds.last() as int)] + rev_chars(ds.drop_last())
    }
}

proof fn lemma_rev_chars_cons(a: u8, s: Seq<u8>)
    ensures
        rev_chars(seq![a] + s) == rev_chars(s) + seq![digit_char(a as int)],
    decreases s.len(),
{
    let whole = seq![a] + s;
    if s.len() == 0 {
        assert(whole.len() == 1);
        assert(whole.last() == a);
        assert(rev_chars(whole) == seq![digit_char(a as int)] + rev_chars(whole.drop_last()));
        assert(rev_chars(whole.drop_last()) == Seq::<char>::empty());
        assert(rev_chars(s) == Seq::<char>::empty());
        assert(rev_chars(whole) =~= rev_chars(s) + seq![digit_char(a as int)]);
    } else {
        assert(whole.last() == s.last());
        assert(whole.drop_last() =~= seq![a] + s.drop_last());
        lemma_rev_chars_cons(a, s.drop_last());
        assert(rev_chars(whole) == seq![digit_char(s.last() as int)] + rev_chars(
            seq![a] + s.drop_last(),
        ));
        assert(rev_chars(s) == seq![digit_char(s.last() as int)] + rev_chars(s.drop_last()));
        assert(rev_chars(whole) =~= rev_chars(s) + seq![digit_char(a as int)]);
    }
}

fn digit_str(d: u8) -> (r: &'static str)
    requires
        d < 10,
    ensures
        r@ == seq![digit_char(d as int)],
{
    proof {
        reveal_strlit("0");
        reveal_strlit("1");
        reveal_strlit("2");
        reveal_strlit("3");
        reveal_strlit("4");
        reveal_strlit("5");
        reveal_strlit("6");
        reveal_strlit("7");
        reveal_strlit("8");
        reveal_strlit("9");
    }
    let r = if d == 0 {
        "0"
    } else if d == 1 {
        "1"
    } else if d == 2 {
        "2"
    } else if d == 3 {
        "3"
    } else if d == 4 {
        "4"
    } else if d == 5 {
        "5"
    } else if d == 6 {
        "6"
    } else if d == 7 {
        "7"
    } else {
        "8"
    };
    let r = if d == 9 { "9" } else { r };
    proof {
        assert(r@ =~= seq![digit_char(d as int)]);
    }
    r
}

/// Renders a `u32` in decimal, exactly as `spec_dec` describes.
pub fn u32_to_string(v: u32) -> (s: String)
    ensures
        s@ == spec_dec(v as nat),
{
    if v == 0 {
        let s = String::from_str("0");
        proof {
            reveal_strlit("0");
            assert(s@ =~= spec_dec(0));
        }
        return s;
    }
    let mut digits: Vec<u8> = Vec::new();
    let mut x: u32 = v;
    proof {
        assert(spec_dec(v as nat) =~= spec_dec(x as nat) + rev_chars(digits@));
    }
    while x > 0
        invariant
            x > 0 ==> spec_dec(v as nat) == spec_dec(x as nat) + rev_chars(digits@),
            x == 0 ==> spec_dec(v as nat) == rev_chars(digits@),
            forall|j: int| 0 <= j < digits@.len() ==> digits@[j] < 10,
        decreases x,
    {
        let d: u8 = (x % 10) as u8;
        let ghost old_digits = digits@;
        let ghost old_x = x;
        digits.push(d);
        x = x / 10;
        proof {
            assert(digits@.last() == d);
            assert(digits@.drop_last() =~= old_digits);
            if x > 0 {
                assert(spec_dec(old_x as nat) == spec_dec(x as nat) + seq![
                    digit_char(d as int),
                ]);
                assert(spec_dec(v as nat) =~= spec_dec(x as nat) + rev_chars(digits@));
            } else {
                assert(spec_dec(old_x as nat) == seq![digit_char(d as int)]);
                assert(spec_dec(v as nat) =~= rev_chars(digits@));
            }
        }
    }
    let mut s = String::new();
    let mut i: usize = digits.len();
    proof {
        assert(digits@.subrange(i as int, digits@.len() as int) =~= Seq::<u8>::empty());
    }
    while i > 0
        invariant
            i <= digits@.len(),
            forall|j: int| 0 <= j < digits@.len() ==> digits@[j] < 10,
            spec_dec(v as nat) == rev_chars(digits@),
            s@ == rev_chars(digits@.subrange(i as int, digits@.len() as int)),
        decreases i,
    {
        i = i - 1;
        let ghost pre = s@;
        s.append(digit_str(digits[i]));
        proof {
            let n = digits@.len() as int;
            let tail = digits@.subrange(i + 1, n);
            assert(digits@.subrange(i as int, n) =~= seq![digits@[i as int]] + tail);
            lemma_rev_chars_cons(digits@[i as int], tail);
            assert(s@ =~= rev_chars(digits@.subrange(i as int, n)));
        }
    }
    proof {
        assert(digits@.subrange(0, digits@.len() as int) =~= digits@);
    }
    s
}

/// Renders a `u64` in decimal, exactly as `spec_dec` describes.
pub fn u64_to_string(v: u64) -> (s: String)
    ensures
        s@ == spec_dec(v as nat),
{
    if v == 0 {
        let s = String::from_str("0");
        proof {
            reveal_strlit("0");
            assert(s@ =~= spec_dec(0));
        }
        return s;
    }
    let mut digits: Vec<u8> = Vec::new();
    let mut x: u64 = v;
    proof {
        assert(spec_dec(v as nat) =~= spec_dec(x as nat) + rev_chars(digits@));
    }
    while x > 0
        invariant
            x > 0 ==> spec_dec(v as nat) == spec_dec(x as nat) + rev_chars(digits@),
            x == 0 ==> spec_dec(v as nat) == rev_chars(digits@),
            forall|j: int| 0 <= j < digits@.len() ==> digits@[j] < 10,
        decreases x,
    {
        let d: u8 = (x % 10) as u8;
        let ghost old_digits = digits@;
        let ghost old_x = x;
        digits.push(d);
        x = x / 10;
        proof {
            assert(digits@.last() == d);
            assert(digits@.drop_last() =~= old_digits);
            if x > 0 {
                assert(spec_dec(old_x as nat) == spec_dec(x as nat) + seq![
                    digit_char(d as int),
                ]);
                assert(spec_dec(v as nat) =~= spec_dec(x as nat) + rev_chars(digits@));
            } else {
                assert(spec_dec(old_x as nat) == seq![digit_char(d as int)]);
                assert(spec_dec(v as nat) =~= rev_chars(digits@));
            }
        }
    }
    let mut s = String::new();
    let mut i: usize = digits.len();
    proof {
        assert(digits@.subrange(i as int, digits@.len() as int) =~= Seq::<u8>::empty());
    }
    while i > 0
        invariant
            i <= digits@.len(),
            forall|j: int| 0 <= j < digits@.len() ==> digits@[j] < 10,
            spec_dec(v as nat) == rev_chars(digits@),
            s@ == rev_chars(digits@.subrange(i as int, digits@.len() as int)),
        decreases i,
    {
        i = i - 1;
        let ghost pre = s@;
        s.append(digit_str(digits[i]));
        proof {
            let n = digits@.len() as int;
            let tail = digits@.subrange(i + 1, n);
            assert(digits@.subrange(i as int, n) =~= seq![digits@[i as int]] + tail);
            lemma_rev_chars_cons(digits@[i as int], tail);
            assert(s@ =~= rev_chars(digits@.subrange(i as int, n)));
        }
    }
    proof {
        assert(digits@.subrange(0, digits@.len() as int) =~= digits@);
    }
    s
}

/// A signed value rendered in decimal: a minus sign for negatives, then the
/// magnitude's digits.
pub open spec fn spec_dec_i64(v: int) -> Seq<char> {
    if v < 0 {
        seq!['-'] + spec_dec((-v) as nat)
    } else {
        spec_dec(v as nat)
    }
}

/// Renders an `i64` in decimal, exactly as `spec_dec_i64` describes.
pub fn i64_to_string(v: i64) -> (s: String)
    ensures
        s@ == spec_dec_i64(v as int),
{
    if v >= 0 {
        u64_to_string(v as u64)
    } else {
        let mag: u64 = if v == i64::MIN {
            0x8000_0000_0000_0000u64
        } else {
            (-v) as u64
        };
        let mut s = String::from_str("-");
        s.append(u64_to_string(mag).as_str());
        proof {
            reveal_strlit("-");
            assert(s@ =~= spec_dec_i64(v as int));
        }
        s
    }
}

/// Whether two string slices hold the same characters.
pub fn str_eq(a: &str, b: &str) -> (r: bool)
    ensures
        r == (a@ == b@),
{
    let n = a.unicode_len();
    if n != b.unicode_len() {
        return false;
    }
    let mut i: usize = 0;
    while i < n
        invariant
            n == a@.len(),
            n == b@.len(),
            i <= n,
            forall|j: int| 0 <= j < i ==> a@[j] == b@[j],
        decreases n - i,
    {
        if a.get_char(i) != b.get_char(i) {
            return false;
        }
        i = i + 1;
    }
    proof {
        assert(a@ =~= b@);
    }
    true
}

/// Relies on String's FromIterator over char: the result holds exactly the
/// given characters, in order.
#[verifier::external_body]
pub fn chars_to_string(v: &Vec<char>) -> (s: String)
    ensures
        s@ == v@,
{
    v.iter().collect()
}

/// What std's Unicode white-space class holds of a character; the lexer's
/// behaviour is stated over this name.
pub uninterp spec fn char_is_whitespace(c: char) -> bool;

/// Relies on char::is_whitespace: the result depends on the character alone
/// (a fixed Unicode property table).
#[verifier::external_body]
pub fn is_whitespace_char(c: char) -> (r: bool)
    ensures
        r == char_is_whitespace(c),
{
    c.is_whitespace()
}

/// What std's Unicode alphabetic class holds of a character.
pub uninterp spec fn char_is_alphabetic(c: char) -> bool;

/// Relies on char::is_alphabetic: the result depends on the character alone
/// (a fixed Unicode property table).
#[verifier::external_body]
pub fn is_alphabetic_char(c: char) -> (r: bool)
    ensures
        r == char_is_alphabetic(c),
{
    c.is_alphabetic()
}

/// What std's Unicode alphanumeric class holds of a character.
pub uninterp spec fn char_is_alphanumeric(c: char) -> bool;

/// Relies on char::is_alphanumeric: the result depends on the character alone
/// (a fixed Unicode property table).
#[verifier::external_body]
pub fn is_alphanumeric_char(c: char) -> (r: bool)
    ensures
        r == char_is_alphanumeric(c),
{
    c.is_alphanumeric()
}

} // verus!

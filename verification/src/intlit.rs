//! The integer-literal grammar for shim-table slot indices.
//!
//! A slot index may be written in any of the integer-literal forms of the
//! host language: decimal, or hexadecimal, octal or binary behind the
//! `0x`, `0o` and `0b` prefixes, with `_` separators among the digits and
//! an optional standard integer suffix. The slot name always renders the
//! literal's numeric value in base ten, whatever the source spelling.

use vstd::prelude::*;

use crate::text::{is_digit_char, char_is_digit, str_eq};

verus! {

/// A character usable as a digit in some base up to sixteen.
pub open spec fn is_hex_digit_char(c: char) -> bool {
    is_digit_char(c) || ('a' <= c && c <= 'f') || ('A' <= c && c <= 'F')
}

/// The numeric value of a digit character, letters standing for ten to
/// fifteen.
pub open spec fn hex_val(c: char) -> nat {
    if c == '0' {
        0
    } else if c == '1' {
        1
    } else if c == '2' {
        2
    } else if c == '3' {
        3
    } else if c == '4' {
        4
    } else if c == '5' {
        5
    } else if c == '6' {
        6
    } else if c == '7' {
        7
    } else if c == '8' {
        8
    } else if c == '9' {
        9
    } else if c == 'a' || c == 'A' {
        10
    } else if c == 'b' || c == 'B' {
        11
    } else if c == 'c' || c == 'C' {
        12
    } else if c == 'd' || c == 'D' {
        13
    } else if c == 'e' || c == 'E' {
        14
    } else {
        15
    }
}

/// Whether a character is a digit of the given base.
pub open spec fn is_digit_in_base(c: char, base: nat) -> bool {
    is_hex_digit_char(c) && hex_val(c) < base
}

/// First position at or after `i` that is neither a digit of the base nor
/// an underscore separator: the end of the literal's digit run.
pub open spec fn run_end(s: Seq<char>, i: int, base: nat) -> int
    decreases s.len() - i when 0 <= i <= s.len()
{
    if i < s.len() && (is_digit_in_base(s[i], base) || s[i] == '_') {
        run_end(s, i + 1, base)
    } else {
        i
    }
}

/// The digit run stays inside the string and holds only digits of the
/// base and underscores.
pub proof fn lemma_run_end_chars(s: Seq<char>, i: int, base: nat)
    requires
        0 <= i <= s.len(),
    ensures
        i <= run_end(s, i, base) <= s.len(),
        forall|m: int| i <= m < run_end(s, i, base) ==> is_digit_in_base(#[trigger] s[m], base)
            || s[m] == '_',
    decreases s.len() - i,
{
    if i < s.len() && (is_digit_in_base(s[i], base) || s[i] == '_') {
        lemma_run_end_chars(s, i + 1, base);
    }
}

/// The numeric value of a digit run, most significant digit first,
/// underscore separators skipped.
pub open spec fn base_val(s: Seq<char>, base: nat) -> nat
    decreases s.len(),
{
    if s.len() == 0 {
        0
    } else if s.last() == '_' {
        base_val(s.drop_last(), base)
    } else {
        base_val(s.drop_last(), base) * base + hex_val(s.last())
    }
}

/// The value of a digit run is at least the value of any of its prefixes:
/// appending digits never shrinks the value.
pub proof fn lemma_base_val_prefix_le(s: Seq<char>, j: int, base: nat)
    requires
        0 <= j <= s.len(),
        base >= 1,
    ensures
        base_val(s.subrange(0, j), base) <= base_val(s, base),
    decreases s.len(),
{
    if j == s.len() {
        assert(s.subrange(0, j) =~= s);
    } else {
        lemma_base_val_prefix_le(s.drop_last(), j, base);
        assert(s.drop_last().subrange(0, j) =~= s.subrange(0, j));
        if s.last() != '_' {
            assert(base_val(s.drop_last(), base) * base >= base_val(s.drop_last(), base))
                by (nonlinear_arith)
                requires
                    base >= 1,
            ;
        }
    }
}

/// One of the standard integer suffixes of the host language.
pub open spec fn is_int_suffix(t: Seq<char>) -> bool {
    ||| t == "u8"@
    ||| t == "u16"@
    ||| t == "u32"@
    ||| t == "u64"@
    ||| t == "u128"@
    ||| t == "usize"@
    ||| t == "i8"@
    ||| t == "i16"@
    ||| t == "i32"@
    ||| t == "i64"@
    ||| t == "i128"@
    ||| t == "isize"@
}

/// The base a literal is written in, read off its prefix.
pub open spec fn int_lit_base(s: Seq<char>) -> nat {
    if s.len() >= 2 && s[0] == '0' && s[1] == 'x' {
        16
    } else if s.len() >= 2 && s[0] == '0' && s[1] == 'o' {
        8
    } else if s.len() >= 2 && s[0] == '0' && s[1] == 'b' {
        2
    } else {
        10
    }
}

/// Where a literal's digits begin: after the two-character base prefix,
/// or at the front for decimal.
pub open spec fn int_lit_start(s: Seq<char>) -> int {
    if int_lit_base(s) == 10 {
        0
    } else {
        2
    }
}

/// A whole string that is one integer literal: an optional base prefix, a
/// run of digits of that base with underscore separators holding at least
/// one digit (a decimal literal opens with a digit), and an optional
/// standard integer suffix.
pub open spec fn int_lit_ok(s: Seq<char>) -> bool {
    let base = int_lit_base(s);
    let start = int_lit_start(s);
    let j = run_end(s, start, base);
    &&& s.len() > 0
    &&& (base == 10 ==> is_digit_char(s[0]))
    &&& (exists|k: int| start <= k < j && s[k] != '_')
    &&& (j == s.len() || is_int_suffix(s.subrange(j, s.len() as int)))
}

/// The numeric value of an integer literal: its digit run read in its
/// base.
pub open spec fn int_lit_val(s: Seq<char>) -> nat {
    base_val(
        s.subrange(int_lit_start(s), run_end(s, int_lit_start(s), int_lit_base(s))),
        int_lit_base(s),
    )
}

fn char_is_hex(c: char) -> (r: bool)
    ensures
        r == is_hex_digit_char(c),
{
    char_is_digit(c) || ('a' <= c && c <= 'f') || ('A' <= c && c <= 'F')
}

fn char_hex_val(c: char) -> (r: u32)
    requires
        is_hex_digit_char(c),
    ensures
        r as nat == hex_val(c),
        r < 16,
{
    if c == '0' {
        0
    } else if c == '1' {
        1
    } else if c == '2' {
        2
    } else if c == '3' {
        3
    } else if c == '4' {
        4
    } else if c == '5' {
        5
    } else if c == '6' {
        6
    } else if c == '7' {
        7
    } else if c == '8' {
        8
    } else if c == '9' {
        9
    } else if c == 'a' || c == 'A' {
        10
    } else if c == 'b' || c == 'B' {
        11
    } else if c == 'c' || c == 'C' {
        12
    } else if c == 'd' || c == 'D' {
        13
    } else if c == 'e' || c == 'E' {
        14
    } else {
        15
    }
}

fn char_in_base(c: char, base: u32) -> (r: bool)
    ensures
        r == is_digit_in_base(c, base as nat),
{
    if char_is_hex(c) {
        char_hex_val(c) < base
    } else {
        false
    }
}

fn run_end_exec(s: &str, i: usize, n: usize, base: u32) -> (j: usize)
    requires
        n == s@.len(),
        i <= n,
    ensures
        j == run_end(s@, i as int, base as nat),
        i <= j <= n,
    decreases n - i,
{
    if i < n {
        let c = s.get_char(i);
        if char_in_base(c, base) || c == '_' {
            return run_end_exec(s, i + 1, n, base);
        }
    }
    i
}

fn suffix_ok(t: &str) -> (r: bool)
    ensures
        r == is_int_suffix(t@),
{
    str_eq(t, "u8") || str_eq(t, "u16") || str_eq(t, "u32") || str_eq(t, "u64") || str_eq(
        t,
        "u128",
    ) || str_eq(t, "usize") || str_eq(t, "i8") || str_eq(t, "i16") || str_eq(t, "i32") || str_eq(
        t,
        "i64",
    ) || str_eq(t, "i128") || str_eq(t, "isize")
}

/// Reads a whole string as one integer literal. Returns the value exactly
/// when the string is a well-formed literal whose value fits the index
/// width, whatever base it is spelled in.
pub fn parse_u32_lit(s: &str) -> (r: Option<u32>)
    ensures
        r is Some <==> (int_lit_ok(s@) && int_lit_val(s@) <= u32::MAX),
        r matches Some(v) ==> v as nat == int_lit_val(s@),
{
    let n: usize = s.unicode_len();
    if n == 0 {
        return None;
    }
    let mut base: u32 = 10;
    let mut start: usize = 0;
    if n >= 2 && s.get_char(0) == '0' {
        let c1 = s.get_char(1);
        if c1 == 'x' {
            base = 16;
            start = 2;
        } else if c1 == 'o' {
            base = 8;
            start = 2;
        } else if c1 == 'b' {
            base = 2;
            start = 2;
        }
    }
    proof {
        assert(base as nat == int_lit_base(s@));
        assert(start as int == int_lit_start(s@));
    }
    if base == 10 {
        if !char_is_digit(s.get_char(0)) {
            return None;
        }
    }
    let j = run_end_exec(s, start, n, base);
    proof {
        lemma_run_end_chars(s@, start as int, base as nat);
        assert(s@.subrange(start as int, start as int) =~= Seq::<char>::empty());
    }

    let mut acc: u32 = 0;
    let mut k: usize = start;
    let mut seen: bool = false;
    let ghost mut wit: int = 0;
    while k < j
        invariant
            start <= k <= j <= n,
            n == s@.len(),
            base == 2 || base == 8 || base == 10 || base == 16,
            base as nat == int_lit_base(s@),
            start as int == int_lit_start(s@),
            j == run_end(s@, start as int, base as nat),
            forall|m: int| start <= m < j ==> is_digit_in_base(#[trigger] s@[m], base as nat)
                || s@[m] == '_',
            acc as nat == base_val(s@.subrange(start as int, k as int), base as nat),
            seen ==> start <= wit < k && s@[wit] != '_',
            !seen ==> forall|m: int| start <= m < k ==> s@[m] == '_',
        decreases j - k,
    {
        let c = s.get_char(k);
        proof {
            assert(s@.subrange(start as int, k + 1 as int).drop_last() =~= s@.subrange(
                start as int,
                k as int,
            ));
            assert(s@.subrange(start as int, k + 1 as int).last() == s@[k as int]);
        }
        if c == '_' {
        } else {
            let d: u32 = char_hex_val(c);
            proof {
                assert(is_digit_in_base(s@[k as int], base as nat));
                assert(d < base);
            }
            if acc > (u32::MAX - d) / base {
                proof {
                    assert((acc as nat) * (base as nat) + d as nat > u32::MAX as nat)
                        by (nonlinear_arith)
                        requires
                            acc as int > (u32::MAX - d) as int / (base as int),
                            d < base,
                            base >= 2,
                    ;
                    let run = s@.subrange(start as int, j as int);
                    lemma_base_val_prefix_le(run, k + 1 - start as int, base as nat);
                    assert(run.subrange(0, k + 1 - start as int) =~= s@.subrange(
                        start as int,
                        k + 1 as int,
                    ));
                    assert(int_lit_val(s@) > u32::MAX as nat);
                }
                return None;
            }
            proof {
                assert((acc as nat) * (base as nat) + d as nat <= u32::MAX as nat)
                    by (nonlinear_arith)
                    requires
                        acc as int <= (u32::MAX - d) as int / (base as int),
                        d < base,
                        base >= 2,
                ;
            }
            acc = acc * base + d;
            seen = true;
            proof {
                wit = k as int;
            }
        }
        k = k + 1;
    }

    if !seen {
        proof {
            assert(!int_lit_ok(s@));
        }
        return None;
    }
    if j < n {
        let t = s.substring_char(j, n);
        if !suffix_ok(t) {
            proof {
                assert(t@ == s@.subrange(j as int, n as int));
                assert(!int_lit_ok(s@));
            }
            return None;
        }
    }
    proof {
        assert(int_lit_ok(s@));
        assert(acc as nat == int_lit_val(s@));
    }
    Some(acc)
}

} // verus!

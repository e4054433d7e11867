//! Deterministic naming rules for the generated artifacts.
//!
//! The renamed implementation of a transformed function takes the reserved
//! prefix `RAW_` in front of its original external name; a shim-table slot
//! for index `i` and base name `f` is addressed as `SHIM<i>_<f>`.

use vstd::prelude::*;
use vstd::arithmetic::div_mod::lemma_fundamental_div_mod;

use crate::text::is_digit_char;

verus! {

/// The reserved prefix that marks the hidden implementation of a
/// transformed function.
pub open spec fn raw_prefix() -> Seq<char> {
    "RAW_"@
}

/// The renaming rule: the internal name of the hidden implementation is the
/// original external name behind the reserved prefix.
pub open spec fn rename_spec(name: Seq<char>) -> Seq<char> {
    raw_prefix() + name
}

/// Builds the internal name `RAW_<name>` for the renamed implementation.
pub fn rename(name: &str) -> (r: String)
    ensures
        r@ == rename_spec(name@),
{
    let mut s = String::from_str("RAW_");
    s.append(name);
    s
}

/// Distinct original names never collide after renaming: the renaming rule
/// only prepends a fixed prefix, so it is injective.
pub proof fn lemma_rename_injective(a: Seq<char>, b: Seq<char>)
    requires
        a != b,
    ensures
        rename_spec(a) != rename_spec(b),
{
    reveal_strlit("RAW_");
    if rename_spec(a) == rename_spec(b) {
        assert(a =~= rename_spec(a).subrange(4, rename_spec(a).len() as int));
        assert(b =~= rename_spec(b).subrange(4, rename_spec(b).len() as int));
    }
}

/// The character standing for a single decimal digit.
pub open spec fn digit_char(d: nat) -> char {
    if d == 0 {
        '0'
    } else if d == 1 {
        '1'
    } else if d == 2 {
        '2'
    } else if d == 3 {
        '3'
    } else if d == 4 {
        '4'
    } else if d == 5 {
        '5'
    } else if d == 6 {
        '6'
    } else if d == 7 {
        '7'
    } else if d == 8 {
        '8'
    } else {
        '9'
    }
}

/// The ordinary decimal rendering of a number: most significant digit
/// first, no leading zeros (a single `0` for zero itself).
pub open spec fn dec_spec(n: nat) -> Seq<char>
    decreases n,
{
    if n < 10 {
        seq![digit_char(n)]
    } else {
        dec_spec(n / 10) + seq![digit_char(n % 10)]
    }
}

/// The one-character string for a decimal digit.
fn digit_str(d: u32) -> (r: &'static str)
    requires
        d < 10,
    ensures
        r@ == seq![digit_char(d as nat)],
{
    proof {
        reveal_strlit("0");
        reveal_strlit("1");
        reveal_strlit("2");
        reveal_strlit("3");
        reveal_strlit("4");
        reveal_strlit("5");
        reveal_strlit("6");
        reveal_strlit("7");
        reveal_strlit("8");
        reveal_strlit("9");
    }
    let r: &'static str = if d == 0 {
        "0"
    } else if d == 1 {
        "1"
    } else if d == 2 {
        "2"
    } else if d == 3 {
        "3"
    } else if d == 4 {
        "4"
    } else if d == 5 {
        "5"
    } else if d == 6 {
        "6"
    } else if d == 7 {
        "7"
    } else if d == 8 {
        "8"
    } else {
        "9"
    };
    proof {
        assert(r@ =~= seq![digit_char(d as nat)]);
    }
    r
}

/// Renders a number in decimal, matching `dec_spec`.
pub fn u32_to_dec(n: u32) -> (r: String)
    ensures
        r@ == dec_spec(n as nat),
    decreases n,
{
    if n < 10 {
        String::from_str(digit_str(n))
    } else {
        let mut s = u32_to_dec(n / 10);
        s.append(digit_str(n % 10));
        s
    }
}

/// The character of a digit is a digit character.
proof fn lemma_digit_char_is_digit(d: nat)
    ensures
        is_digit_char(digit_char(d)),
{
}

/// On single digits the digit character determines the digit.
proof fn lemma_digit_char_injective(x: nat, y: nat)
    requires
        x < 10,
        y < 10,
        digit_char(x) == digit_char(y),
    ensures
        x == y,
{
}

/// Every character of a decimal rendering is a digit.
proof fn lemma_dec_spec_digits(n: nat)
    ensures
        forall|k: int| 0 <= k < dec_spec(n).len() ==> is_digit_char(#[trigger] dec_spec(n)[k]),
    decreases n,
{
    if n < 10 {
        lemma_digit_char_is_digit(n);
        assert(dec_spec(n) =~= seq![digit_char(n)]);
    } else {
        lemma_dec_spec_digits(n / 10);
        lemma_digit_char_is_digit(n % 10);
        assert(dec_spec(n) =~= dec_spec(n / 10) + seq![digit_char(n % 10)]);
        assert forall|k: int| 0 <= k < dec_spec(n).len() implies is_digit_char(
            #[trigger] dec_spec(n)[k],
        ) by {
            if k < dec_spec(n / 10).len() {
                assert(dec_spec(n)[k] == dec_spec(n / 10)[k]);
            } else {
                assert(dec_spec(n)[k] == digit_char(n % 10));
            }
        }
    }
}

/// A decimal rendering is never empty, and has at least two digits for a
/// number of two digits.
proof fn lemma_dec_spec_len(n: nat)
    ensures
        dec_spec(n).len() >= 1,
        n >= 10 ==> dec_spec(n).len() >= 2,
    decreases n,
{
    if n >= 10 {
        lemma_dec_spec_len(n / 10);
    }
}

/// Decimal rendering is injective: distinct numbers render differently.
proof fn lemma_dec_spec_injective(a: nat, b: nat)
    requires
        dec_spec(a) == dec_spec(b),
    ensures
        a == b,
    decreases a,
{
    lemma_dec_spec_len(a);
    lemma_dec_spec_len(b);
    if a < 10 && b < 10 {
        assert(dec_spec(a) =~= seq![digit_char(a)]);
        assert(dec_spec(b) =~= seq![digit_char(b)]);
        assert(dec_spec(a)[0] == digit_char(a));
        assert(dec_spec(b)[0] == digit_char(b));
        lemma_digit_char_injective(a, b);
    } else if a < 10 {
        assert(dec_spec(a).len() == 1);
    } else if b < 10 {
        assert(dec_spec(b).len() == 1);
    } else {
        assert(dec_spec(a) =~= dec_spec(a / 10) + seq![digit_char(a % 10)]);
        assert(dec_spec(b) =~= dec_spec(b / 10) + seq![digit_char(b % 10)]);
        assert(dec_spec(a).last() == digit_char(a % 10));
        assert(dec_spec(b).last() == digit_char(b % 10));
        lemma_digit_char_injective(a % 10, b % 10);
        assert(dec_spec(a).drop_last() =~= dec_spec(a / 10));
        assert(dec_spec(b).drop_last() =~= dec_spec(b / 10));
        lemma_dec_spec_injective(a / 10, b / 10);
        lemma_fundamental_div_mod(a as int, 10);
        lemma_fundamental_div_mod(b as int, 10);
    }
}

/// The naming rule for shim-table slots: slot `idx` of base name `base` is
/// addressed as `SHIM<idx>_<base>`.
pub open spec fn slot_name_spec(idx: nat, base: Seq<char>) -> Seq<char> {
    "SHIM"@ + dec_spec(idx) + "_"@ + base
}

/// Builds the external identifier `SHIM<idx>_<base>` of a shim-table slot.
pub fn slot_name(idx: u32, base: &str) -> (r: String)
    ensures
        r@ == slot_name_spec(idx as nat, base@),
{
    let mut s = String::from_str("SHIM");
    let digits = u32_to_dec(idx);
    s.append(digits.as_str());
    s.append("_");
    s.append(base);
    proof {
        assert(s@ =~= slot_name_spec(idx as nat, base@));
    }
    s
}

/// Distinct slots never collide: the slot-naming rule is injective in the
/// index and the base name together. The digits of the index run up to the
/// first underscore after the fixed prefix, so the name determines both.
pub proof fn lemma_slot_name_injective(i1: nat, b1: Seq<char>, i2: nat, b2: Seq<char>)
    requires
        i1 != i2 || b1 != b2,
    ensures
        slot_name_spec(i1, b1) != slot_name_spec(i2, b2),
{
    reveal_strlit("SHIM");
    reveal_strlit("_");
    if slot_name_spec(i1, b1) == slot_name_spec(i2, b2) {
        let s = slot_name_spec(i1, b1);
        let d1 = dec_spec(i1);
        let d2 = dec_spec(i2);
        let l1 = d1.len() as int;
        let l2 = d2.len() as int;
        lemma_dec_spec_digits(i1);
        lemma_dec_spec_digits(i2);
        lemma_dec_spec_len(i1);
        lemma_dec_spec_len(i2);
        assert(s[4 + l1] == '_');
        assert(s[4 + l2] == '_');
        assert(!is_digit_char('_'));
        if l1 < l2 {
            assert(s[4 + l1] == d2[l1]);
            assert(is_digit_char(d2[l1]));
        } else if l2 < l1 {
            assert(s[4 + l2] == d1[l2]);
            assert(is_digit_char(d1[l2]));
        } else {
            assert(d1 =~= s.subrange(4, 4 + l1));
            assert(d2 =~= s.subrange(4, 4 + l1));
            lemma_dec_spec_injective(i1, i2);
            assert(b1 =~= s.subrange(4 + l1 + 1, s.len() as int));
            assert(b2 =~= s.subrange(4 + l1 + 1, s.len() as int));
        }
    }
}

} // verus!

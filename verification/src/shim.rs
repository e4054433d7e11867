//! The shim-table reference generator: a pure rewrite from a slot index,
//! a base function name and a forwarded argument list to a call expression
//! targeting the correspondingly named slot.
//!
//! The generator validates nothing about the table itself: whether a slot
//! with the derived name exists is the surrounding build's responsibility.

use vstd::prelude::*;

use crate::intlit::{int_lit_ok, int_lit_val, parse_u32_lit};
use crate::naming::{slot_name, slot_name_spec};
use crate::text::{check_ident, is_ident};

verus! {

/// Why a shim-table reference request was rejected.
#[derive(Clone, Copy, Debug, PartialEq, Eq, Structural)]
pub enum ShimError {
    /// The first argument is missing, is not an integer literal, or its
    /// value does not fit the index width.
    BadIndex,
    /// The second argument is missing or is not a single bare identifier.
    BadTarget,
}

/// A synthesized call expression: a callee name and the forwarded
/// arguments, in their original order.
#[derive(Debug, PartialEq)]
pub struct CallExpr {
    /// The name of the shim-table slot being called.
    pub callee: String,
    /// The forwarded argument expressions, untouched.
    pub args: Vec<String>,
}

/// Specification-level value of a `CallExpr`.
pub struct CallExprV {
    pub callee: Seq<char>,
    pub args: Seq<Seq<char>>,
}

impl View for CallExpr {
    type V = CallExprV;

    open spec fn view(&self) -> CallExprV {
        CallExprV { callee: self.callee@, args: self.args.deep_view() }
    }
}

/// Whether a first argument is a usable slot index: an integer literal —
/// in any base, with separators and an optional standard suffix — whose
/// value fits the index width.
pub open spec fn index_ok(s: Seq<char>) -> bool {
    int_lit_ok(s) && int_lit_val(s) <= u32::MAX
}

/// Whether a whole request is accepted: at least the two positional
/// arguments, a numeric index and an identifier target.
pub open spec fn shim_ok(args: Seq<Seq<char>>) -> bool {
    args.len() >= 2 && index_ok(args[0]) && is_ident(args[1])
}

/// Builds the call expression dispatching through a shim-table slot.
///
/// The arguments are, in order: the slot index, the base function name,
/// then the expressions to forward. On success the callee is the slot
/// identifier `SHIM<index>_<name>` — the index's numeric value rendered
/// in base ten whatever its source spelling — and the argument list is
/// exactly the forwarded expressions, order and count preserved. The
/// request is rejected when the index is missing, not an integer literal
/// or too wide, and otherwise when the target is missing or not an
/// identifier.
pub fn with_shim(args: &Vec<String>) -> (r: Result<CallExpr, ShimError>)
    ensures
        r is Ok <==> shim_ok(args.deep_view()),
        r == Err::<CallExpr, ShimError>(ShimError::BadIndex) <==> !(args.deep_view().len() >= 1
            && index_ok(args.deep_view()[0])),
        r == Err::<CallExpr, ShimError>(ShimError::BadTarget) <==> (args.deep_view().len() >= 1
            && index_ok(args.deep_view()[0]) && !(args.deep_view().len() >= 2 && is_ident(
            args.deep_view()[1],
        ))),
        r matches Ok(c) ==> {
            &&& c@.callee == slot_name_spec(
                int_lit_val(args.deep_view()[0]),
                args.deep_view()[1],
            )
            &&& c@.args == args.deep_view().skip(2)
        },
{
    if args.len() == 0 {
        return Err(ShimError::BadIndex);
    }
    let idx: u32 = match parse_u32_lit(args[0].as_str()) {
        Some(v) => v,
        None => {
            return Err(ShimError::BadIndex);
        },
    };
    if args.len() == 1 {
        return Err(ShimError::BadTarget);
    }
    if !check_ident(args[1].as_str()) {
        return Err(ShimError::BadTarget);
    }

    let callee = slot_name(idx, args[1].as_str());
    let mut fwd: Vec<String> = Vec::new();
    let mut i: usize = 2;
    while i < args.len()
        invariant
            2 <= i <= args.len(),
            fwd.len() == i - 2,
            forall|j: int| 0 <= j < i - 2 ==> #[trigger] fwd.deep_view()[j] == args.deep_view()[j
                + 2],
        decreases args.len() - i,
    {
        let ghost pre = fwd.deep_view();
        fwd.push(args[i].clone());
        proof {
            assert(fwd.deep_view() =~= pre.push(args.deep_view()[i as int]));
        }
        i = i + 1;
    }
    proof {
        assert(fwd.deep_view() =~= args.deep_view().skip(2));
    }
    Ok(CallExpr { callee, args: fwd })
}

} // verus!

//! The trampoline synthesizer: the central transform.
//!
//! A validated function is split into a renamed copy holding the real
//! logic and a trampoline that keeps the original external name. The
//! trampoline's body is a fixed raw instruction sequence: optionally the
//! two 64-bit argument-marshalling instructions, then an address load of
//! the renamed implementation and a non-returning branch into the shared
//! safety-check entry point.

use vstd::prelude::*;

use crate::ast::{FnDef, FnAttr, AttrV, FnBody, Instr, InstrV};
use crate::naming::{rename, rename_spec};
use crate::options::{parse_options, parse_opts_spec};

verus! {

/// Why a transformation request was rejected.
#[derive(Clone, Copy, Debug, PartialEq, Eq, Structural)]
pub enum TransformError {
    /// The function lacks the required "stable unmangled external name"
    /// marker.
    MissingMarker,
    /// The modifier list is not a well-formed comma-separated identifier
    /// list.
    MalformedOptions,
}

/// The name of the single external safety-check entry point every
/// trampoline jumps into.
pub open spec fn bios_safe_shim_name() -> Seq<char> {
    "BiosSafeShim"@
}

/// The modifier that requests 64-bit argument marshalling.
pub open spec fn expand64_name() -> Seq<char> {
    "expand64"@
}

/// Whether the attribute set carries the required unmangled-name marker.
pub open spec fn has_marker(attrs: Seq<AttrV>) -> bool {
    exists|i: int| 0 <= i < attrs.len() && attrs[i] is NoMangle
}

/// The attribute set with the unmangled-name marker removed.
pub open spec fn strip_marker(attrs: Seq<AttrV>) -> Seq<AttrV>
    decreases attrs.len(),
{
    if attrs.len() == 0 {
        Seq::empty()
    } else if attrs[0] is NoMangle {
        strip_marker(attrs.drop_first())
    } else {
        seq![attrs[0]] + strip_marker(attrs.drop_first())
    }
}

/// Removing the marker commutes with appending one attribute at the back.
proof fn lemma_strip_marker_push(attrs: Seq<AttrV>, a: AttrV)
    ensures
        strip_marker(attrs.push(a)) == if a is NoMangle {
            strip_marker(attrs)
        } else {
            strip_marker(attrs) + seq![a]
        },
    decreases attrs.len(),
{
    reveal_with_fuel(strip_marker, 3);
    if attrs.len() == 0 {
        assert(attrs.push(a).drop_first() =~= attrs);
        assert(attrs.push(a)[0] == a);
        if !(a is NoMangle) {
            assert(strip_marker(attrs.push(a)) =~= strip_marker(attrs) + seq![a]);
        }
    } else {
        assert(attrs.push(a).drop_first() =~= attrs.drop_first().push(a));
        lemma_strip_marker_push(attrs.drop_first(), a);
        if a is NoMangle {
            assert(strip_marker(attrs.push(a)) =~= strip_marker(attrs));
        } else {
            assert(strip_marker(attrs.push(a)) =~= strip_marker(attrs) + seq![a]);
        }
    }
}

/// The two marshalling instructions injected by the `expand64` modifier:
/// move the second argument register's value into the third, then advance
/// the second argument register by one machine word.
pub open spec fn marshal_instrs() -> Seq<InstrV> {
    seq![InstrV::MovR2R1, InstrV::AddR1Word]
}

/// The fixed jump sequence closing every trampoline: load the renamed
/// implementation's address into the scratch register, then branch — never
/// to return — into the safety-check entry point.
pub open spec fn jump_instrs(target: Seq<char>) -> Seq<InstrV> {
    seq![InstrV::LoadAddr(target), InstrV::BranchTo(bios_safe_shim_name())]
}

/// The whole trampoline body for a renamed implementation named `target`:
/// exactly the two jump instructions, prefixed by the two marshalling
/// instructions when the 64-bit-expansion flag is set.
pub open spec fn trampoline_body(target: Seq<char>, expand64: bool) -> Seq<InstrV> {
    if expand64 {
        marshal_instrs() + jump_instrs(target)
    } else {
        jump_instrs(target)
    }
}

/// With no modifiers the trampoline body is exactly the two fixed
/// instructions: the address load of the renamed implementation, then the
/// non-returning branch into the safety-check entry point.
pub proof fn lemma_trampoline_plain(target: Seq<char>)
    ensures
        trampoline_body(target, false).len() == 2,
        trampoline_body(target, false)[0] == InstrV::LoadAddr(target),
        trampoline_body(target, false)[1] == InstrV::BranchTo(bios_safe_shim_name()),
{
}

/// With the 64-bit-expansion modifier the trampoline body is exactly four
/// instructions: the two marshalling instructions, unchanged in content
/// and order, followed by the same two-instruction jump sequence as the
/// unmodified case.
pub proof fn lemma_trampoline_expand64(target: Seq<char>)
    ensures
        trampoline_body(target, true).len() == 4,
        trampoline_body(target, true) == marshal_instrs() + trampoline_body(target, false),
        trampoline_body(target, true).skip(2) == trampoline_body(target, false),
        trampoline_body(target, true)[0] == InstrV::MovR2R1,
        trampoline_body(target, true)[1] == InstrV::AddR1Word,
{
    assert(trampoline_body(target, true).skip(2) =~= jump_instrs(target));
}

/// Whether a transformation request is accepted: the function carries the
/// marker and the modifier list is well-formed.
pub open spec fn transform_ok(func: FnDef, options: Seq<char>) -> bool {
    has_marker(func@.attrs) && parse_opts_spec(options) is Some
}

/// Whether an accepted request uses 64-bit argument marshalling.
pub open spec fn transform_expand64(options: Seq<char>) -> bool {
    parse_opts_spec(options)->0.to_set().contains(expand64_name())
}

/// Checks the attribute set for the unmangled-name marker.
fn find_marker(attrs: &Vec<FnAttr>) -> (r: bool)
    ensures
        r == has_marker(attrs.deep_view()),
{
    let mut i: usize = 0;
    while i < attrs.len()
        invariant
            0 <= i <= attrs.len(),
            forall|j: int| 0 <= j < i ==> !(attrs.deep_view()[j] is NoMangle),
        decreases attrs.len() - i,
    {
        if matches!(attrs[i], FnAttr::NoMangle) {
            proof {
                assert(attrs.deep_view()[i as int] is NoMangle);
            }
            return true;
        }
        i = i + 1;
    }
    false
}

/// Copies the attribute set, leaving the unmangled-name marker out.
fn strip_marker_exec(attrs: &Vec<FnAttr>) -> (r: Vec<FnAttr>)
    ensures
        r.deep_view() == strip_marker(attrs.deep_view()),
{
    let mut out: Vec<FnAttr> = Vec::new();
    let mut i: usize = 0;
    while i < attrs.len()
        invariant
            0 <= i <= attrs.len(),
            out.deep_view() == strip_marker(attrs.deep_view().subrange(0, i as int)),
        decreases attrs.len() - i,
    {
        let ghost pre = attrs.deep_view().subrange(0, i as int);
        proof {
            assert(attrs.deep_view().subrange(0, i + 1 as int) =~= pre.push(
                attrs.deep_view()[i as int]));
            lemma_strip_marker_push(pre, attrs.deep_view()[i as int]);
        }
        match &attrs[i] {
            FnAttr::NoMangle => {
            },
            other => {
                out.push(other.clone());
                proof {
                    assert(out.deep_view() =~= strip_marker(pre) + seq![
                        attrs.deep_view()[i as int]]);
                }
            },
        }
        i = i + 1;
    }
    proof {
        assert(attrs.deep_view().subrange(0, attrs.len() as int) =~= attrs.deep_view());
    }
    out
}

/// Copies an attribute set unchanged.
fn clone_attrs(attrs: &Vec<FnAttr>) -> (r: Vec<FnAttr>)
    ensures
        r.deep_view() == attrs.deep_view(),
{
    let mut out: Vec<FnAttr> = Vec::new();
    let mut i: usize = 0;
    while i < attrs.len()
        invariant
            0 <= i <= attrs.len(),
            out.len() == i,
            forall|j: int| 0 <= j < i ==> out.deep_view()[j] == attrs.deep_view()[j],
        decreases attrs.len() - i,
    {
        out.push(attrs[i].clone());
        i = i + 1;
    }
    proof {
        assert(out.deep_view() =~= attrs.deep_view());
    }
    out
}

/// Transforms one annotated function into its two derived artifacts.
///
/// On success the result holds, in emission order, the renamed
/// implementation — the original function under the internal name
/// `RAW_<name>`, its body untouched, the unmangled-name marker removed —
/// and the trampoline: a function under the original name, the original
/// attributes plus the raw-body and ARM-encoding markers, whose body is
/// exactly the raw instruction sequence of `trampoline_body`.
///
/// The request is rejected, and nothing is produced, when the function
/// lacks the unmangled-name marker or the modifier list is malformed.
pub fn bios_call(func: &FnDef, options: &str) -> (r: Result<(FnDef, FnDef), TransformError>)
    ensures
        r is Ok <==> transform_ok(*func, options@),
        r == Err::<(FnDef, FnDef), TransformError>(TransformError::MissingMarker) <==> !has_marker(
            func@.attrs,
        ),
        r == Err::<(FnDef, FnDef), TransformError>(TransformError::MalformedOptions) <==> (
        has_marker(func@.attrs) && parse_opts_spec(options@) is None),
        r matches Ok(out) ==> {
            &&& out.0@.name == rename_spec(func@.name)
            &&& out.0@.attrs == strip_marker(func@.attrs)
            &&& out.0@.body == func@.body
            &&& out.1@.name == func@.name
            &&& out.1@.attrs == func@.attrs + seq![AttrV::Naked, AttrV::InstructionSetA32]
            &&& out.1@.body == crate::ast::BodyV::Instrs(
                trampoline_body(rename_spec(func@.name), transform_expand64(options@)),
            )
        },
{
    if !find_marker(&func.attrs) {
        return Err(TransformError::MissingMarker);
    }
    let opts = match parse_options(options) {
        Some(o) => o,
        None => {
            return Err(TransformError::MalformedOptions);
        },
    };
    let expand64 = opts.contains("expand64");

    let raw_name = rename(func.name.as_str());
    let renamed = FnDef {
        name: raw_name.clone(),
        attrs: strip_marker_exec(&func.attrs),
        body: func.body.clone(),
    };

    let mut tramp_attrs = clone_attrs(&func.attrs);
    tramp_attrs.push(FnAttr::Naked);
    tramp_attrs.push(FnAttr::InstructionSetA32);
    proof {
        assert(tramp_attrs.deep_view() =~= func@.attrs + seq![
            AttrV::Naked,
            AttrV::InstructionSetA32,
        ]);
    }

    let mut body: Vec<Instr> = Vec::new();
    if expand64 {
        body.push(Instr::MovR2R1);
        body.push(Instr::AddR1Word);
    }
    body.push(Instr::LoadAddr(raw_name));
    body.push(Instr::BranchTo(String::from_str("BiosSafeShim")));
    proof {
        assert(body.deep_view() =~= trampoline_body(
            rename_spec(func@.name),
            transform_expand64(options@),
        ));
    }

    let trampoline = FnDef {
        name: func.name.clone(),
        attrs: tramp_attrs,
        body: FnBody::Instrs(body),
    };
    Ok((renamed, trampoline))
}

} // verus!

//! The structured model of the functions the generator consumes and emits.
//!
//! Only what the transform actually reads is modelled as plain values: a
//! function's external name, the names of its attributes, and — for
//! generated trampolines — the raw instruction sequence that forms the
//! body. The body of an ordinary function is carried through unchanged as
//! opaque source text.

use vstd::prelude::*;

verus! {

/// An attribute attached to a function, reduced to what the transform
/// inspects or emits.
#[derive(Debug, PartialEq)]
pub enum FnAttr {
    /// The marker meaning "emit this symbol with a stable, unmangled
    /// external name". Required on every function to be transformed.
    NoMangle,
    /// The marker meaning "raw-instruction body only, no prologue or
    /// epilogue". Attached to every generated trampoline.
    Naked,
    /// The marker forcing 32-bit ARM instruction-set encoding. Attached to
    /// every generated trampoline.
    InstructionSetA32,
    /// Any other attribute, by its path; carried through untouched.
    Other(String),
}

/// Specification-level value of a `FnAttr`.
pub enum AttrV {
    NoMangle,
    Naked,
    InstructionSetA32,
    Other(Seq<char>),
}

impl View for FnAttr {
    type V = AttrV;

    open spec fn view(&self) -> AttrV {
        match self {
            FnAttr::NoMangle => AttrV::NoMangle,
            FnAttr::Naked => AttrV::Naked,
            FnAttr::InstructionSetA32 => AttrV::InstructionSetA32,
            FnAttr::Other(p) => AttrV::Other(p@),
        }
    }
}

impl DeepView for FnAttr {
    type V = AttrV;

    open spec fn deep_view(&self) -> AttrV {
        self.view()
    }
}

impl Clone for FnAttr {
    fn clone(&self) -> (r: Self)
        ensures
            r@ == self@,
    {
        match self {
            FnAttr::NoMangle => FnAttr::NoMangle,
            FnAttr::Naked => FnAttr::Naked,
            FnAttr::InstructionSetA32 => FnAttr::InstructionSetA32,
            FnAttr::Other(p) => FnAttr::Other(p.clone()),
        }
    }
}

/// One raw machine instruction of a trampoline body.
#[derive(Debug, PartialEq)]
pub enum Instr {
    /// `mov r2, r1` — copy the second argument register into the third;
    /// first half of the 64-bit argument marshalling sequence.
    MovR2R1,
    /// `add r1, r1, #4` — advance the second argument register by one
    /// machine word; second half of the marshalling sequence.
    AddR1Word,
    /// `ldr ip, =<target>` — load the address of the named symbol into the
    /// scratch register.
    LoadAddr(String),
    /// `b <target>` — non-returning branch to the named symbol, the jump
    /// into the safety-check entry point.
    BranchTo(String),
}

/// Specification-level value of an `Instr`.
pub enum InstrV {
    MovR2R1,
    AddR1Word,
    LoadAddr(Seq<char>),
    BranchTo(Seq<char>),
}

impl View for Instr {
    type V = InstrV;

    open spec fn view(&self) -> InstrV {
        match self {
            Instr::MovR2R1 => InstrV::MovR2R1,
            Instr::AddR1Word => InstrV::AddR1Word,
            Instr::LoadAddr(t) => InstrV::LoadAddr(t@),
            Instr::BranchTo(t) => InstrV::BranchTo(t@),
        }
    }
}

impl DeepView for Instr {
    type V = InstrV;

    open spec fn deep_view(&self) -> InstrV {
        self.view()
    }
}

impl Clone for Instr {
    fn clone(&self) -> (r: Self)
        ensures
            r@ == self@,
    {
        match self {
            Instr::MovR2R1 => Instr::MovR2R1,
            Instr::AddR1Word => Instr::AddR1Word,
            Instr::LoadAddr(t) => Instr::LoadAddr(t.clone()),
            Instr::BranchTo(t) => Instr::BranchTo(t.clone()),
        }
    }
}

/// The assembly text of one instruction.
pub open spec fn instr_text_spec(i: InstrV) -> Seq<char> {
    match i {
        InstrV::MovR2R1 => "mov r2, r1"@,
        InstrV::AddR1Word => "add r1, r1, #4"@,
        InstrV::LoadAddr(t) => "ldr ip, ="@ + t,
        InstrV::BranchTo(t) => "b "@ + t,
    }
}

impl Instr {
    /// Renders the instruction as assembly text.
    pub fn text(&self) -> (r: String)
        ensures
            r@ == instr_text_spec(self@),
    {
        match self {
            Instr::MovR2R1 => String::from_str("mov r2, r1"),
            Instr::AddR1Word => String::from_str("add r1, r1, #4"),
            Instr::LoadAddr(t) => {
                let mut s = String::from_str("ldr ip, =");
                s.append(t.as_str());
                s
            },
            Instr::BranchTo(t) => {
                let mut s = String::from_str("b ");
                s.append(t.as_str());
                s
            },
        }
    }
}

/// A function body: either opaque source text, carried through unchanged,
/// or the literal instruction sequence of a generated trampoline.
#[derive(Debug, PartialEq)]
pub enum FnBody {
    /// Ordinary source text; the transform never looks inside it.
    Source(String),
    /// A raw instruction sequence; the whole body of a trampoline.
    Instrs(Vec<Instr>),
}

/// Specification-level value of a `FnBody`.
pub enum BodyV {
    Source(Seq<char>),
    Instrs(Seq<InstrV>),
}

impl View for FnBody {
    type V = BodyV;

    open spec fn view(&self) -> BodyV {
        match self {
            FnBody::Source(s) => BodyV::Source(s@),
            FnBody::Instrs(is) => BodyV::Instrs(is.deep_view()),
        }
    }
}

impl DeepView for FnBody {
    type V = BodyV;

    open spec fn deep_view(&self) -> BodyV {
        self.view()
    }
}

impl Clone for FnBody {
    fn clone(&self) -> (r: Self)
        ensures
            r@ == self@,
    {
        match self {
            FnBody::Source(s) => FnBody::Source(s.clone()),
            FnBody::Instrs(is) => {
                let mut out: Vec<Instr> = Vec::new();
                let mut k: usize = 0;
                while k < is.len()
                    invariant
                        k <= is.len(),
                        out.len() == k,
                        forall|i: int| 0 <= i < k ==> out.deep_view()[i] == is.deep_view()[i],
                    decreases is.len() - k,
                {
                    out.push(is[k].clone());
                    k = k + 1;
                }
                proof {
                    assert(out.deep_view() =~= is.deep_view());
                }
                FnBody::Instrs(out)
            },
        }
    }
}

/// A function definition, reduced to what the transform reads and writes:
/// its external name, its attributes, and its body.
#[derive(Debug, PartialEq)]
pub struct FnDef {
    /// The external name of the function.
    pub name: String,
    /// The attributes attached to it, in order.
    pub attrs: Vec<FnAttr>,
    /// Its body.
    pub body: FnBody,
}

/// Specification-level value of a `FnDef`.
pub struct FnDefV {
    pub name: Seq<char>,
    pub attrs: Seq<AttrV>,
    pub body: BodyV,
}

impl View for FnDef {
    type V = FnDefV;

    open spec fn view(&self) -> FnDefV {
        FnDefV { name: self.name@, attrs: self.attrs.deep_view(), body: self.body@ }
    }
}

} // verus!

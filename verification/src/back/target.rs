//! Target architectures and their conventions: argument registers, the
//! registers handed to the allocator, and assembler mnemonics and directives.
use vstd::prelude::*;

use crate::front::nodes::types::chars_are;
use crate::text::{chars_of, digits, nat_string};

verus! {

#[derive(Debug, Clone, Copy, PartialEq, Eq, Structural)]
pub enum Target {
    X86_64,
    AArch64,
    Rp2040,
}

/// What `str::to_lowercase` returns for a string: its Unicode lower-case mapping.
pub uninterp spec fn lowercase_of(s: Seq<char>) -> Seq<char>;

/// Calls std's `str::to_lowercase`. The contract names the result
/// `lowercase_of` of the argument's characters; nothing more is stated of the
/// Unicode case mapping.
#[verifier::external_body]
fn lowercase(s: &str) -> (r: String)
    ensures
        r@ == lowercase_of(s@),
{
    s.to_lowercase()
}

/// The target that a lower-case architecture name denotes, if any.
pub open spec fn target_named(name: Seq<char>) -> Option<Target> {
    if name == seq!['x', '8', '6', '_', '6', '4'] {
        Some(Target::X86_64)
    } else if name == seq!['a', 'a', 'r', 'c', 'h', '6', '4'] {
        Some(Target::AArch64)
    } else if name == seq!['r', 'p', '2', '0', '4', '0'] {
        Some(Target::Rp2040)
    } else {
        None
    }
}

/// The target that a lower-case architecture name denotes: `x86_64`,
/// `aarch64` or `rp2040`, or `None` for any other name. This is the step that
/// follows lower-casing in [`Target::new`] and [`Target::try_new`].
pub fn recognize(name: &String) -> (r: Option<Target>)
    ensures
        r == target_named(name@),
{
    let v = chars_of(name.as_str());
    proof {
        assert(['x', '8', '6', '_', '6', '4']@ =~= seq!['x', '8', '6', '_', '6', '4']);
        assert(['a', 'a', 'r', 'c', 'h', '6', '4']@ =~= seq!['a', 'a', 'r', 'c', 'h', '6', '4']);
        assert(['r', 'p', '2', '0', '4', '0']@ =~= seq!['r', 'p', '2', '0', '4', '0']);
    }
    if chars_are(&v, &['x', '8', '6', '_', '6', '4']) {
        Some(Target::X86_64)
    } else if chars_are(&v, &['a', 'a', 'r', 'c', 'h', '6', '4']) {
        Some(Target::AArch64)
    } else if chars_are(&v, &['r', 'p', '2', '0', '4', '0']) {
        Some(Target::Rp2040)
    } else {
        None
    }
}

/// The name of the argument register `index` (`arg{index}` past the ones the
/// target has).
pub open spec fn arg_register_name(t: Target, index: nat) -> Seq<char> {
    let fallback = "arg"@ + digits(index);
    match t {
        Target::X86_64 => if index == 0 { "rdi"@ } else if index == 1 { "rsi"@ } else if index == 2 { "rdx"@ }
            else if index == 3 { "rcx"@ } else if index == 4 { "r8"@ } else if index == 5 { "r9"@ } else { fallback },
        Target::AArch64 => if index == 0 { "x0"@ } else if index == 1 { "x1"@ } else if index == 2 { "x2"@ }
            else if index == 3 { "x3"@ } else if index == 4 { "x4"@ } else if index == 5 { "x5"@ }
            else if index == 6 { "x6"@ } else if index == 7 { "x7"@ } else { fallback },
        Target::Rp2040 => if index == 0 { "r0"@ } else if index == 1 { "r1"@ } else if index == 2 { "r2"@ }
            else if index == 3 { "r3"@ } else { fallback },
    }
}

/// The registers that the allocator may hand out, in order.
pub open spec fn register_names(t: Target) -> Seq<Seq<char>> {
    match t {
        Target::X86_64 => seq!["%eax"@, "%ebx"@, "%ecx"@, "%edx"@, "%esi"@, "%edi"@],
        Target::AArch64 => seq!["x0"@, "x1"@, "x2"@, "x3"@, "x4"@, "x5"@],
        Target::Rp2040 => seq!["r0"@, "r1"@, "r2"@, "r3"@],
    }
}

fn text(s: &str) -> (r: String)
    ensures
        r@ == s@,
{
    String::from_str(s)
}

impl Target {
    /// The target named by `s`, compared without regard to case.
    pub fn new(s: &str) -> (t: Self)
        requires
            target_named(lowercase_of(s@)) is Some,
        ensures
            Some(t) == target_named(lowercase_of(s@)),
    {
        let l = lowercase(s);
        match recognize(&l) {
            Some(t) => t,
            None => {
                assert(false);
                Target::X86_64
            },
        }
    }

    /// The target named by `s`, compared without regard to case, or `None`
    /// when the name is none of `x86_64`, `aarch64` and `rp2040`.
    pub fn try_new(s: &str) -> (t: Option<Self>)
        ensures
            t == target_named(lowercase_of(s@)),
    {
        let l = lowercase(s);
        if recognize(&l).is_some() {
            Some(Target::new(s))
        } else {
            None
        }
    }

    /// The register that carries argument `index` of a call.
    pub fn arg_registers(&self, index: usize) -> (r: String)
        ensures
            r@ == arg_register_name(*self, index as nat),
    {
        let named = match self {
            Target::X86_64 => if index == 0 { Some("rdi") } else if index == 1 { Some("rsi") } else if index == 2 { Some("rdx") }
                else if index == 3 { Some("rcx") } else if index == 4 { Some("r8") } else if index == 5 { Some("r9") } else { None },
            Target::AArch64 => if index == 0 { Some("x0") } else if index == 1 { Some("x1") } else if index == 2 { Some("x2") }
                else if index == 3 { Some("x3") } else if index == 4 { Some("x4") } else if index == 5 { Some("x5") }
                else if index == 6 { Some("x6") } else if index == 7 { Some("x7") } else { None },
            Target::Rp2040 => if index == 0 { Some("r0") } else if index == 1 { Some("r1") } else if index == 2 { Some("r2") }
                else if index == 3 { Some("r3") } else { None },
        };
        match named {
            Some(n) => text(n),
            None => {
                let mut s = String::from_str("arg");
                let d = nat_string(index as u64);
                s.append(d.as_str());
                s
            },
        }
    }

    /// The registers that the allocator may hand out.
    pub fn available_registers(&self) -> (v: Vec<String>)
        ensures
            v@.map_values(|s: String| s@) == register_names(*self),
    {
        let mut v: Vec<String> = Vec::new();
        match self {
            Target::X86_64 => {
                v.push(text("%eax"));
                v.push(text("%ebx"));
                v.push(text("%ecx"));
                v.push(text("%edx"));
                v.push(text("%esi"));
                v.push(text("%edi"));
            },
            Target::AArch64 => {
                v.push(text("x0"));
                v.push(text("x1"));
                v.push(text("x2"));
                v.push(text("x3"));
                v.push(text("x4"));
                v.push(text("x5"));
            },
            Target::Rp2040 => {
                v.push(text("r0"));
                v.push(text("r1"));
                v.push(text("r2"));
                v.push(text("r3"));
            },
        }
        assert(v@.map_values(|s: String| s@) =~= register_names(*self));
        v
    }

    /// Returns the default size for an Int in this target.
    pub fn default_int_size(&self) -> (n: i32)
        ensures
            n == 4,
    {
        match self {
            Target::X86_64 => 4,
            Target::AArch64 => 4,
            Target::Rp2040 => 4,
        }
    }

    /// Returns the directive for declaring global symbols.
    pub fn global_directive(&self) -> (d: &'static str)
        ensures
            d@ == (if *self == Target::X86_64 { ".globl"@ } else { ".global"@ }),
    {
        match self {
            Target::X86_64 => ".globl",
            Target::AArch64 => ".global",
            Target::Rp2040 => ".global",
        }
    }

    /// Returns the mnemonic for move instructions.
    pub fn mov_instruction(&self) -> (m: &'static str)
        ensures
            m@ == (match *self {
                Target::X86_64 => "movl"@,
                Target::AArch64 => "mov"@,
                Target::Rp2040 => "MOV"@,
            }),
    {
        match self {
            Target::X86_64 => "movl",
            Target::AArch64 => "mov",
            Target::Rp2040 => "MOV",
        }
    }

    /// Returns the mnemonic for push instructions.
    pub fn push_instruction(&self) -> (m: &'static str)
        ensures
            m@ == (match *self {
                Target::X86_64 => "pushq"@,
                Target::AArch64 => "stp"@,
                Target::Rp2040 => "PUSH"@,
            }),
    {
        match self {
            Target::X86_64 => "pushq",
            Target::AArch64 => "stp",
            Target::Rp2040 => "PUSH",
        }
    }

    /// Returns the mnemonic for pop instructions.
    pub fn pop_instruction(&self) -> (m: &'static str)
        ensures
            m@ == (match *self {
                Target::X86_64 => "popq"@,
                Target::AArch64 => "ldp"@,
                Target::Rp2040 => "POP"@,
            }),
    {
        match self {
            Target::X86_64 => "popq",
            Target::AArch64 => "ldp",
            Target::Rp2040 => "POP",
        }
    }

    /// Returns the label of a function: its name, with `_` in front on AArch64.
    pub fn function_label(&self, id: &str) -> (l: String)
        ensures
            l@ == (if *self == Target::AArch64 { "_"@ + id@ } else { id@ }),
    {
        match self {
            Target::X86_64 => text(id),
            Target::AArch64 => {
                let mut s = String::from_str("_");
                s.append(id);
                s
            },
            Target::Rp2040 => text(id),
        }
    }
}

} // verus!

//! Verdicts drawn from the answers to CPU identification queries.

use vstd::prelude::*;

verus! {

/// Leaf of the identification query whose latency is measured.
pub const TIMING_LEAF: u32 = 0;

/// Leaf at which a hypervisor that advertises itself places its vendor
/// signature.
pub const HYPERVISOR_LEAF: u32 = 0x4000_0000;

/// A leaf beyond the range any processor supports: all bits set.
pub const INVALID_LEAF: u32 = 0xFFFF_FFFF;

/// Expected content of `ecx` in the answer to [`HYPERVISOR_LEAF`].
pub const SIGNATURE_ECX: u32 = 0x4D56_6572;

/// Expected content of `edx` in the answer to [`HYPERVISOR_LEAF`].
pub const SIGNATURE_EDX: u32 = 0x6572_6177;

/// The four registers a CPU identification query returns.
#[derive(Clone, Copy, Debug, PartialEq, Eq, Structural)]
pub struct CpuidResult {
    pub eax: u32,
    pub ebx: u32,
    pub ecx: u32,
    pub edx: u32,
}

/// Whether an answer to [`HYPERVISOR_LEAF`] carries the hypervisor signature.
pub open spec fn has_signature(answer: CpuidResult) -> bool {
    answer.ecx == SIGNATURE_ECX && answer.edx == SIGNATURE_EDX
}

/// Hypervisor-bit probe: given the answer to a query at [`HYPERVISOR_LEAF`],
/// reports a hypervisor exactly when both signature registers match.
pub fn cpuid(answer: &CpuidResult) -> (detected: bool)
    ensures
        detected == has_signature(*answer),
{
    answer.ecx == SIGNATURE_ECX && answer.edx == SIGNATURE_EDX
}

/// An answer that differs from the signature in a single bit of either
/// register does not carry it, whatever the other two registers hold.
pub proof fn lemma_single_bit_mismatch(eax: u32, ebx: u32, bit: u32)
    requires
        bit < 32,
    ensures
        has_signature((CpuidResult { eax, ebx, ecx: SIGNATURE_ECX, edx: SIGNATURE_EDX })),
        !has_signature(
            (CpuidResult { eax, ebx, ecx: SIGNATURE_ECX ^ (1u32 << bit), edx: SIGNATURE_EDX }),
        ),
        !has_signature(
            (CpuidResult { eax, ebx, ecx: SIGNATURE_ECX, edx: SIGNATURE_EDX ^ (1u32 << bit) }),
        ),
{
    assert(forall|x: u32, b: u32| b < 32 ==> x ^ (1u32 << b) != x) by (bit_vector);
}

/// Invalid-leaf probe: given the `eax` returned by a query at
/// [`INVALID_LEAF`], suspects virtualisation exactly when the leaf came back
/// unchanged.
///
/// Real hardware answers an out-of-range query with the data of its highest
/// valid leaf. A hypervisor that emulates the query faithfully does the
/// same, so a `false` here rules nothing out.
pub fn check_invalid_leaf(result: u32) -> (detected: bool)
    ensures
        detected == (result == INVALID_LEAF),
{
    result == INVALID_LEAF
}

} // verus!

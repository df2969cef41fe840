//! The bytes that the client writes to detour a function of the running game:
//! the patch written over the function's first instructions, the trampoline
//! that runs the overwritten instructions and jumps back, and the gateway of
//! the relative-jump variant.

use vstd::prelude::*;
use vstd::bytes::{spec_u32_from_le_bytes, spec_u32_to_le_bytes, spec_u64_from_le_bytes, spec_u64_to_le_bytes, u32_to_le_bytes, u64_to_le_bytes};

verus! {

/// The shortest patch that holds an absolute jump.
pub const ABS_JUMP_LEN: usize = 14;

/// The shortest patch that holds a relative jump.
pub const REL_JUMP_LEN: usize = 5;

/// `jmp qword ptr [rip+0]` followed by the 8-byte little-endian address it
/// jumps to.
pub open spec fn abs_jump(target: u64) -> Seq<u8> {
    seq![0xFFu8, 0x25u8, 0u8, 0u8, 0u8, 0u8] + spec_u64_to_le_bytes(target)
}

/// `n` one-byte `nop` instructions.
pub open spec fn nops(n: nat) -> Seq<u8> {
    Seq::new(n, |i: int| 0x90u8)
}

/// The bytes written over the first `len` bytes of the hooked function: an
/// absolute jump to `our_func`, then `nop`s up to `len`.
pub open spec fn hook_patch(our_func: u64, len: nat) -> Seq<u8> {
    abs_jump(our_func) + nops((len - 14) as nat)
}

/// The trampoline: the `stolen` first bytes of the hooked function, then an
/// absolute jump to the first byte after them in the hooked function.
pub open spec fn hook_trampoline(to_hook: u64, stolen: Seq<u8>) -> Seq<u8> {
    stolen + abs_jump((to_hook + stolen.len()) as u64)
}

/// The displacement of the `jmp rel32` at the end of the gateway: from the
/// gateway to the hooked function, both taken as 32-bit addresses.
pub open spec fn gateway_displacement(to_hook: u64, gateway: u64) -> int {
    (#[verifier::truncate] (to_hook as i32)) - (#[verifier::truncate] (gateway as i32)) - 5
}

/// The 32-bit address at which the gateway's jump is written: the gateway's
/// address plus the number of stolen bytes, both taken as 32-bit values.
pub open spec fn gateway_end(gateway: u64, len: nat) -> int {
    (#[verifier::truncate] (gateway as i32)) + (#[verifier::truncate] (len as i32))
}

/// The gateway: the `stolen` first bytes of the hooked function, then a
/// `jmp rel32` back into the hooked function.
pub open spec fn gateway_bytes(to_hook: u64, gateway: u64, stolen: Seq<u8>) -> Seq<u8> {
    stolen + seq![0xE9u8] + spec_u32_to_le_bytes(#[verifier::truncate] (gateway_displacement(to_hook, gateway) as i32 as u32))
}

/// What installing a hook writes: the trampoline (in newly allocated memory)
/// and the patch (over the hooked function).
pub struct HookPlan {
    pub trampoline: Vec<u8>,
    pub patch: Vec<u8>,
}

/// What installing the relative-jump variant writes: the gateway (in newly
/// allocated memory) and, as that variant installs the absolute hook too, the
/// hook's plan when the stolen bytes are long enough for it.
pub struct TrampolinePlan {
    pub gateway: Vec<u8>,
    pub hook: Option<HookPlan>,
}

/// The absolute jump to `target`.
pub fn abs_jump_stub(target: u64) -> (res: Vec<u8>)
    ensures
        res@ == abs_jump(target),
{
    let mut stub: Vec<u8> = vec![0xFFu8, 0x25u8, 0u8, 0u8, 0u8, 0u8];
    let addr = u64_to_le_bytes(target);
    let ghost head = stub@;
    let mut i: usize = 0;
    while i < 8
        invariant
            addr@.len() == 8,
            i <= 8,
            stub@ == head + addr@.take(i as int),
        decreases 8 - i,
    {
        stub.push(addr[i]);
        i = i + 1;
        assert(stub@ =~= head + addr@.take(i as int));
    }
    assert(addr@.take(8) =~= addr@);
    assert(head =~= seq![0xFFu8, 0x25u8, 0u8, 0u8, 0u8, 0u8]);
    stub
}

/// The bytes that hooking the function at `to_hook`, whose first bytes are
/// `stolen`, to jump to `our_func` writes: `None` when fewer than 14 bytes are
/// given, as an absolute jump does not fit, and nothing is written.
pub fn hook(to_hook: u64, stolen: &Vec<u8>, our_func: u64) -> (res: Option<HookPlan>)
    requires
        stolen.len() >= ABS_JUMP_LEN ==> to_hook + stolen.len() <= u64::MAX,
    ensures
        stolen.len() < ABS_JUMP_LEN <==> res is None,
        res matches Some(plan) ==> {
            &&& plan.trampoline@ == hook_trampoline(to_hook, stolen@)
            &&& plan.patch@ == hook_patch(our_func, stolen.len() as nat)
        },
{
    let len = stolen.len();
    if len < ABS_JUMP_LEN {
        return None;
    }
    let retto = to_hook + len as u64;
    let mut trampoline: Vec<u8> = Vec::new();
    let mut i: usize = 0;
    while i < len
        invariant
            len == stolen.len(),
            i <= len,
            trampoline@ == stolen@.take(i as int),
        decreases len - i,
    {
        trampoline.push(stolen[i]);
        i = i + 1;
        assert(trampoline@ =~= stolen@.take(i as int));
    }
    assert(stolen@.take(len as int) =~= stolen@);
    let back = abs_jump_stub(retto);
    let mut k: usize = 0;
    while k < back.len()
        invariant
            back@ == abs_jump(retto),
            k <= back.len(),
            trampoline@ == stolen@ + back@.take(k as int),
        decreases back.len() - k,
    {
        trampoline.push(back[k]);
        k = k + 1;
        assert(trampoline@ =~= stolen@ + back@.take(k as int));
    }
    assert(back@.take(back@.len() as int) =~= back@);
    let mut patch = abs_jump_stub(our_func);
    proof {
        vstd::bytes::lemma_auto_spec_u64_to_from_le_bytes();
    }
    let ghost jump = patch@;
    let mut j: usize = ABS_JUMP_LEN;
    while j < len
        invariant
            len == stolen.len(),
            ABS_JUMP_LEN <= j <= len,
            jump.len() == 14,
            patch@ == jump + nops((j - 14) as nat),
        decreases len - j,
    {
        patch.push(0x90u8);
        j = j + 1;
        assert(patch@ =~= jump + nops((j - 14) as nat));
    }
    Some(HookPlan { trampoline, patch })
}

/// The bytes that the relative-jump variant writes for the function at
/// `to_hook`, whose first bytes are `stolen`, with the gateway placed at
/// `gateway`: `None` when fewer than 5 bytes are given, as a relative jump
/// does not fit, and nothing is written.
pub fn trampoline(to_hook: u64, gateway: u64, stolen: &Vec<u8>, our_func: u64) -> (res: Option<
    TrampolinePlan,
>)
    requires
        stolen.len() >= REL_JUMP_LEN ==> {
            &&& i32::MIN <= gateway_displacement(to_hook, gateway) + 5 <= i32::MAX
            &&& i32::MIN <= gateway_displacement(to_hook, gateway)
            &&& i32::MIN <= gateway_end(gateway, stolen.len() as nat) <= i32::MAX
            &&& i32::MIN <= gateway_end(gateway, stolen.len() as nat) + 1 <= i32::MAX
        },
        stolen.len() >= ABS_JUMP_LEN ==> to_hook + stolen.len() <= u64::MAX,
    ensures
        stolen.len() < REL_JUMP_LEN <==> res is None,
        res matches Some(plan) ==> {
            &&& plan.gateway@ == gateway_bytes(to_hook, gateway, stolen@)
            &&& (stolen.len() < ABS_JUMP_LEN <==> plan.hook is None)
            &&& plan.hook matches Some(h) ==> {
                &&& h.trampoline@ == hook_trampoline(to_hook, stolen@)
                &&& h.patch@ == hook_patch(our_func, stolen.len() as nat)
            }
        },
{
    let len = stolen.len();
    if len < REL_JUMP_LEN {
        return None;
    }
    let mut gate: Vec<u8> = Vec::new();
    let mut i: usize = 0;
    while i < len
        invariant
            len == stolen.len(),
            i <= len,
            gate@ == stolen@.take(i as int),
        decreases len - i,
    {
        gate.push(stolen[i]);
        i = i + 1;
        assert(gate@ =~= stolen@.take(i as int));
    }
    assert(stolen@.take(len as int) =~= stolen@);
    let th: i32 = #[verifier::truncate] (to_hook as i32);
    let gw: i32 = #[verifier::truncate] (gateway as i32);
    let rel: i32 = (th - gw) - 5;
    let rel_bits: u32 = #[verifier::truncate] (rel as u32);
    gate.push(0xE9u8);
    let disp = u32_to_le_bytes(rel_bits);
    let ghost head = gate@;
    proof {
        vstd::bytes::lemma_auto_spec_u32_to_from_le_bytes();
    }
    let mut k: usize = 0;
    while k < 4
        invariant
            disp@ == spec_u32_to_le_bytes(rel_bits),
            disp@.len() == 4,
            k <= 4,
            gate@ == head + disp@.take(k as int),
        decreases 4 - k,
    {
        gate.push(disp[k]);
        k = k + 1;
        assert(gate@ =~= head + disp@.take(k as int));
    }
    assert(disp@.take(4) =~= disp@);
    let h = hook(to_hook, stolen, our_func);
    Some(TrampolinePlan { gateway: gate, hook: h })
}

/// The opcode bytes of an absolute jump, before its address.
pub open spec fn abs_jump_opcode() -> Seq<u8> {
    seq![0xFFu8, 0x25u8, 0u8, 0u8, 0u8, 0u8]
}

/// Law: a hook's patch is exactly as long as the bytes it overwrites, starts
/// with an absolute jump whose address is `our_func`, and pads the rest with
/// `nop`s; its trampoline runs the overwritten bytes unchanged and then jumps
/// to the first byte after them in the hooked function.
pub proof fn lemma_hook_redirects(to_hook: u64, stolen: Seq<u8>, our_func: u64)
    requires
        stolen.len() >= ABS_JUMP_LEN,
        to_hook + stolen.len() <= u64::MAX,
    ensures
        ({
            let patch = hook_patch(our_func, stolen.len());
            &&& patch.len() == stolen.len()
            &&& patch.take(6) == abs_jump_opcode()
            &&& spec_u64_from_le_bytes(patch.subrange(6, 14)) == our_func
            &&& forall|i: int| 14 <= i < stolen.len() ==> patch[i] == 0x90u8
        }),
        ({
            let tramp = hook_trampoline(to_hook, stolen);
            let n = stolen.len() as int;
            &&& tramp.len() == n + 14
            &&& tramp.take(n) == stolen
            &&& tramp.subrange(n, n + 6) == abs_jump_opcode()
            &&& spec_u64_from_le_bytes(tramp.subrange(n + 6, n + 14)) == to_hook + n
        }),
{
    vstd::bytes::lemma_auto_spec_u64_to_from_le_bytes();
    let patch = hook_patch(our_func, stolen.len());
    assert(patch.take(6) =~= abs_jump_opcode());
    assert(patch.subrange(6, 14) =~= spec_u64_to_le_bytes(our_func));
    let tramp = hook_trampoline(to_hook, stolen);
    let n = stolen.len() as int;
    assert(tramp.take(n) =~= stolen);
    assert(tramp.subrange(n, n + 6) =~= abs_jump_opcode());
    assert(tramp.subrange(n + 6, n + 14) =~= spec_u64_to_le_bytes((to_hook + n) as u64));
}

/// Law: the gateway runs the overwritten bytes unchanged and then a `jmp
/// rel32` whose target (the address after the jump plus its displacement,
/// in 32-bit addresses) is the first byte after the overwritten ones in the
/// hooked function.
pub proof fn lemma_gateway_returns(to_hook: u64, gateway: u64, stolen: Seq<u8>)
    requires
        stolen.len() >= REL_JUMP_LEN,
        i32::MIN <= gateway_displacement(to_hook, gateway) <= i32::MAX,
    ensures
        ({
            let g = gateway_bytes(to_hook, gateway, stolen);
            let n = stolen.len() as int;
            let disp = spec_u32_from_le_bytes(g.subrange(n + 1, n + 5));
            &&& g.len() == n + 5
            &&& g.take(n) == stolen
            &&& g[n] == 0xE9u8
            &&& (#[verifier::truncate] (gateway as i32)) + (n + 5) + (#[verifier::truncate] (disp as i32))
                == (#[verifier::truncate] (to_hook as i32)) + n
        }),
{
    vstd::bytes::lemma_auto_spec_u32_to_from_le_bytes();
    let g = gateway_bytes(to_hook, gateway, stolen);
    let n = stolen.len() as int;
    let d: i32 = gateway_displacement(to_hook, gateway) as i32;
    let bits: u32 = #[verifier::truncate] (d as u32);
    assert(g.take(n) =~= stolen);
    assert(g.subrange(n + 1, n + 5) =~= spec_u32_to_le_bytes(bits));
    assert((#[verifier::truncate] (bits as i32)) == d) by (bit_vector)
        requires
            bits == #[verifier::truncate] (d as u32),
    ;
}

} // verus!

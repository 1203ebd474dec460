use detour::decode::{decode, Instruction, InstrKind};
use detour::emu::run;
use detour::error::Error;
use detour::handle::{new_detour, DetourHandle};
use detour::mem::CodeMemory;
use detour::plan::{plan, Strategy};
use detour::statik::StaticDetour;

const BASE: u64 = 0x1000;
const FUEL: u64 = 100;

/// mov eax, 10; ret — the default replacement, placed at offset 0.
fn ret10_bytes() -> Vec<u8> {
    vec![0xB8, 0x0A, 0x00, 0x00, 0x00, 0xC3]
}

/// Builds an image holding the replacement at offset 0 and `body` after it.
fn image(body: &[u8]) -> CodeMemory {
    let mut bytes = ret10_bytes();
    bytes.extend_from_slice(body);
    CodeMemory::new(BASE, bytes)
}

/// Hooks `target`, asserting the original result before, the replacement's
/// result and the trampoline's original result while enabled, and the
/// original result again after disabling.
fn detour_test(mem: &mut CodeMemory, target: usize, result: u32) {
    assert_eq!(run(mem, target, FUEL), Some(result));
    let mut hook: DetourHandle = new_detour(mem, target, BASE).expect("construction");
    assert!(!hook.is_enabled());
    assert_eq!(run(mem, target, FUEL), Some(result));

    hook.enable(mem).expect("enable");
    assert!(hook.is_enabled());
    assert_eq!(run(mem, target, FUEL), Some(10));
    let tramp_off = (hook.trampoline_entry() - BASE) as usize;
    assert_eq!(run(mem, tramp_off, FUEL), Some(result));

    hook.disable(mem).expect("disable");
    assert!(!hook.is_enabled());
    assert_eq!(run(mem, target, FUEL), Some(result));
}

#[test]
fn detour_hotpatch() {
    // nop; nop; nop; nop; nop; xor eax, eax; ret; mov eax, 5 — the hook
    // lands past the five-byte padding, on the xor.
    let body = [
        0x90, 0x90, 0x90, 0x90, 0x90, 0x31, 0xC0, 0xC3, 0xB8, 0x05, 0x00, 0x00, 0x00,
    ];
    let mut mem = image(&body);
    let target = 6 + 5;
    let region = plan(&mem, target, BASE).expect("plan");
    assert!(matches!(region.strategy, Strategy::HotPatch));
    detour_test(&mut mem, target, 0);
}

#[test]
fn detour_rip_relative_pos() {
    // xor eax, eax; mov al, [rip+0x3]; nop; nop; nop; ret — the load reads
    // the ret opcode (0xC3 = 195) past the three no-ops.
    let body = [
        0x31, 0xC0, 0x8A, 0x05, 0x03, 0x00, 0x00, 0x00, 0x90, 0x90, 0x90, 0xC3,
    ];
    let mut mem = image(&body);
    detour_test(&mut mem, 6, 195);
}

#[test]
fn detour_rip_relative_neg() {
    // xor eax, eax; mov al, [rip-0x8]; ret — the load reads the function's
    // own first byte (0x31 = 49), which lies inside the patched region, so
    // the trampoline must redirect it into its relocated copy.
    let body = [0x31, 0xC0, 0x8A, 0x05, 0xF8, 0xFF, 0xFF, 0xFF, 0xC3];
    let mut mem = image(&body);
    detour_test(&mut mem, 6, 49);
}

#[test]
fn round_trip_restores_bytes() {
    let body = [
        0x31, 0xC0, 0x8A, 0x05, 0x03, 0x00, 0x00, 0x00, 0x90, 0x90, 0x90, 0xC3,
    ];
    let mut mem = image(&body);
    let mut hook = new_detour(&mut mem, 6, BASE).expect("construction");
    let before = mem.bytes.clone();
    hook.enable(&mut mem).expect("enable");
    assert_ne!(mem.bytes, before);
    hook.disable(&mut mem).expect("disable");
    assert_eq!(mem.bytes, before);
    assert_eq!(run(&mem, 6, FUEL), Some(195));
}

#[test]
fn enable_disable_idempotent() {
    let body = [
        0x31, 0xC0, 0x8A, 0x05, 0x03, 0x00, 0x00, 0x00, 0x90, 0x90, 0x90, 0xC3,
    ];
    let mut mem = image(&body);
    let mut hook = new_detour(&mut mem, 6, BASE).expect("construction");
    let pristine = mem.bytes.clone();

    hook.enable(&mut mem).expect("first enable");
    let once = mem.bytes.clone();
    hook.enable(&mut mem).expect("second enable");
    assert_eq!(mem.bytes, once);
    assert!(hook.is_enabled());

    hook.disable(&mut mem).expect("first disable");
    assert_eq!(mem.bytes, pristine);
    hook.disable(&mut mem).expect("second disable");
    assert_eq!(mem.bytes, pristine);
    assert!(!hook.is_enabled());
}

#[test]
fn trampoline_reachable_in_all_states() {
    let body = [
        0x31, 0xC0, 0x8A, 0x05, 0x03, 0x00, 0x00, 0x00, 0x90, 0x90, 0x90, 0xC3,
    ];
    let mut mem = image(&body);
    let mut hook = new_detour(&mut mem, 6, BASE).expect("construction");
    let tramp_off = (hook.trampoline_entry() - BASE) as usize;
    assert_eq!(run(&mem, tramp_off, FUEL), Some(195));
    hook.enable(&mut mem).expect("enable");
    assert_eq!(run(&mem, tramp_off, FUEL), Some(195));
    hook.disable(&mut mem).expect("disable");
    assert_eq!(run(&mem, tramp_off, FUEL), Some(195));
}

#[test]
fn unsupported_instruction_rejected() {
    // hlt (0xF4) is outside the supported subset.
    let body = [0xF4, 0x90, 0x90, 0x90, 0x90, 0xC3];
    let mut mem = image(&body);
    let before = mem.bytes.clone();
    assert!(matches!(plan(&mem, 6, BASE), Err(Error::UnsupportedInstruction)));
    assert!(matches!(
        new_detour(&mut mem, 6, BASE),
        Err(Error::UnsupportedInstruction)
    ));
    assert_eq!(mem.bytes, before);
}

#[test]
fn branch_displacement_rejected() {
    // jmp rel8 past the region, with the trampoline placed too far away
    // for the recomputed 8-bit displacement to reach back.
    let mut body = vec![0xEB, 0x10, 0xC3, 0x90, 0x90];
    body.extend(std::iter::repeat(0x90).take(150));
    let mut mem = image(&body);
    let before = mem.bytes.clone();
    assert!(matches!(
        new_detour(&mut mem, 6, BASE),
        Err(Error::UnsupportedBranchDisplacement)
    ));
    assert_eq!(mem.bytes, before);
}

#[test]
fn far_replacement_takes_absolute_jump() {
    // A replacement far outside 32-bit displacement range forces the
    // fourteen-byte indirect absolute jump through the inline thunk.
    let far: u64 = 0x2_0000_0000;
    let body: Vec<u8> = std::iter::repeat(0x90)
        .take(14)
        .chain([0xC3])
        .collect();
    let mut mem = image(&body);
    let region = plan(&mem, 6, far).expect("plan");
    assert!(matches!(region.strategy, Strategy::AbsJump));
    assert_eq!(region.width, 14);

    let mut hook = new_detour(&mut mem, 6, far).expect("construction");
    let pristine = mem.bytes.clone();
    hook.enable(&mut mem).expect("enable");
    assert_eq!(mem.bytes[6], 0xFF);
    assert_eq!(mem.bytes[7], 0x25);
    assert_eq!(&mem.bytes[8..12], &[0x00, 0x00, 0x00, 0x00]);
    assert_eq!(&mem.bytes[12..20], &[0x00, 0x00, 0x00, 0x00, 0x02, 0x00, 0x00, 0x00]);
    hook.disable(&mut mem).expect("disable");
    assert_eq!(mem.bytes, pristine);
}

#[test]
fn release_disables_first() {
    let body = [
        0x31, 0xC0, 0x8A, 0x05, 0x03, 0x00, 0x00, 0x00, 0x90, 0x90, 0x90, 0xC3,
    ];
    let mut mem = image(&body);
    let mut hook = new_detour(&mut mem, 6, BASE).expect("construction");
    let pristine = mem.bytes.clone();
    hook.enable(&mut mem).expect("enable");
    hook.release(&mut mem).expect("release");
    assert_eq!(mem.bytes, pristine);
    assert_eq!(run(&mem, 6, FUEL), Some(195));
}

#[test]
fn static_slot_single_initialization() {
    let body = [
        0x31, 0xC0, 0x8A, 0x05, 0x03, 0x00, 0x00, 0x00, 0x90, 0x90, 0x90, 0xC3,
    ];
    let mut mem = image(&body);
    let mut slot: StaticDetour<u64> = StaticDetour::__new(BASE);
    slot.initialize(&mut mem, 6, 42).expect("first initialize");
    assert_eq!(*slot.__detour(), 42);
    let entry = slot.trampoline().expect("trampoline");

    let after_first = mem.bytes.clone();
    assert!(matches!(
        slot.initialize(&mut mem, 6, 43),
        Err(Error::AlreadyInitialized)
    ));
    assert_eq!(mem.bytes, after_first);
    assert_eq!(*slot.__detour(), 42);
    assert_eq!(slot.trampoline().expect("trampoline"), entry);
}

#[test]
fn static_slot_not_initialized() {
    let body = [0x31, 0xC0, 0xC3];
    let mut mem = image(&body);
    let mut slot: StaticDetour<u64> = StaticDetour::__new(BASE);
    assert!(!slot.is_enabled());
    assert!(matches!(slot.enable(&mut mem), Err(Error::NotInitialized)));
    assert!(matches!(slot.disable(&mut mem), Err(Error::NotInitialized)));
    assert!(matches!(slot.trampoline(), Err(Error::NotInitialized)));
    assert!(matches!(slot.call(&mem, FUEL), Err(Error::NotInitialized)));
}

#[test]
fn static_slot_concrete_scenario() {
    // A target returning the fixed integer 7, hooked with the replacement
    // returning 10: before enabling the target returns 7; while enabled it
    // returns 10 and the trampoline still returns 7; after disabling it
    // returns 7 again.
    let body = [0xB8, 0x07, 0x00, 0x00, 0x00, 0xC3];
    let mut mem = image(&body);
    let target = 6;
    let mut slot: StaticDetour<u64> = StaticDetour::__new(BASE);
    slot.initialize(&mut mem, target, 1).expect("initialize");
    assert_eq!(run(&mem, target, FUEL), Some(7));
    assert!(!slot.is_enabled());

    assert_eq!(slot.call(&mem, FUEL).expect("call"), Some(7));

    slot.enable(&mut mem).expect("enable");
    assert!(slot.is_enabled());
    assert_eq!(run(&mem, target, FUEL), Some(10));
    let tramp_off = (slot.trampoline().expect("trampoline") - BASE) as usize;
    assert_eq!(run(&mem, tramp_off, FUEL), Some(7));
    assert_eq!(slot.call(&mem, FUEL).expect("call"), Some(7));

    slot.disable(&mut mem).expect("disable");
    assert!(!slot.is_enabled());
    assert_eq!(run(&mem, target, FUEL), Some(7));
    assert_eq!(slot.call(&mem, FUEL).expect("call"), Some(7));
}

#[test]
fn static_slot_hot_swap_while_enabled() {
    let body = [0xB8, 0x07, 0x00, 0x00, 0x00, 0xC3];
    let mut mem = image(&body);
    let mut slot: StaticDetour<u64> = StaticDetour::__new(BASE);
    slot.initialize(&mut mem, 6, 1).expect("initialize");
    slot.enable(&mut mem).expect("enable");

    // The swap installs a whole value at once, leaves the handle enabled,
    // and every read of the active callable sees either the old or the
    // new value, never an absent one.
    assert_eq!(*slot.__detour(), 1);
    slot.set_detour(2);
    assert_eq!(*slot.__detour(), 2);
    assert!(slot.is_enabled());
    assert_eq!(run(&mem, 6, FUEL), Some(10));

    slot.disable(&mut mem).expect("disable");
    slot.set_detour(3);
    assert_eq!(*slot.__detour(), 3);
}

#[test]
fn decoder_classifies_the_subset() {
    let code = vec![0xB8, 0x01, 0x02, 0x03, 0x04];
    assert_eq!(
        decode(&code, 0),
        Ok(Instruction { len: 5, kind: InstrKind::Ordinary })
    );
    let code = vec![0xEB, 0x05];
    assert_eq!(
        decode(&code, 0),
        Ok(Instruction { len: 2, kind: InstrKind::RelBranch8 })
    );
    let code = vec![0xE9, 0x00, 0x00, 0x00, 0x00];
    assert_eq!(
        decode(&code, 0),
        Ok(Instruction { len: 5, kind: InstrKind::RelBranch32 })
    );
    let code = vec![0x8A, 0x05, 0xF8, 0xFF, 0xFF, 0xFF];
    assert_eq!(
        decode(&code, 0),
        Ok(Instruction { len: 6, kind: InstrKind::RipRelative })
    );
    // REX-prefixed register-to-register mov: rex.w + mov rbp, rsp
    let code = vec![0x48, 0x89, 0xE5];
    assert_eq!(
        decode(&code, 0),
        Ok(Instruction { len: 3, kind: InstrKind::Ordinary })
    );
    // rex.w + mov rax, [rip+disp32]: the prefix lengthens the instruction
    // without changing its relocation kind
    let code = vec![0x48, 0x8B, 0x05, 0x01, 0x00, 0x00, 0x00];
    assert_eq!(
        decode(&code, 0),
        Ok(Instruction { len: 7, kind: InstrKind::RipRelative })
    );
    // hlt is outside the subset; so is a truncated immediate
    assert_eq!(decode(&vec![0xF4], 0), Err(Error::UnsupportedInstruction));
    assert_eq!(
        decode(&vec![0xB8, 0x01], 0),
        Err(Error::UnsupportedInstruction)
    );
}

#[test]
fn little_endian_displacement_encoding() {
    let mut out: Vec<u8> = Vec::new();
    detour::bytes::push_le32(&mut out, 0x12345678);
    assert_eq!(out, vec![0x78, 0x56, 0x34, 0x12]);
    assert_eq!(detour::bytes::disp32_encode(-11), 0xFFFF_FFF5);
    assert_eq!(detour::bytes::disp8_encode(-7), 0xF9);
    assert_eq!(detour::bytes::signed8_of(0xF9), -7);
    assert_eq!(detour::bytes::signed32_of(0xFFFF_FFF5), -11);
    let mut out: Vec<u8> = Vec::new();
    detour::bytes::push_le64(&mut out, 0x2_0000_0000);
    assert_eq!(out, vec![0x00, 0x00, 0x00, 0x00, 0x02, 0x00, 0x00, 0x00]);
}

#[test]
fn planner_consumes_whole_instructions() {
    // xor eax, eax (2) + mov al, [rip] (6) cover the five-byte jump with
    // width 8: a region never ends mid-instruction.
    let body = [
        0x31, 0xC0, 0x8A, 0x05, 0x03, 0x00, 0x00, 0x00, 0x90, 0x90, 0x90, 0xC3,
    ];
    let mem = image(&body);
    let region = plan(&mem, 6, BASE).expect("plan");
    assert!(matches!(region.strategy, Strategy::RelJump));
    assert_eq!(region.width, 8);
    assert_eq!(region.saved, body[..8].to_vec());
}

use inject::hook::{abs_jump_stub, hook, trampoline};

#[test]
fn absolute_jump_layout() {
    let stub = abs_jump_stub(0x1122_3344_5566_7788);
    assert_eq!(
        stub,
        vec![0xFF, 0x25, 0, 0, 0, 0, 0x88, 0x77, 0x66, 0x55, 0x44, 0x33, 0x22, 0x11]
    );
}

#[test]
fn hook_refuses_short_patch() {
    let stolen: Vec<u8> = (0..13).collect();
    assert!(hook(0x1000, &stolen, 0x2000).is_none());
}

#[test]
fn hook_exact_fit() {
    let stolen: Vec<u8> = (1..15).collect();
    let plan = hook(0x1000, &stolen, 0x2000).unwrap();
    assert_eq!(plan.patch, vec![0xFF, 0x25, 0, 0, 0, 0, 0x00, 0x20, 0, 0, 0, 0, 0, 0]);
    let mut expected = stolen.clone();
    expected.extend_from_slice(&[0xFF, 0x25, 0, 0, 0, 0, 0x0E, 0x10, 0, 0, 0, 0, 0, 0]);
    assert_eq!(plan.trampoline, expected);
}

#[test]
fn hook_pads_with_nops_and_jumps_back() {
    let stolen: Vec<u8> = vec![0xAB; 17];
    let plan = hook(0x7FF6_0000_1000, &stolen, 0x7FF6_0000_9000).unwrap();
    assert_eq!(plan.patch.len(), 17);
    assert_eq!(&plan.patch[14..], &[0x90, 0x90, 0x90]);
    let target = u64::from_le_bytes(plan.patch[6..14].try_into().unwrap());
    assert_eq!(target, 0x7FF6_0000_9000);
    assert_eq!(plan.trampoline.len(), 17 + 14);
    assert_eq!(&plan.trampoline[..17], &stolen[..]);
    let back = u64::from_le_bytes(plan.trampoline[17 + 6..17 + 14].try_into().unwrap());
    assert_eq!(back, 0x7FF6_0000_1000 + 17);
}

#[test]
fn trampoline_refuses_short_patch() {
    let stolen: Vec<u8> = vec![1, 2, 3, 4];
    assert!(trampoline(0x5000, 0x1000, &stolen, 0x9000).is_none());
}

#[test]
fn trampoline_relative_jump() {
    let stolen: Vec<u8> = vec![0x55, 0x48, 0x89, 0xE5, 0x90];
    let plan = trampoline(0x5000, 0x1000, &stolen, 0x9000).unwrap();
    // displacement 0x5000 - 0x1000 - 5 = 0x3FFB
    assert_eq!(plan.gateway, vec![0x55, 0x48, 0x89, 0xE5, 0x90, 0xE9, 0xFB, 0x3F, 0, 0]);
    assert!(plan.hook.is_none());
    // the jump lands right after the stolen bytes of the hooked function
    let disp = i32::from_le_bytes(plan.gateway[6..10].try_into().unwrap());
    assert_eq!(0x1000i64 + 5 + 5 + disp as i64, 0x5000i64 + 5);
}

#[test]
fn trampoline_backwards_jump_and_hook() {
    let stolen: Vec<u8> = vec![0xCC; 14];
    let plan = trampoline(0x1000, 0x5000, &stolen, 0x9000).unwrap();
    // displacement 0x1000 - 0x5000 - 5 = -0x4005
    let disp = (-0x4005i32).to_le_bytes();
    assert_eq!(&plan.gateway[14..], &[0xE9, disp[0], disp[1], disp[2], disp[3]]);
    let h = plan.hook.unwrap();
    assert_eq!(&h.patch[..6], &[0xFF, 0x25, 0, 0, 0, 0]);
    assert_eq!(u64::from_le_bytes(h.patch[6..14].try_into().unwrap()), 0x9000);
}

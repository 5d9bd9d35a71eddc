use diana_dcl::emulation::ProgramCounter;

#[test]
fn test_pc_as_tuple() {
    let pc = ProgramCounter::new();
    assert_eq!(pc.as_tuple(), (0, 0));
}

#[test]
fn test_pc_set() {
    let mut pc = ProgramCounter::new();
    assert_eq!(pc.as_tuple(), (0, 0));
    pc.set((5, 12));
    assert_eq!(pc.as_tuple(), (5, 12));
    assert_eq!(pc.as_u12(), 5 * 64 + 12);
}

#[test]
fn test_pc_increment() {
    let mut pc = ProgramCounter::new();
    pc.increment();
    assert_eq!(pc.as_tuple(), (0, 1));
    pc.set((0, 63));
    pc.increment();
    assert_eq!(pc.as_tuple(), (1, 0));
    pc.set((63, 63));
    pc.increment();
    assert_eq!(pc.as_tuple(), (0, 0));
}

use otoriscv::devices::Plic;

#[test]
fn reading_the_claim_register_claims_the_best_source() {
    let mut p = Plic::new();
    p.write32(40, 1);
    p.write32(0x2000, 1 << 10);
    p.raise_interrupt(10);
    assert!(p.m_external_pending());
    assert_eq!(p.read32(0x20_0004), 10);
    assert!(!p.m_external_pending());
    assert_eq!(p.read32(0x1000) & (1 << 10), 0);
    assert_eq!(p.read32(0x20_0004), 0);
    p.write32(0x20_0004, 10);
}

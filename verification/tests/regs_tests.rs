use kvm_rust::regs::{aarch64_core_reg, load_regs_hash, RegError, CORE_REG_BASE};

#[test]
fn core_reg_base_is_arm64_u64_core() {
    assert_eq!(CORE_REG_BASE, 0x6000000000000000 | 0x0030000000000000 | (0x0010 << 16));
}

#[test]
fn core_reg_ids_of_x_registers() {
    assert_eq!(aarch64_core_reg("x0"), Ok(0x6030_0000_0010_0000));
    assert_eq!(aarch64_core_reg("x1"), Ok(0x6030_0000_0010_0002));
    assert_eq!(aarch64_core_reg("x29"), Ok(0x6030_0000_0010_003a));
    assert_eq!(aarch64_core_reg("x+5"), Ok(0x6030_0000_0010_000a));
    assert_eq!(aarch64_core_reg("x007"), Ok(0x6030_0000_0010_000e));
}

#[test]
fn core_reg_ids_of_special_registers() {
    assert_eq!(aarch64_core_reg("sp"), Ok(0x6030_0000_0010_003e));
    assert_eq!(aarch64_core_reg("pc"), Ok(0x6030_0000_0010_0040));
    assert_eq!(aarch64_core_reg("pstate"), Ok(0x6030_0000_0010_0042));
}

#[test]
fn core_reg_rejects_bad_numbers() {
    assert_eq!(aarch64_core_reg("x"), Err(RegError::InvalidNumber));
    assert_eq!(aarch64_core_reg("x+"), Err(RegError::InvalidNumber));
    assert_eq!(aarch64_core_reg("x-1"), Err(RegError::InvalidNumber));
    assert_eq!(aarch64_core_reg("xa"), Err(RegError::InvalidNumber));
    assert_eq!(aarch64_core_reg("x1 "), Err(RegError::InvalidNumber));
    assert_eq!(aarch64_core_reg("x18446744073709551616"), Err(RegError::InvalidNumber));
}

#[test]
fn core_reg_rejects_unknown_names() {
    assert_eq!(aarch64_core_reg(""), Err(RegError::InvalidRegister));
    assert_eq!(aarch64_core_reg("lr"), Err(RegError::InvalidRegister));
    assert_eq!(aarch64_core_reg("spx"), Err(RegError::InvalidRegister));
    assert_eq!(aarch64_core_reg("X0"), Err(RegError::InvalidRegister));
}

#[test]
fn register_table_holds_the_core_registers() {
    let table = load_regs_hash().unwrap();
    for i in 0..30u64 {
        let name = format!("x{i}");
        assert_eq!(table.get(&name), Some(0x6030_0000_0010_0000 | (2 * i)));
    }
    assert_eq!(table.get("sp"), Some(0x6030_0000_0010_003e));
    assert_eq!(table.get("pc"), Some(0x6030_0000_0010_0040));
    assert_eq!(table.get("pstate"), Some(0x6030_0000_0010_0042));
}

#[test]
fn register_table_knows_only_canonical_names() {
    let table = load_regs_hash().unwrap();
    assert_eq!(table.get("x30"), None);
    assert_eq!(table.get("x01"), None);
    assert_eq!(table.get("x+1"), None);
    assert_eq!(table.get("lr"), None);
}

#[test]
fn register_table_ids_are_distinct() {
    let table = load_regs_hash().unwrap();
    let mut names: Vec<String> = (0..30).map(|i| format!("x{i}")).collect();
    names.extend(["sp", "pc", "pstate"].iter().map(|s| s.to_string()));
    let mut ids: Vec<u64> = names.iter().map(|n| table.get(n).unwrap()).collect();
    ids.sort();
    ids.dedup();
    assert_eq!(ids.len(), 33);
}

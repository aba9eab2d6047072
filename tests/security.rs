use kernel_core::filesystem::{Filesystem, OpenFlags};
use kernel_core::security::{
    init_with_fs, write_number, OperationType, PIIDetector, SecurityLevel, SecurityManager,
};

#[test]
fn operation_policy() {
    let sm = SecurityManager::new();
    assert_eq!(sm.check_operation(OperationType::ModelExecution, SecurityLevel::Critical), Ok(true));
    assert!(sm.check_operation(OperationType::CloudAccess, SecurityLevel::Low).is_err());
    assert_eq!(sm.check_operation(OperationType::DriverUpdate, SecurityLevel::Low), Ok(true));
    assert!(sm.check_operation(OperationType::ModelHotpatch, SecurityLevel::High).is_err());
    assert_eq!(sm.check_operation(OperationType::DataExport, SecurityLevel::Critical), Ok(true));
    assert!(sm.check_operation(OperationType::SecurityPolicyChange, SecurityLevel::Low).is_err());
    assert_eq!(sm.check_operation(OperationType::AutonomyControl, SecurityLevel::High), Ok(true));
    assert!(sm.is_autonomy_enabled());
}

#[test]
fn numbers_in_decimal() {
    let mut v = Vec::new();
    assert_eq!(write_number(&mut v, 0), 1);
    assert_eq!(write_number(&mut v, 1234), 4);
    assert_eq!(write_number(&mut v, u64::MAX), 20);
    assert_eq!(v, b"0123418446744073709551615".to_vec());
}

#[test]
fn audit_records_land_in_the_audit_file() {
    let mut fs = Filesystem::init();
    let mut sm = Some(SecurityManager::new());
    assert_eq!(init_with_fs(&mut sm, &mut fs), Ok(()));
    let mut sm = sm.unwrap();
    assert_eq!(sm.set_autonomy(false, 7, &mut fs), Ok(()));
    assert_eq!(sm.kill_switch(8, &mut fs), Ok(()));
    let f = fs.as_mut().unwrap();
    let fd = f.open("/audit.log", OpenFlags::from_bits(1).unwrap()).unwrap();
    let mut buf = [0u8; 200];
    let n = f.read(fd, &mut buf).unwrap();
    let text = String::from_utf8(buf[..n].to_vec()).unwrap();
    assert_eq!(
        text,
        "0:6:0:1:Security manager initialized\n0:7:7:1:AI autonomy disabled\n0:7:8:1:Kill switch activated\n"
    );
}

#[test]
fn redaction_replaces_patterns_in_order() {
    let d = PIIDetector::new();
    let mut data = br"id \b\d{3}-\d{2}-\d{4}\b end and more text".to_vec();
    let n = d.redact(&mut data);
    assert_eq!(n, 1);
    assert_eq!(&data[..17], b"id [REDACTED] end");
    let mut plain = b"plain".to_vec();
    assert_eq!(d.redact(&mut plain), 0);
    assert_eq!(plain, b"plain".to_vec());
    let mut bad = vec![0xc3u8, 0x28];
    assert_eq!(d.redact(&mut bad), 0);
    assert_eq!(bad, vec![0xc3u8, 0x28]);
}

#[test]
fn redaction_disabled_or_enabled_through_manager() {
    let sm = SecurityManager::new();
    let mut data = br"\b\d{5}(-\d{4})?\b".to_vec();
    assert_eq!(sm.redact_pii(&mut data), 1);
    assert_eq!(&data[..10], b"[REDACTED]");
}

#[test]
fn codes_round_trip() {
    for c in 0..8u32 {
        let op = OperationType::from_code(c).unwrap();
        assert_eq!(op.code(), c as u64);
    }
    assert!(OperationType::from_code(8).is_none());
    assert_eq!(SecurityLevel::from_code(2), Some(SecurityLevel::High));
    assert!(SecurityLevel::from_code(4).is_none());
}

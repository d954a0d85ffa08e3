use lora_bridge::error::{Error, FilterKind};
use lora_bridge::router::filter::{copy_bytes, DevAddrFilter, Eui, EuiFilter};

#[test]
fn eui_filter_turns_down_the_empty_blob() {
    assert_eq!(EuiFilter::from_bin(&[]), Err(Error::FilterError(FilterKind::Eui)));
}

#[test]
fn eui_filter_keeps_its_blob() {
    let blob = [0x06u8, 0x00, 0x80];
    let filter = EuiFilter::from_bin(&blob).unwrap();
    assert_eq!(filter.to_bin(), blob.to_vec());
}

#[test]
fn eui_filter_of_all_ones_holds_everything() {
    let filter = EuiFilter::from_bin(&[0xff, 0xff]).unwrap();
    assert!(filter.contains(&Eui { app_eui: 0, dev_eui: 0 }));
    assert!(filter.contains(&Eui { app_eui: u64::MAX, dev_eui: 12345 }));
    assert!(filter.contains(&Eui { app_eui: 0xdead_beef, dev_eui: u64::MAX }));
}

#[test]
fn eui_filter_of_all_zeros_holds_nothing() {
    let filter = EuiFilter::from_bin(&[0x00, 0x00, 0x00]).unwrap();
    assert!(!filter.contains(&Eui { app_eui: 0, dev_eui: 0 }));
    assert!(!filter.contains(&Eui { app_eui: 7, dev_eui: 23 }));
}

#[test]
fn eui_filter_looks_at_both_identifiers() {
    // Eight bits, of which bits 1 and 2 are set.
    let filter = EuiFilter::from_bin(&[0b0000_0110]).unwrap();
    assert!(filter.contains(&Eui { app_eui: 1, dev_eui: 2 }));
    assert!(filter.contains(&Eui { app_eui: 2, dev_eui: 1 }));
    assert!(filter.contains(&Eui { app_eui: 9, dev_eui: 10 }));
    assert!(!filter.contains(&Eui { app_eui: 1, dev_eui: 3 }));
    assert!(!filter.contains(&Eui { app_eui: 0, dev_eui: 2 }));
    assert!(!filter.contains(&Eui { app_eui: 8, dev_eui: 8 }));
}

#[test]
fn eui_filter_counts_bits_across_bytes() {
    // Sixteen bits, of which bits 3 and 12 are set.
    let filter = EuiFilter::from_bin(&[0b0000_1000, 0b0001_0000]).unwrap();
    assert!(filter.contains(&Eui { app_eui: 3, dev_eui: 12 }));
    assert!(filter.contains(&Eui { app_eui: 12 + 16, dev_eui: 3 + 32 }));
    assert!(!filter.contains(&Eui { app_eui: 4, dev_eui: 12 }));
    assert!(!filter.contains(&Eui { app_eui: 3, dev_eui: 11 }));
    // 2^64 - 1 is 15 modulo 16.
    assert!(!filter.contains(&Eui { app_eui: u64::MAX, dev_eui: 3 }));
}

#[test]
fn dev_addr_filter_reads_base_and_mask() {
    let filter =
        DevAddrFilter::from_bin(&[0x48, 0x00, 0x01, 0x00, 0xff, 0xff, 0xff, 0x00]).unwrap();
    assert_eq!(filter, DevAddrFilter { base: 0x4800_0100, mask: 0xffff_ff00 });
}

#[test]
fn dev_addr_filter_turns_down_other_lengths() {
    let wrong = Err(Error::FilterError(FilterKind::DevAddr));
    assert_eq!(DevAddrFilter::from_bin(&[]), wrong);
    assert_eq!(DevAddrFilter::from_bin(&[0x48, 0x00, 0x01, 0x00, 0xff, 0xff, 0xff]), wrong);
    assert_eq!(DevAddrFilter::from_bin(&[0u8; 9]), wrong);
}

#[test]
fn dev_addr_filter_holds_its_range() {
    let filter = DevAddrFilter { base: 0x4800_0100, mask: 0xffff_ff00 };
    assert!(filter.contains(0x4800_0100));
    assert!(filter.contains(0x4800_01ff));
    assert!(!filter.contains(0x4800_0200));
    assert!(!filter.contains(0x4800_00ff));
    assert!(!filter.contains(0));
}

#[test]
fn dev_addr_filter_ignores_base_bits_outside_the_mask() {
    let filter = DevAddrFilter { base: 0x0000_01ff, mask: 0xffff_ff00 };
    assert!(filter.contains(0x0000_0100));
    assert!(filter.contains(0x0000_01ab));
    assert!(!filter.contains(0x0000_02ff));
}

#[test]
fn dev_addr_filter_with_empty_mask_holds_everything() {
    let filter = DevAddrFilter::from_bin(&[1, 2, 3, 4, 0, 0, 0, 0]).unwrap();
    assert!(filter.contains(0));
    assert!(filter.contains(u32::MAX));
}

#[test]
fn copy_bytes_copies() {
    assert_eq!(copy_bytes(&[]), Vec::<u8>::new());
    assert_eq!(copy_bytes(&[1, 2, 3]), vec![1u8, 2, 3]);
}

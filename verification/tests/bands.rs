use udx710_backend::bands::{
    band_lock_message, band_lock_plan, BandLockRequest, band_unlock_message, bands_to_bitmask, bitmask_to_bands,
    build_splband_lte_command, build_splband_nr_command, masks_need_unlock,
    parse_splband_lte_response, parse_splband_nr_response, LTE_FDD_ALL, LTE_TDD_ALL, NR_FDD_ALL,
    NR_TDD_ALL,
};

#[test]
fn bands_to_bitmask_documented_examples() {
    assert_eq!(bands_to_bitmask(&[1, 3, 8], 1), 133);
    assert_eq!(bands_to_bitmask(&[1, 3, 28], 100), 517);
    assert_eq!(bands_to_bitmask(&[77, 78], 41), 384);
    assert_eq!(bands_to_bitmask(&[41, 78, 79], 41), 784);
}

#[test]
fn bands_outside_the_group_add_nothing() {
    assert_eq!(bands_to_bitmask(&[1, 99], 1), 1);
    assert_eq!(bands_to_bitmask(&[39, 41], 33), 320);
    assert_eq!(bands_to_bitmask(&[1, 3], 7), 0);
    assert_eq!(bands_to_bitmask(&[], 1), 0);
}

#[test]
fn bitmask_to_bands_documented_examples() {
    assert_eq!(bitmask_to_bands(133, 1), vec![1, 3, 8]);
    assert_eq!(bitmask_to_bands(517, 100), vec![1, 3, 28]);
    assert_eq!(bitmask_to_bands(384, 41), vec![77, 78]);
    assert_eq!(bitmask_to_bands(320, 33), vec![39, 41]);
    assert_eq!(bitmask_to_bands(5, 9), Vec::<u8>::new());
}

#[test]
fn all_band_constants_match_their_lists() {
    assert_eq!(bands_to_bitmask(&[1, 3, 5, 8], 1), LTE_FDD_ALL);
    assert_eq!(bands_to_bitmask(&[39, 41], 33), LTE_TDD_ALL);
    assert_eq!(bands_to_bitmask(&[1, 3, 28], 100), NR_FDD_ALL);
    assert_eq!(bands_to_bitmask(&[41, 77, 78, 79], 41), NR_TDD_ALL);
}

#[test]
fn lte_mask_roundtrip() {
    for mask in [0u16, 1, 133, 0xFFFF, 0x8001, 12345] {
        assert_eq!(bands_to_bitmask(&bitmask_to_bands(mask, 1), 1), mask);
        assert_eq!(bands_to_bitmask(&bitmask_to_bands(mask, 33), 33), mask);
    }
}

#[test]
fn nr_mask_roundtrip_keeps_table_bits() {
    // Bits 3, 5 and 8 name no NR FDD band.
    assert_eq!(bands_to_bitmask(&bitmask_to_bands(0xFFFF, 100), 100), 727);
    assert_eq!(bands_to_bitmask(&bitmask_to_bands(0xFFFF, 41), 41), 927);
}

#[test]
fn parse_splband_documented_examples() {
    assert_eq!(parse_splband_lte_response("+SPLBAND: 0,320,0,149,0\r\nOK"), (149, 320));
    assert_eq!(parse_splband_nr_response("+SPLBAND: 1,0,256,0\r\nOK"), (1, 256));
}

#[test]
fn parse_splband_rejects_short_or_missing_lines() {
    assert_eq!(parse_splband_lte_response("+SPLBAND: 0,320,0\r\nOK"), (0, 0));
    assert_eq!(parse_splband_nr_response("OK"), (0, 0));
    assert_eq!(parse_splband_nr_response("+SPLBAND: x,0, 912 ,0\r\n"), (0, 912));
}

#[test]
fn build_splband_documented_examples() {
    assert_eq!(build_splband_lte_command(5, 320), "AT+SPLBAND=1,0,320,0,5,0");
    assert_eq!(build_splband_nr_command(1, 256), "AT+SPLBAND=2,1,0,256,0");
}

#[test]
fn messages_and_unlock_test() {
    assert!(!masks_need_unlock((0, 0)));
    assert!(masks_need_unlock((1, 0)));
    assert_eq!(band_unlock_message(true, true), "已解除所有频段锁定（LTE + NR）");
    assert_eq!(band_unlock_message(false, true), "已解除 NR 频段锁定（LTE 未锁定）");
    assert_eq!(band_unlock_message(false, false), "当前没有锁定的频段，无需解锁");
    assert_eq!(band_lock_message(true, false), "LTE 频段锁定已应用");
    assert_eq!(band_lock_message(true, true), "已同时锁定 LTE 和 NR 频段");
}

#[test]
fn repeated_bands_are_one_bit() {
    assert_eq!(bands_to_bitmask(&[1, 1], 1), 1);
    assert_eq!(bands_to_bitmask(&[78, 78, 77], 41), 384);
    let all_lte_fdd: Vec<u8> = (1..=16).chain(1..=16).collect();
    assert_eq!(bands_to_bitmask(&all_lte_fdd, 1), 65535);
}

#[test]
fn bands_roundtrip_gives_supported_bands_ascending() {
    assert_eq!(bitmask_to_bands(bands_to_bitmask(&[8, 1, 3, 99], 1), 1), vec![1, 3, 8]);
    assert_eq!(bitmask_to_bands(bands_to_bitmask(&[79, 41, 12, 79], 41), 41), vec![41, 79]);
}

#[test]
fn band_lock_plans() {
    let ok = BandLockRequest {
        lte_fdd_bands: vec![1, 3],
        lte_tdd_bands: vec![],
        nr_fdd_bands: vec![],
        nr_tdd_bands: vec![78],
    };
    let plan = band_lock_plan(&ok);
    assert_eq!(plan.lte_command, Some(build_splband_lte_command(5, 0)));
    assert_eq!(plan.nr_command, Some(build_splband_nr_command(0, 256)));
    assert!(!plan.unlock_all);
    let twice = BandLockRequest {
        lte_fdd_bands: vec![],
        lte_tdd_bands: vec![48, 48],
        nr_fdd_bands: vec![],
        nr_tdd_bands: vec![],
    };
    assert_eq!(band_lock_plan(&twice).lte_command, Some(build_splband_lte_command(0, 32768)));
    let empty = BandLockRequest {
        lte_fdd_bands: vec![],
        lte_tdd_bands: vec![],
        nr_fdd_bands: vec![],
        nr_tdd_bands: vec![],
    };
    let plan = band_lock_plan(&empty);
    assert!(plan.unlock_all && plan.lte_command.is_none() && plan.nr_command.is_none());
}

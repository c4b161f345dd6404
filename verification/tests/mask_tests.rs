use four_in_a_row::masks::{
    get_col, get_main_diag, get_row, get_sec_diag, COL_BASE, MAIN_DIAG_BASE, ROW_BASE,
    SEC_DIAG_BASE,
};

#[test]
fn column_testing() {
    // First column
    assert_eq!(COL_BASE, get_col(0));
    // Second column
    assert_eq!(65_280, get_col(1));
    // Third column
    assert_eq!(16_711_680, get_col(2));
    // Fourth column
    assert_eq!(4_278_190_080, get_col(3));
    // Fifth column
    assert_eq!(1_095_216_660_480, get_col(4));
    // Sixth column
    assert_eq!(280_375_465_082_880, get_col(5));
    // Seventh column
    assert_eq!(71_776_119_061_217_280, get_col(6));
    // 8th column
    assert_eq!(18_374_686_479_671_623_680, get_col(7));
}

#[test]
fn row_testing() {
    assert_eq!(ROW_BASE, get_row(0));
    assert_eq!(144_680_345_676_153_346, get_row(1));
    assert_eq!(289_360_691_352_306_692, get_row(2));
    assert_eq!(578_721_382_704_613_384, get_row(3));
    assert_eq!(1_157_442_765_409_226_768, get_row(4));
    assert_eq!(2_314_885_530_818_453_536, get_row(5));
    assert_eq!(4_629_771_061_636_907_072, get_row(6));
    assert_eq!(9_259_542_123_273_814_144, get_row(7));
}

#[test]
fn main_diag_testing() {
    assert_eq!(MAIN_DIAG_BASE, get_main_diag(0));
    assert_eq!(36_099_303_471_055_874, get_main_diag(-1));
    assert_eq!(141_012_904_183_812, get_main_diag(-2));
    assert_eq!(550_831_656_968, get_main_diag(-3));
    assert_eq!(2_151_686_160, get_main_diag(-4));
    assert_eq!(8_405_024, get_main_diag(-5));
    assert_eq!(32_832, get_main_diag(-6));
    assert_eq!(128, get_main_diag(-7));

    // Other halve of diag
    assert_eq!(4_620_710_844_295_151_872, get_main_diag(1));
    assert_eq!(2_310_355_422_147_575_808, get_main_diag(2));
    assert_eq!(1_155_177_711_073_755_136, get_main_diag(3));
    assert_eq!(577_588_855_528_488_960, get_main_diag(4));
    assert_eq!(288_794_425_616_760_832, get_main_diag(5));
    assert_eq!(144_396_663_052_566_528, get_main_diag(6));
    assert_eq!(72_057_594_037_927_936, get_main_diag(7));
}

#[test]
fn sec_diag_testing() {
    assert_eq!(SEC_DIAG_BASE, get_sec_diag(0));
    assert_eq!(283_691_315_109_952, get_sec_diag(-1));
    assert_eq!(1_108_169_199_648, get_sec_diag(-2));
    assert_eq!(4_328_785_936, get_sec_diag(-3));
    assert_eq!(16_909_320, get_sec_diag(-4));
    assert_eq!(66_052, get_sec_diag(-5));
    assert_eq!(258, get_sec_diag(-6));
    assert_eq!(1, get_sec_diag(-7));

    // Other halve of diag
    assert_eq!(145_249_953_336_295_424, get_sec_diag(1));
    assert_eq!(290_499_906_672_525_312, get_sec_diag(2));
    assert_eq!(580_999_813_328_273_408, get_sec_diag(3));
    assert_eq!(1_161_999_622_361_579_520, get_sec_diag(4));
    assert_eq!(2_323_998_145_211_531_264, get_sec_diag(5));
    assert_eq!(4_647_714_815_446_351_872, get_sec_diag(6));
    assert_eq!(9_223_372_036_854_775_808, get_sec_diag(7));
}

#[test]
fn mask_popcounts() {
    for i in 0..8u8 {
        assert_eq!(get_row(i).count_ones(), 8);
        assert_eq!(get_col(i).count_ones(), 8);
    }
    for d in -7..=7i8 {
        assert_eq!(get_main_diag(d).count_ones(), 8 - d.unsigned_abs() as u32);
        assert_eq!(get_sec_diag(d).count_ones(), 8 - d.unsigned_abs() as u32);
    }
}

use cw310::pins::resolve;
use cw310::Error;

#[test]
fn numeric_pins_accepted_unchanged() {
    for i in 0..=106u16 {
        let name = format!("{}", i);
        assert_eq!(resolve(&name), Ok(i as u8));
    }
}

#[test]
fn numeric_pins_out_of_range() {
    assert_eq!(resolve("107"), Err(Error::InvalidPinNumber(107)));
    assert_eq!(resolve("108"), Err(Error::InvalidPinNumber(108)));
    assert_eq!(resolve("200"), Err(Error::InvalidPinNumber(200)));
    assert_eq!(resolve("255"), Err(Error::InvalidPinNumber(255)));
}

#[test]
fn numeric_overflow_falls_through_to_name_lookup() {
    assert_eq!(resolve("256"), Err(Error::InvalidPinName("256".to_string())));
    assert_eq!(resolve("300"), Err(Error::InvalidPinName("300".to_string())));
}

#[test]
fn numeric_pins_with_leading_zeros() {
    assert_eq!(resolve("007"), Ok(7));
    assert_eq!(resolve("0106"), Ok(106));
    assert_eq!(resolve("0107"), Err(Error::InvalidPinNumber(107)));
}

#[test]
fn numeric_pins_with_plus_sign() {
    assert_eq!(resolve("+28"), Ok(28));
    assert_eq!(resolve("+"), Err(Error::InvalidPinName("+".to_string())));
}

#[test]
fn sam_controller_names() {
    assert_eq!(resolve("PA0"), Ok(0));
    assert_eq!(resolve("PA29"), Ok(29));
    assert_eq!(resolve("PB0"), Ok(32));
    assert_eq!(resolve("PB31"), Ok(63));
    assert_eq!(resolve("PC0"), Ok(64));
    assert_eq!(resolve("PC30"), Ok(94));
    assert_eq!(resolve("PD0"), Ok(96));
    assert_eq!(resolve("PD10"), Ok(106));
}

#[test]
fn sam_controller_gaps_rejected() {
    assert_eq!(resolve("PA30"), Err(Error::InvalidPinName("PA30".to_string())));
    assert_eq!(resolve("PB32"), Err(Error::InvalidPinName("PB32".to_string())));
    assert_eq!(resolve("PC31"), Err(Error::InvalidPinName("PC31".to_string())));
    assert_eq!(resolve("PD11"), Err(Error::InvalidPinName("PD11".to_string())));
    assert_eq!(resolve("PE0"), Err(Error::InvalidPinName("PE0".to_string())));
}

#[test]
fn sam_controller_names_are_exact() {
    // Index with a leading zero is not a table key.
    assert_eq!(resolve("PA01"), Err(Error::InvalidPinName("PA01".to_string())));
    assert_eq!(resolve("P0"), Err(Error::InvalidPinName("P0".to_string())));
    assert_eq!(resolve("PA"), Err(Error::InvalidPinName("PA".to_string())));
}

#[test]
fn resolve_is_case_insensitive() {
    assert_eq!(resolve("pa0"), resolve("PA0"));
    assert_eq!(resolve("pa0"), Ok(0));
    assert_eq!(resolve("Pd10"), Ok(106));
    assert_eq!(resolve("usb_spi_cs"), resolve("USB_SPI_CS"));
    assert_eq!(resolve("pwron"), Ok(59));
}

#[test]
fn schematic_alias_matches_sam_name() {
    assert_eq!(resolve("USB_SPI_CS"), resolve("PA28"));
    assert_eq!(resolve("USB_SPI_CS"), Ok(28));
}

#[test]
fn schematic_aliases_are_transparent() {
    let table: [(&str, &str); 53] = [
        ("USBSPARE0", "PC10"),
        ("USBSPARE1", "PC11"),
        ("USBSPARE2", "PC12"),
        ("USBSPARE3", "PC13"),
        ("USBRD", "PA29"),
        ("USBWR", "PC18"),
        ("USBCE", "PA6"),
        ("USBALE", "PC17"),
        ("USBCK0", "PB22"),
        ("USBCK1", "PA24"),
        ("USB_A0", "PC21"),
        ("USB_A1", "PC22"),
        ("USB_A2", "PC23"),
        ("USB_A3", "PC24"),
        ("USB_A4", "PC25"),
        ("USB_A5", "PC26"),
        ("USB_A6", "PC27"),
        ("USB_A7", "PC28"),
        ("USB_A8", "PC29"),
        ("USB_A9", "PC30"),
        ("USB_A10", "PD0"),
        ("USB_A11", "PD1"),
        ("USB_A12", "PD2"),
        ("USB_A13", "PD3"),
        ("USB_A14", "PD4"),
        ("USB_A15", "PD5"),
        ("USB_A16", "PD6"),
        ("USB_A17", "PD7"),
        ("USB_A18", "PD8"),
        ("USB_A19", "PD9"),
        ("USB_D0", "PC2"),
        ("USB_D1", "PC3"),
        ("USB_D2", "PC4"),
        ("USB_D3", "PC5"),
        ("USB_D4", "PC6"),
        ("USB_D5", "PC7"),
        ("USB_D6", "PC8"),
        ("USB_D7", "PC9"),
        ("SWSTATE", "PB26"),
        ("PWRON", "PB27"),
        ("LEDSURGE", "PB14"),
        ("SAM_FPGA_CFG_CS", "PB16"),
        ("CFG_INITB", "PB18"),
        ("CFG_DONE", "PB17"),
        ("CFB_PROGRAMB", "PB19"),
        ("SAM_FPGA_COPI", "PB20"),
        ("SAM_FPGA_CIPO", "PB21"),
        ("SAM_FPGA_CCLK", "PB24"),
        ("USB_CLK1", "PA24"),
        ("USB_SPI_CIPO", "PA25"),
        ("USB_SPI_COPI", "PA26"),
        ("USB_SPI_SCK", "PA27"),
        ("USB_SPI_CS", "PA28"),
    ];
    for (alias, sam) in table {
        let via_alias = resolve(alias);
        let direct = resolve(sam);
        assert!(via_alias.is_ok(), "{} did not resolve", alias);
        assert_eq!(via_alias, direct, "{} vs {}", alias, sam);
    }
}

#[test]
fn unknown_names_report_uppercased_name() {
    assert_eq!(resolve(""), Err(Error::InvalidPinName("".to_string())));
    assert_eq!(resolve("foo"), Err(Error::InvalidPinName("FOO".to_string())));
    assert_eq!(resolve("FOO"), Err(Error::InvalidPinName("FOO".to_string())));
    assert_eq!(
        resolve("usb_spi_xx"),
        Err(Error::InvalidPinName("USB_SPI_XX".to_string()))
    );
}

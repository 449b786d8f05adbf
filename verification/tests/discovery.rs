use cw310::{Error, UsbBackend};

const VID: u16 = 0x2b3e;
const PID: u16 = 0xc310;

#[test]
fn candidate_kept_when_everything_matches() {
    let r = UsbBackend::keep_candidate(
        Some((VID, PID)),
        true,
        Some("SN1".to_string()),
        VID,
        PID,
        &None,
    );
    assert_eq!(r, Some("SN1".to_string()));
}

#[test]
fn candidate_kept_when_serial_filter_matches() {
    let r = UsbBackend::keep_candidate(
        Some((VID, PID)),
        true,
        Some("SN1".to_string()),
        VID,
        PID,
        &Some("SN1".to_string()),
    );
    assert_eq!(r, Some("SN1".to_string()));
}

#[test]
fn candidate_skipped_without_descriptor() {
    let r = UsbBackend::keep_candidate(None, true, Some("SN1".to_string()), VID, PID, &None);
    assert_eq!(r, None);
}

#[test]
fn candidate_skipped_on_id_mismatch() {
    let serial = Some("SN1".to_string());
    let r = UsbBackend::keep_candidate(Some((0x1d6b, PID)), true, serial.clone(), VID, PID, &None);
    assert_eq!(r, None);
    let r = UsbBackend::keep_candidate(Some((VID, 0x0002)), true, serial, VID, PID, &None);
    assert_eq!(r, None);
}

#[test]
fn candidate_skipped_when_not_opened() {
    let r = UsbBackend::keep_candidate(Some((VID, PID)), false, None, VID, PID, &None);
    assert_eq!(r, None);
}

#[test]
fn candidate_skipped_without_serial() {
    let r = UsbBackend::keep_candidate(Some((VID, PID)), true, None, VID, PID, &None);
    assert_eq!(r, None);
}

#[test]
fn candidate_skipped_on_serial_filter_mismatch() {
    let r = UsbBackend::keep_candidate(
        Some((VID, PID)),
        true,
        Some("SN1".to_string()),
        VID,
        PID,
        &Some("SN2".to_string()),
    );
    assert_eq!(r, None);
}

#[test]
fn empty_scan_result_is_not_found() {
    let r = UsbBackend::first_match(Vec::new());
    assert!(matches!(r, Err(Error::NotFound(s)) if s == "CW310"));
}

use cw310::backend::{Backend, UsbBackend, DEFAULT_TIMEOUT_MS, REQUEST_TYPE_READ, REQUEST_TYPE_WRITE};
use cw310::chunks::{chunk_sizes, MAX_XFER_BYTES};
use cw310::Error;

#[test]
fn chunk_plan_of_a_130_byte_write() {
    // A 130-byte buffer goes out as exactly three raw exchanges of 64, 64
    // and 2 bytes, in that order.
    assert_eq!(chunk_sizes(130), vec![64, 64, 2]);
}

#[test]
fn chunk_plan_edge_cases() {
    assert_eq!(chunk_sizes(0), Vec::<usize>::new());
    assert_eq!(chunk_sizes(1), vec![1]);
    assert_eq!(chunk_sizes(63), vec![63]);
    assert_eq!(chunk_sizes(64), vec![64]);
    assert_eq!(chunk_sizes(65), vec![64, 1]);
    assert_eq!(chunk_sizes(128), vec![64, 64]);
    assert_eq!(chunk_sizes(192), vec![64, 64, 64]);
}

#[test]
fn chunk_plan_counts_and_sums() {
    for n in 0..500usize {
        let plan = chunk_sizes(n);
        assert_eq!(plan.len(), n.div_ceil(MAX_XFER_BYTES));
        assert_eq!(plan.iter().sum::<usize>(), n);
        for (k, &len) in plan.iter().enumerate() {
            assert!(1 <= len && len <= MAX_XFER_BYTES);
            if k + 1 < plan.len() {
                assert_eq!(len, MAX_XFER_BYTES);
            }
        }
        if n > 0 {
            let want_last = if n % MAX_XFER_BYTES == 0 { MAX_XFER_BYTES } else { n % MAX_XFER_BYTES };
            assert_eq!(*plan.last().unwrap(), want_last);
        }
    }
}

#[test]
fn raw_exchange_rejects_oversized_buffers() {
    assert_eq!(
        Backend::check_xfer_lens(65, 65),
        Err(Error::InvalidDataLength(65))
    );
    assert_eq!(
        Backend::check_xfer_lens(70, 3),
        Err(Error::InvalidDataLength(70))
    );
    assert_eq!(
        Backend::check_xfer_lens(64, 100),
        Err(Error::InvalidDataLength(100))
    );
}

#[test]
fn raw_exchange_rejects_mismatched_lengths() {
    assert_eq!(
        Backend::check_xfer_lens(10, 20),
        Err(Error::MismatchedDataLength(10, 20))
    );
    assert_eq!(
        Backend::check_xfer_lens(64, 0),
        Err(Error::MismatchedDataLength(64, 0))
    );
    assert_eq!(
        Backend::check_xfer_lens(0, 1),
        Err(Error::MismatchedDataLength(0, 1))
    );
}

#[test]
fn raw_exchange_accepts_matched_buffers() {
    assert_eq!(Backend::check_xfer_lens(0, 0), Ok(()));
    assert_eq!(Backend::check_xfer_lens(5, 5), Ok(()));
    assert_eq!(Backend::check_xfer_lens(64, 64), Ok(()));
}

#[test]
fn protocol_constants_are_bit_exact() {
    assert_eq!(UsbBackend::VID_NEWAE, 0x2b3e);
    assert_eq!(UsbBackend::PID_CW310, 0xc310);
    assert_eq!(REQUEST_TYPE_WRITE, 0x41);
    assert_eq!(REQUEST_TYPE_READ, 0xC1);
    assert_eq!(DEFAULT_TIMEOUT_MS, 200);
    assert_eq!(Backend::CMD_FW_VERSION, 0x17);
    assert_eq!(Backend::CMD_FW_BUILD_DATE, 0x40);
    assert_eq!(Backend::CMD_FPGAIO_UTIL, 0x34);
    assert_eq!(Backend::REQ_IO_CONFIG, 0xA0);
    assert_eq!(Backend::REQ_IO_RELEASE, 0xA1);
    assert_eq!(Backend::REQ_IO_OUTPUT, 0xA2);
    assert_eq!(Backend::CONFIG_PIN_INPUT, 0x01);
    assert_eq!(Backend::CONFIG_PIN_OUTPUT, 0x02);
    assert_eq!(Backend::CONFIG_PIN_SPI1_SDO, 0x10);
    assert_eq!(Backend::CONFIG_PIN_SPI1_SDI, 0x11);
    assert_eq!(Backend::CONFIG_PIN_SPI1_SCK, 0x12);
    assert_eq!(Backend::CONFIG_PIN_SPI1_CS, 0x13);
    assert_eq!(Backend::CMD_FPGASPI1_XFER, 0x35);
    assert_eq!(Backend::REQ_ENABLE_SPI, 0xA0);
    assert_eq!(Backend::REQ_DISABLE_SPI, 0xA1);
    assert_eq!(Backend::REQ_CS_LOW, 0xA2);
    assert_eq!(Backend::REQ_CS_HIGH, 0xA3);
    assert_eq!(Backend::REQ_SEND_DATA, 0xA4);
}

#[test]
fn largest_pin_number() {
    assert_eq!(cw310::pins::LAST_PIN_NUMBER, 106);
    assert_eq!(cw310::pins::resolve("106"), Ok(106));
}

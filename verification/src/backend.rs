//! Device discovery, session primitives, and the command protocol of the
//! CW310 board.

use vstd::prelude::*;
use vstd::string::StringExecFns;

use crate::chunks::{chunk_sizes, lemma_size_plan_step, size_plan, MAX_XFER_BYTES};
use crate::error::Error;
use crate::pins;
use crate::pins::{resolve_spec, upper_seq, Resolution};
use crate::usb;
use crate::usb::{UsbDevice, UsbHandle};

verus! {

/// Request-type byte of a vendor-class, host-to-device, interface-recipient
/// control write.
pub const REQUEST_TYPE_WRITE: u8 = 0x41;

/// Request-type byte of a vendor-class, device-to-host, interface-recipient
/// control read.
pub const REQUEST_TYPE_READ: u8 = 0xC1;

/// Fixed operation timeout of a session, in milliseconds.
pub const DEFAULT_TIMEOUT_MS: u64 = 200;

/// A failed pin resolution surfaces exactly the error that
/// [`pins::resolve_spec`] assigns to the identifier.
pub open spec fn resolve_failed_as(e: Error, s: Seq<char>) -> bool {
    match resolve_spec(s) {
        Resolution::Pin(_) => false,
        Resolution::BadNumber(n) => e == Error::InvalidPinNumber(n),
        Resolution::BadName => e matches Error::InvalidPinName(u) && u@ == upper_seq(s),
    }
}

/// The `UsbBackend` provides low-level USB access to the CW310 board: one
/// open device handle, its serial number, and a fixed operation timeout.
pub struct UsbBackend {
    handle: UsbHandle,
    serial_number: String,
    timeout_ms: u64,
}

impl UsbBackend {
    /// The vendor id of the board family.
    pub const VID_NEWAE: u16 = 0x2b3e;

    /// The product id of the CW310 board.
    pub const PID_CW310: u16 = 0xc310;

    /// The serial number bound to this session.
    pub closed spec fn serial(&self) -> Seq<char> {
        self.serial_number@
    }

    /// The fixed operation timeout of this session, in milliseconds.
    pub closed spec fn timeout_millis(&self) -> u64 {
        self.timeout_ms
    }

    /// The per-candidate keep/skip decision of the scan: a device is kept
    /// exactly when its descriptor was read and carries the wanted vendor
    /// and product ids, its handle opened, its serial string was read, and
    /// that serial equals the filter when one is given. Returns the serial
    /// to bind to the kept device.
    pub fn keep_candidate(
        ids: Option<(u16, u16)>,
        opened: bool,
        serial: Option<String>,
        want_vid: u16,
        want_pid: u16,
        want_serial: &Option<String>,
    ) -> (r: Option<String>)
        ensures
            r is Some <==> (ids matches Some(p) && p.0 == want_vid && p.1 == want_pid && opened
                && serial is Some && (want_serial matches Some(w) ==> serial->Some_0@ == w@)),
            r is Some ==> r->Some_0@ == serial->Some_0@,
    {
        match ids {
            Some((v, p)) => {
                if v != want_vid || p != want_pid {
                    return None;
                }
            },
            None => {
                return None;
            },
        }
        if !opened {
            return None;
        }
        let sn = match serial {
            Some(sn) => sn,
            None => {
                return None;
            },
        };
        if let Some(w) = want_serial {
            if !sn.eq(w) {
                return None;
            }
        }
        Some(sn)
    }

    /// Scan the USB bus for CW310 devices. The vendor and product filters
    /// default to this board family's known ids; a device whose descriptor,
    /// handle or serial string cannot be read is skipped, not fatal, and
    /// every keep/skip decision goes through [`UsbBackend::keep_candidate`].
    /// Every returned device carries its serial number, which matches the
    /// serial filter when one is given; finding no device is not an error.
    pub fn scan(
        usb_vid: Option<u16>,
        usb_pid: Option<u16>,
        usb_serial: Option<String>,
    ) -> (r: Result<Vec<(UsbDevice, String)>, Error>)
        ensures
            r matches Ok(devs) ==> match usb_serial {
                Some(sn) => forall|i: int|
                    0 <= i < devs@.len() ==> (#[trigger] devs@[i].1)@ == sn@,
                None => true,
            },
            r matches Err(e) ==> e matches Error::Transport(_),
    {
        let want_vid = match usb_vid {
            Some(v) => v,
            None => UsbBackend::VID_NEWAE,
        };
        let want_pid = match usb_pid {
            Some(p) => p,
            None => UsbBackend::PID_CW310,
        };
        let all = match usb::usb_list_devices() {
            Ok(d) => d,
            Err(e) => {
                return Err(Error::Transport(usb::usb_error_text(&e)));
            },
        };
        let mut devices: Vec<(UsbDevice, String)> = Vec::new();
        let mut idx: usize = 0;
        while idx < all.len()
            invariant
                match usb_serial {
                    Some(sn) => forall|i: int|
                        0 <= i < devices@.len() ==> (#[trigger] devices@[i].1)@ == sn@,
                    None => true,
                },
            decreases all@.len() - idx,
        {
            let device = &all[idx];
            idx = idx + 1;
            let descriptor = match usb::usb_device_descriptor(device) {
                Ok(d) => Some(d),
                Err(_) => None,
            };
            let ids: Option<(u16, u16)> = match &descriptor {
                Some(d) => Some((usb::usb_vendor_id(d), usb::usb_product_id(d))),
                None => None,
            };
            // A device whose ids do not match is never opened.
            let ids_match: bool = match ids {
                Some((v, p)) => v == want_vid && p == want_pid,
                None => false,
            };
            let mut opened = false;
            let mut serial: Option<String> = None;
            if ids_match {
                match usb::usb_open(device) {
                    Ok(handle) => {
                        opened = true;
                        if let Some(d) = &descriptor {
                            match usb::usb_read_serial(&handle, d) {
                                Ok(sn) => {
                                    serial = Some(sn);
                                },
                                Err(_) => {},
                            }
                        }
                    },
                    Err(_) => {},
                }
            }
            match UsbBackend::keep_candidate(ids, opened, serial, want_vid, want_pid, &usb_serial) {
                Some(sn) => {
                    devices.push((usb::usb_clone_device(device), sn));
                },
                None => {},
            }
        }
        Ok(devices)
    }

    /// The selection step of opening a session: the first device the scan
    /// returned, and `NotFound` exactly when the scan returned none.
    pub fn first_match(devices: Vec<(UsbDevice, String)>) -> (r: Result<(UsbDevice, String), Error>)
        ensures
            devices@.len() == 0 ==> (r matches Err(e) && e matches Error::NotFound(s) && s@
                == "CW310"@),
            devices@.len() > 0 ==> (r matches Ok(p) && p.1@ == devices@[0].1@),
    {
        let mut devices = devices;
        if devices.len() == 0 {
            return Err(Error::NotFound(String::from_str("CW310")));
        }
        Ok(devices.remove(0))
    }

    /// Create a new UsbBackend around the first device that the scan
    /// returns; fail with `NotFound` exactly when the scan returns none.
    pub fn new(
        usb_vid: Option<u16>,
        usb_pid: Option<u16>,
        usb_serial: Option<String>,
    ) -> (r: Result<UsbBackend, Error>)
        ensures
            r matches Err(e) ==> (e matches Error::NotFound(_) || e matches Error::Transport(_)),
            r matches Ok(b) ==> b.timeout_millis() == DEFAULT_TIMEOUT_MS,
            r matches Ok(b) ==> (usb_serial matches Some(sn) ==> b.serial() == sn@),
    {
        let devices = match UsbBackend::scan(usb_vid, usb_pid, usb_serial) {
            Ok(d) => d,
            Err(e) => {
                return Err(e);
            },
        };
        let (device, serial_number) = match UsbBackend::first_match(devices) {
            Ok(p) => p,
            Err(e) => {
                return Err(e);
            },
        };
        let handle = match usb::usb_open(&device) {
            Ok(h) => h,
            Err(e) => {
                return Err(Error::Transport(usb::usb_error_text(&e)));
            },
        };
        Ok(UsbBackend { handle, serial_number, timeout_ms: DEFAULT_TIMEOUT_MS })
    }

    /// Gets the usb serial number of the device.
    pub fn get_serial_number(&self) -> (r: &str)
        ensures
            r@ == self.serial(),
    {
        self.serial_number.as_str()
    }

    /// Send a control write transaction to the CW310 board: request-type
    /// 0x41, the opcode as request byte, the request code as value, index 0.
    /// Returns how many bytes were written, never more than `data` holds.
    pub fn send_ctrl(&self, cmd: u8, value: u16, data: &[u8]) -> (r: Result<usize, Error>)
        ensures
            r matches Ok(n) ==> n <= data@.len(),
            r matches Err(e) ==> e matches Error::Transport(_),
    {
        match usb::usb_write_control(
            &self.handle,
            REQUEST_TYPE_WRITE,
            cmd,
            value,
            0,
            data,
            self.timeout_ms,
        ) {
            Ok(n) => Ok(n),
            Err(e) => Err(Error::Transport(usb::usb_error_text(&e))),
        }
    }

    /// Send a control read transaction to the CW310 board: request-type
    /// 0xC1, same shape as the writes. Fills `data` up to its length, which
    /// never changes, and returns the actual count, which may be shorter.
    /// On a transport error the buffer may hold a partial data stage.
    pub fn read_ctrl(&self, cmd: u8, value: u16, data: &mut Vec<u8>) -> (r: Result<usize, Error>)
        ensures
            final(data)@.len() == old(data)@.len(),
            r matches Ok(n) ==> n <= final(data)@.len(),
            r matches Err(e) ==> e matches Error::Transport(_),
    {
        match usb::usb_read_control(
            &self.handle,
            REQUEST_TYPE_READ,
            cmd,
            value,
            0,
            data,
            self.timeout_ms,
        ) {
            Ok(n) => Ok(n),
            Err(e) => Err(Error::Transport(usb::usb_error_text(&e))),
        }
    }
}

} // verus!

verus! {

/// The `Backend` struct provides high-level access to the CW310 board:
/// each logical operation is encoded as one or more control transfers
/// through the session primitives of [`UsbBackend`].
pub struct Backend {
    usb: UsbBackend,
}

impl Backend {
    /// Commands for the CW310 board.
    pub const CMD_FW_VERSION: u8 = 0x17;

    pub const CMD_CDC_SETTINGS_EN: u8 = 0x31;

    pub const CMD_READMEM_BULK: u8 = 0x10;

    pub const CMD_WRITEMEM_BULK: u8 = 0x11;

    pub const CMD_READMEM_CTRL: u8 = 0x12;

    pub const CMD_WRITEMEM_CTRL: u8 = 0x13;

    pub const CMD_MEMSTREAM: u8 = 0x14;

    pub const CMD_WRITEMEM_CTRL_SAM3U: u8 = 0x15;

    pub const CMD_SMC_READ_SPEED: u8 = 0x27;

    pub const CMD_FW_BUILD_DATE: u8 = 0x40;

    /// `CMD_FPGAIO_UTIL` is used to configure gpio pins on the SAM3U chip
    /// which are connected to the FPGA.
    pub const CMD_FPGAIO_UTIL: u8 = 0x34;

    /// Requests to the `FPGAIO_UTIL` command.
    pub const REQ_IO_CONFIG: u16 = 0xA0;

    pub const REQ_IO_RELEASE: u16 = 0xA1;

    pub const REQ_IO_OUTPUT: u16 = 0xA2;

    /// Configuration requests are used in the data packet sent with
    /// `REQ_IO_CONFIG`.
    pub const CONFIG_PIN_INPUT: u8 = 0x01;

    pub const CONFIG_PIN_OUTPUT: u8 = 0x02;

    pub const CONFIG_PIN_SPI1_SDO: u8 = 0x10;

    pub const CONFIG_PIN_SPI1_SDI: u8 = 0x11;

    pub const CONFIG_PIN_SPI1_SCK: u8 = 0x12;

    pub const CONFIG_PIN_SPI1_CS: u8 = 0x13;

    /// `CMD_FPGASPI1_XFER` is used to configure and drive SPI transactions
    /// between the SAM3U chip and the FPGA.
    pub const CMD_FPGASPI1_XFER: u8 = 0x35;

    pub const REQ_ENABLE_SPI: u16 = 0xA0;

    pub const REQ_DISABLE_SPI: u16 = 0xA1;

    pub const REQ_CS_LOW: u16 = 0xA2;

    pub const REQ_CS_HIGH: u16 = 0xA3;

    pub const REQ_SEND_DATA: u16 = 0xA4;

    /// The serial number bound to this session.
    pub closed spec fn serial(&self) -> Seq<char> {
        self.usb.serial()
    }

    /// Create a new connection to a CW310 board.
    pub fn new(
        usb_vid: Option<u16>,
        usb_pid: Option<u16>,
        usb_serial: Option<String>,
    ) -> (r: Result<Backend, Error>)
        ensures
            r matches Err(e) ==> (e matches Error::NotFound(_) || e matches Error::Transport(_)),
            r matches Ok(b) ==> (usb_serial matches Some(sn) ==> b.serial() == sn@),
    {
        match UsbBackend::new(usb_vid, usb_pid, usb_serial) {
            Ok(usb) => Ok(Backend { usb }),
            Err(e) => Err(e),
        }
    }

    /// Gets the usb serial number of the device.
    pub fn get_serial_number(&self) -> (r: &str)
        ensures
            r@ == self.serial(),
    {
        self.usb.get_serial_number()
    }

    /// Get the firmware build date as a string: up to 100 bytes read via the
    /// build-date opcode, decoded as UTF-8 with replacement.
    pub fn get_firmware_build_date(&self) -> (r: Result<String, Error>)
        ensures
            r matches Err(e) ==> e matches Error::Transport(_),
    {
        let mut buf = zero_vec(100);
        let len = match self.usb.read_ctrl(Backend::CMD_FW_BUILD_DATE, 0, &mut buf) {
            Ok(n) => n,
            Err(e) => {
                return Err(e);
            },
        };
        buf.truncate(len);
        Ok(utf8_lossy(buf.as_slice()))
    }

    /// Get the firmware version: the raw 3-byte tuple read via the version
    /// opcode.
    pub fn get_firmware_version(&self) -> (r: Result<[u8; 3], Error>)
        ensures
            r matches Err(e) ==> e matches Error::Transport(_),
    {
        let mut buf = zero_vec(3);
        match self.usb.read_ctrl(Backend::CMD_FW_VERSION, 0, &mut buf) {
            Ok(_) => Ok([buf[0], buf[1], buf[2]]),
            Err(e) => Err(e),
        }
    }

    /// Set GPIO `pinname` to either output or input mode: a two-byte
    /// configure request of pin number and mode flag. A pin identifier that
    /// does not resolve is rejected, with its exact resolution error, before
    /// any transfer is attempted.
    pub fn pin_set_output(&self, pinname: &str, output: bool) -> (r: Result<(), Error>)
        ensures
            resolve_spec(pinname@) is Pin ==> (r is Ok || r->Err_0 matches Error::Transport(_)),
            !(resolve_spec(pinname@) is Pin) ==> (r matches Err(e) && resolve_failed_as(
                e,
                pinname@,
            )),
    {
        let pinnum = match Backend::pin_name_to_number(pinname) {
            Ok(n) => n,
            Err(e) => {
                return Err(e);
            },
        };
        let flag: u8 = if output {
            Backend::CONFIG_PIN_OUTPUT
        } else {
            Backend::CONFIG_PIN_INPUT
        };
        let payload: [u8; 2] = [pinnum, flag];
        match self.usb.send_ctrl(
            Backend::CMD_FPGAIO_UTIL,
            Backend::REQ_IO_CONFIG,
            payload.as_slice(),
        ) {
            Ok(_) => Ok(()),
            Err(e) => Err(e),
        }
    }

    /// Get the state of GPIO `pinname`: one byte read via the GPIO-utility
    /// opcode with the pin number as request code. A pin identifier that
    /// does not resolve is rejected, with its exact resolution error, before
    /// any transfer is attempted.
    pub fn pin_get_state(&self, pinname: &str) -> (r: Result<u8, Error>)
        ensures
            resolve_spec(pinname@) is Pin ==> (r is Ok || r->Err_0 matches Error::Transport(_)),
            !(resolve_spec(pinname@) is Pin) ==> (r matches Err(e) && resolve_failed_as(
                e,
                pinname@,
            )),
    {
        let pinnum = match Backend::pin_name_to_number(pinname) {
            Ok(n) => n,
            Err(e) => {
                return Err(e);
            },
        };
        let mut buf = zero_vec(1);
        match self.usb.read_ctrl(Backend::CMD_FPGAIO_UTIL, pinnum as u16, &mut buf) {
            Ok(_) => Ok(buf[0]),
            Err(e) => Err(e),
        }
    }

    /// Set the state of GPIO `pinname`: a two-byte output request of pin
    /// number and value. A pin identifier that does not resolve is rejected,
    /// with its exact resolution error, before any transfer is attempted.
    pub fn pin_set_state(&self, pinname: &str, value: bool) -> (r: Result<(), Error>)
        ensures
            resolve_spec(pinname@) is Pin ==> (r is Ok || r->Err_0 matches Error::Transport(_)),
            !(resolve_spec(pinname@) is Pin) ==> (r matches Err(e) && resolve_failed_as(
                e,
                pinname@,
            )),
    {
        let pinnum = match Backend::pin_name_to_number(pinname) {
            Ok(n) => n,
            Err(e) => {
                return Err(e);
            },
        };
        let payload: [u8; 2] = [pinnum, if value { 1 } else { 0 }];
        match self.usb.send_ctrl(
            Backend::CMD_FPGAIO_UTIL,
            Backend::REQ_IO_OUTPUT,
            payload.as_slice(),
        ) {
            Ok(_) => Ok(()),
            Err(e) => Err(e),
        }
    }

    /// Configure the SAM3U to perform SPI using the named pins: data-out,
    /// data-in, clock and chip-select are resolved and configured in that
    /// fixed order, each with its SPI-role flag. The first pin identifier
    /// that does not resolve is rejected, with its exact resolution error,
    /// before any transfer is attempted.
    pub fn spi1_setpins(&self, sdo: &str, sdi: &str, sck: &str, cs: &str) -> (r: Result<(), Error>)
        ensures
            !(resolve_spec(sdo@) is Pin) ==> (r matches Err(e) && resolve_failed_as(e, sdo@)),
            resolve_spec(sdo@) is Pin && !(resolve_spec(sdi@) is Pin) ==> (r matches Err(e)
                && resolve_failed_as(e, sdi@)),
            resolve_spec(sdo@) is Pin && resolve_spec(sdi@) is Pin && !(resolve_spec(
                sck@,
            ) is Pin) ==> (r matches Err(e) && resolve_failed_as(e, sck@)),
            resolve_spec(sdo@) is Pin && resolve_spec(sdi@) is Pin && resolve_spec(sck@) is Pin
                && !(resolve_spec(cs@) is Pin) ==> (r matches Err(e) && resolve_failed_as(e, cs@)),
            resolve_spec(sdo@) is Pin && resolve_spec(sdi@) is Pin && resolve_spec(sck@) is Pin
                && resolve_spec(cs@) is Pin ==> (r is Ok || r->Err_0 matches Error::Transport(_)),
    {
        let sdo_pin = match Backend::pin_name_to_number(sdo) {
            Ok(n) => n,
            Err(e) => {
                return Err(e);
            },
        };
        let sdi_pin = match Backend::pin_name_to_number(sdi) {
            Ok(n) => n,
            Err(e) => {
                return Err(e);
            },
        };
        let sck_pin = match Backend::pin_name_to_number(sck) {
            Ok(n) => n,
            Err(e) => {
                return Err(e);
            },
        };
        let cs_pin = match Backend::pin_name_to_number(cs) {
            Ok(n) => n,
            Err(e) => {
                return Err(e);
            },
        };
        let pairs: [(u8, u8); 4] = [
            (sdo_pin, Backend::CONFIG_PIN_SPI1_SDO),
            (sdi_pin, Backend::CONFIG_PIN_SPI1_SDI),
            (sck_pin, Backend::CONFIG_PIN_SPI1_SCK),
            (cs_pin, Backend::CONFIG_PIN_SPI1_CS),
        ];
        let mut k: usize = 0;
        while k < 4
            invariant
                resolve_spec(sdo@) is Pin,
                resolve_spec(sdi@) is Pin,
                resolve_spec(sck@) is Pin,
                resolve_spec(cs@) is Pin,
            decreases 4 - k,
        {
            let payload: [u8; 2] = [pairs[k].0, pairs[k].1];
            match self.usb.send_ctrl(
                Backend::CMD_FPGAIO_UTIL,
                Backend::REQ_IO_CONFIG,
                payload.as_slice(),
            ) {
                Ok(_) => {},
                Err(e) => {
                    return Err(e);
                },
            }
            k = k + 1;
        }
        Ok(())
    }

    /// Enable or disable the spi interface on the SAM3U chip: a zero-payload
    /// send selecting the enable or the disable request code.
    pub fn spi1_enable(&self, enable: bool) -> (r: Result<(), Error>)
        ensures
            r matches Err(e) ==> e matches Error::Transport(_),
    {
        let req: u16 = if enable {
            Backend::REQ_ENABLE_SPI
        } else {
            Backend::REQ_DISABLE_SPI
        };
        let payload: [u8; 0] = [];
        match self.usb.send_ctrl(Backend::CMD_FPGASPI1_XFER, req, payload.as_slice()) {
            Ok(_) => Ok(()),
            Err(e) => Err(e),
        }
    }

    /// Set the value of the SPI chip-select pin: a zero-payload send
    /// selecting the CS-high or the CS-low request code.
    pub fn spi1_set_cs_pin(&self, status: bool) -> (r: Result<(), Error>)
        ensures
            r matches Err(e) ==> e matches Error::Transport(_),
    {
        let req: u16 = if status {
            Backend::REQ_CS_HIGH
        } else {
            Backend::REQ_CS_LOW
        };
        let payload: [u8; 0] = [];
        match self.usb.send_ctrl(Backend::CMD_FPGASPI1_XFER, req, payload.as_slice()) {
            Ok(_) => Ok(()),
            Err(e) => Err(e),
        }
    }

    /// Validates the buffer lengths of a raw SPI exchange: either buffer over
    /// 64 bytes is an invalid data length (tx reported first), and unequal
    /// lengths are a mismatch; all raw exchanges check this before any
    /// transfer is attempted.
    pub fn check_xfer_lens(txlen: usize, rxlen: usize) -> (r: Result<(), Error>)
        ensures
            txlen > MAX_XFER_BYTES ==> r == Err::<(), Error>(Error::InvalidDataLength(txlen)),
            txlen <= MAX_XFER_BYTES && rxlen > MAX_XFER_BYTES ==> r == Err::<(), Error>(
                Error::InvalidDataLength(rxlen),
            ),
            txlen <= MAX_XFER_BYTES && rxlen <= MAX_XFER_BYTES && txlen != rxlen ==> r == Err::<
                (),
                Error,
            >(Error::MismatchedDataLength(txlen, rxlen)),
            txlen <= MAX_XFER_BYTES && rxlen == txlen ==> r == Ok::<(), Error>(()),
    {
        if txlen > MAX_XFER_BYTES {
            return Err(Error::InvalidDataLength(txlen));
        }
        if rxlen > MAX_XFER_BYTES {
            return Err(Error::InvalidDataLength(rxlen));
        }
        if txlen != rxlen {
            return Err(Error::MismatchedDataLength(txlen, rxlen));
        }
        Ok(())
    }

    /// Perform an up to 64-byte transfer on the SPI interface: the tx buffer
    /// goes out via the send-data request code, then the same number of
    /// bytes is read back. A buffer over 64 bytes or a length mismatch is
    /// rejected, with the exact error below, before any transfer is
    /// attempted. This is a low-level function and does not affect the CS
    /// pin.
    pub fn spi1_tx_rx(&self, txdata: &[u8], rxdata: &mut Vec<u8>) -> (r: Result<(), Error>)
        ensures
            final(rxdata)@.len() == old(rxdata)@.len(),
            txdata@.len() > MAX_XFER_BYTES ==> r == Err::<(), Error>(
                Error::InvalidDataLength(txdata@.len() as usize),
            ) && final(rxdata)@ == old(rxdata)@,
            txdata@.len() <= MAX_XFER_BYTES && old(rxdata)@.len() > MAX_XFER_BYTES ==> r == Err::<
                (),
                Error,
            >(Error::InvalidDataLength(old(rxdata)@.len() as usize)) && final(rxdata)@ == old(
                rxdata,
            )@,
            txdata@.len() <= MAX_XFER_BYTES && old(rxdata)@.len() <= MAX_XFER_BYTES && txdata@.len()
                != old(rxdata)@.len() ==> r == Err::<(), Error>(
                Error::MismatchedDataLength(txdata@.len() as usize, old(rxdata)@.len() as usize),
            ) && final(rxdata)@ == old(rxdata)@,
            txdata@.len() <= MAX_XFER_BYTES && old(rxdata)@.len() == txdata@.len() ==> (r is Ok
                || r->Err_0 matches Error::Transport(_)),
    {
        match Backend::check_xfer_lens(txdata.len(), rxdata.len()) {
            Ok(_) => {},
            Err(e) => {
                return Err(e);
            },
        }
        match self.usb.send_ctrl(Backend::CMD_FPGASPI1_XFER, Backend::REQ_SEND_DATA, txdata) {
            Ok(_) => {},
            Err(e) => {
                return Err(e);
            },
        }
        match self.usb.read_ctrl(Backend::CMD_FPGASPI1_XFER, 0, rxdata) {
            Ok(_) => Ok(()),
            Err(e) => Err(e),
        }
    }

    /// Read a `buffer` slice from the SPI interface, walking it in ≤64-byte
    /// windows; each window sends an all-zero tx buffer of matching length
    /// and stores what comes back. This is a low-level function and does not
    /// affect the CS pin.
    pub fn spi1_read(&self, buffer: &mut Vec<u8>) -> (r: Result<(), Error>)
        ensures
            final(buffer)@.len() == old(buffer)@.len(),
            r matches Err(e) ==> e matches Error::Transport(_),
    {
        let total = buffer.len();
        let sizes = chunk_sizes(total);
        let ghost plan = sizes@.map_values(|x: usize| x as int);
        let mut off: usize = 0;
        let mut k: usize = 0;
        while k < sizes.len()
            invariant
                plan == sizes@.map_values(|x: usize| x as int),
                total == buffer@.len(),
                buffer@.len() == old(buffer)@.len(),
                k <= plan.len(),
                off <= total,
                plan.skip(k as int) =~= size_plan(total - off),
            decreases plan.len() - k,
        {
            let n = sizes[k];
            proof {
                assert(plan.len() == sizes@.len());
                assert(plan.skip(k as int).len() > 0);
                if total - off <= 0 {
                    assert(size_plan(total - off).len() == 0);
                }
                lemma_size_plan_step(total - off);
                assert(plan[k as int] == n);
                assert(plan.skip(k as int)[0] == plan[k as int]);
                assert(plan.skip(k as int).skip(1) =~= plan.skip(k as int + 1));
            }
            let tx = zero_vec(n);
            let mut rx = zero_vec(n);
            match self.spi1_tx_rx(tx.as_slice(), &mut rx) {
                Ok(_) => {},
                Err(e) => {
                    return Err(e);
                },
            }
            let mut j: usize = 0;
            while j < n
                invariant
                    off + n <= usize::MAX,
                    off + n <= buffer@.len(),
                    j <= n,
                    n == rx@.len(),
                    buffer@.len() == old(buffer)@.len(),
                decreases n - j,
            {
                buffer.set(off + j, rx[j]);
                j = j + 1;
            }
            off = off + n;
            k = k + 1;
        }
        Ok(())
    }

    /// Write a `buffer` slice to the SPI interface, walking it in ≤64-byte
    /// windows; what comes back in each window is discarded. This is a
    /// low-level function and does not affect the CS pin.
    pub fn spi1_write(&self, buffer: &[u8]) -> (r: Result<(), Error>)
        ensures
            r matches Err(e) ==> e matches Error::Transport(_),
    {
        let total = buffer.len();
        let sizes = chunk_sizes(total);
        let ghost plan = sizes@.map_values(|x: usize| x as int);
        let mut off: usize = 0;
        let mut k: usize = 0;
        while k < sizes.len()
            invariant
                plan == sizes@.map_values(|x: usize| x as int),
                total == buffer@.len(),
                k <= plan.len(),
                off <= total,
                plan.skip(k as int) =~= size_plan(total - off),
            decreases plan.len() - k,
        {
            let n = sizes[k];
            proof {
                assert(plan.len() == sizes@.len());
                assert(plan.skip(k as int).len() > 0);
                if total - off <= 0 {
                    assert(size_plan(total - off).len() == 0);
                }
                lemma_size_plan_step(total - off);
                assert(plan[k as int] == n);
                assert(plan.skip(k as int)[0] == plan[k as int]);
                assert(plan.skip(k as int).skip(1) =~= plan.skip(k as int + 1));
            }
            let mut rx = zero_vec(n);
            match self.spi1_tx_rx(&buffer[off..off + n], &mut rx) {
                Ok(_) => {},
                Err(e) => {
                    return Err(e);
                },
            }
            off = off + n;
            k = k + 1;
        }
        Ok(())
    }

    /// Perform a write & read transaction to the SPI interface, walking both
    /// buffers in lockstep ≤64-byte windows. Buffers of unequal length are
    /// rejected, with the exact error below, before any transfer is
    /// attempted. This is a low-level function and does not affect the CS
    /// pin.
    pub fn spi1_both(&self, txbuf: &[u8], rxbuf: &mut Vec<u8>) -> (r: Result<(), Error>)
        ensures
            final(rxbuf)@.len() == old(rxbuf)@.len(),
            txbuf@.len() != old(rxbuf)@.len() ==> r == Err::<(), Error>(
                Error::MismatchedDataLength(txbuf@.len() as usize, old(rxbuf)@.len() as usize),
            ) && final(rxbuf)@ == old(rxbuf)@,
            txbuf@.len() == old(rxbuf)@.len() ==> (r is Ok || r->Err_0 matches Error::Transport(
                _,
            )),
    {
        if txbuf.len() != rxbuf.len() {
            return Err(Error::MismatchedDataLength(txbuf.len(), rxbuf.len()));
        }
        let total = txbuf.len();
        let sizes = chunk_sizes(total);
        let ghost plan = sizes@.map_values(|x: usize| x as int);
        let mut off: usize = 0;
        let mut k: usize = 0;
        while k < sizes.len()
            invariant
                plan == sizes@.map_values(|x: usize| x as int),
                total == txbuf@.len(),
                txbuf@.len() == rxbuf@.len(),
                rxbuf@.len() == old(rxbuf)@.len(),
                k <= plan.len(),
                off <= total,
                plan.skip(k as int) =~= size_plan(total - off),
            decreases plan.len() - k,
        {
            let n = sizes[k];
            proof {
                assert(plan.len() == sizes@.len());
                assert(plan.skip(k as int).len() > 0);
                if total - off <= 0 {
                    assert(size_plan(total - off).len() == 0);
                }
                lemma_size_plan_step(total - off);
                assert(plan[k as int] == n);
                assert(plan.skip(k as int)[0] == plan[k as int]);
                assert(plan.skip(k as int).skip(1) =~= plan.skip(k as int + 1));
            }
            let mut rx = zero_vec(n);
            match self.spi1_tx_rx(&txbuf[off..off + n], &mut rx) {
                Ok(_) => {},
                Err(e) => {
                    return Err(e);
                },
            }
            let mut j: usize = 0;
            while j < n
                invariant
                    off + n <= usize::MAX,
                    off + n <= rxbuf@.len(),
                    j <= n,
                    n == rx@.len(),
                    txbuf@.len() == rxbuf@.len(),
                    rxbuf@.len() == old(rxbuf)@.len(),
                decreases n - j,
            {
                rxbuf.set(off + j, rx[j]);
                j = j + 1;
            }
            off = off + n;
            k = k + 1;
        }
        Ok(())
    }

    /// Given a CW310 pin name, return its pin number, exactly as
    /// [`pins::resolve_spec`] says.
    pub fn pin_name_to_number(pinname: &str) -> (r: Result<u8, Error>)
        ensures
            match resolve_spec(pinname@) {
                Resolution::Pin(n) => r == Ok::<u8, Error>(n),
                Resolution::BadNumber(n) => r == Err::<u8, Error>(Error::InvalidPinNumber(n)),
                Resolution::BadName => {
                    &&& r is Err
                    &&& r->Err_0 matches Error::InvalidPinName(u)
                    &&& (r->Err_0)->InvalidPinName_0@ == upper_seq(pinname@)
                },
            },
    {
        pins::resolve(pinname)
    }
}

/// A vector of `n` zero bytes.
fn zero_vec(n: usize) -> (v: Vec<u8>)
    ensures
        v@.len() == n,
        forall|i: int| 0 <= i < n ==> v@[i] == 0u8,
{
    let mut v: Vec<u8> = Vec::new();
    let mut k: usize = 0;
    while k < n
        invariant
            k <= n,
            v@.len() == k,
            forall|i: int| 0 <= i < k ==> v@[i] == 0u8,
        decreases n - k,
    {
        v.push(0);
        k = k + 1;
    }
    v
}

/// Relies on `String::from_utf8_lossy`: decodes the bytes as UTF-8, with
/// replacement characters for invalid sequences; the result is a function of
/// the bytes alone, named by [`utf8_lossy_of`].
#[verifier::external_body]
fn utf8_lossy(b: &[u8]) -> (r: String)
    ensures
        r@ == utf8_lossy_of(b@),
{
    String::from_utf8_lossy(b).to_string()
}

pub uninterp spec fn utf8_lossy_of(b: Seq<u8>) -> Seq<char>;

} // verus!

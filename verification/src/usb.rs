//! Trusted boundary to the USB transport.
//!
//! The driver reaches the bus only through the narrow interface below:
//! enumerate devices, read a descriptor, open a handle, read a serial
//! string, and synchronous control transfers with a caller-supplied timeout.
//! Everything here wraps one function of the `rusb` crate (or of std, where
//! noted); the logic built on top is verified against these contracts.

use std::time::Duration;
use rusb::Error as UsbError;
use vstd::prelude::*;

verus! {

#[verifier::external_type_specification]
#[verifier::external_body]
pub struct ExDeviceDescriptor(rusb::DeviceDescriptor);

#[verifier::external_type_specification]
#[verifier::external_body]
pub struct ExUsbError(UsbError);

/// An enumerated USB device, carried opaquely through the driver.
/// `rusb::Device` is generic over a context trait that cannot be declared
/// here, so the value is held in a hidden field instead.
#[verifier::external_body]
pub struct UsbDevice {
    dev: rusb::Device<rusb::GlobalContext>,
}

/// An open USB device handle, carried opaquely through the driver.
#[verifier::external_body]
pub struct UsbHandle {
    handle: rusb::DeviceHandle<rusb::GlobalContext>,
}

/// Relies on `rusb::devices` and `rusb::DeviceList::iter`: the devices
/// currently on the bus, in enumeration order. What the bus holds is machine
/// state, so nothing is promised of the list. `rusb` aborts the process when
/// `libusb` itself cannot initialize; that is the transport's own behavior
/// and lies outside these contracts.
#[verifier::external_body]
pub(crate) fn usb_list_devices() -> (r: Result<Vec<UsbDevice>, UsbError>)
{
    match rusb::devices() {
        Ok(list) => Ok(list.iter().map(|dev| UsbDevice { dev }).collect()),
        Err(e) => Err(e),
    }
}

/// Relies on `rusb::Device::device_descriptor`: reads the device descriptor,
/// failing on devices that cannot be queried.
#[verifier::external_body]
pub(crate) fn usb_device_descriptor(d: &UsbDevice) -> (r: Result<rusb::DeviceDescriptor, UsbError>)
{
    d.dev.device_descriptor()
}

/// Relies on `rusb::DeviceDescriptor::vendor_id`: the 16-bit vendor id of
/// the descriptor.
#[verifier::external_body]
pub(crate) fn usb_vendor_id(d: &rusb::DeviceDescriptor) -> u16 {
    d.vendor_id()
}

/// Relies on `rusb::DeviceDescriptor::product_id`: the 16-bit product id of
/// the descriptor.
#[verifier::external_body]
pub(crate) fn usb_product_id(d: &rusb::DeviceDescriptor) -> u16 {
    d.product_id()
}

/// Relies on `rusb::Device::open`: opens the device, failing on devices that
/// cannot be opened.
#[verifier::external_body]
pub(crate) fn usb_open(d: &UsbDevice) -> (r: Result<UsbHandle, UsbError>)
{
    match d.dev.open() {
        Ok(handle) => Ok(UsbHandle { handle }),
        Err(e) => Err(e),
    }
}

/// Relies on `rusb::Device::clone`: another reference to the same device.
#[verifier::external_body]
pub(crate) fn usb_clone_device(d: &UsbDevice) -> UsbDevice {
    UsbDevice { dev: d.dev.clone() }
}

/// Relies on `rusb::DeviceHandle::read_serial_number_string_ascii`: the
/// device's serial number string, read over the bus.
#[verifier::external_body]
pub(crate) fn usb_read_serial(h: &UsbHandle, d: &rusb::DeviceDescriptor) -> (r: Result<
    String,
    UsbError,
>)
{
    h.handle.read_serial_number_string_ascii(d)
}

/// Relies on `rusb::DeviceHandle::write_control`: writes `data` to the
/// device in one control transfer and returns how many bytes were
/// transferred, which is never more than the buffer holds.
#[verifier::external_body]
pub(crate) fn usb_write_control(
    h: &UsbHandle,
    request_type: u8,
    request: u8,
    value: u16,
    index: u16,
    data: &[u8],
    timeout_ms: u64,
) -> (r: Result<usize, UsbError>)
    ensures
        r matches Ok(n) ==> n <= data@.len(),
{
    h.handle.write_control(
        request_type,
        request,
        value,
        index,
        data,
        Duration::from_millis(timeout_ms),
    )
}

/// Relies on `rusb::DeviceHandle::read_control`: fills `data` from the
/// device in one control transfer and returns how many bytes were read,
/// which is never more than the buffer holds. On failure the buffer keeps
/// its length but may hold a partial data stage: libusb copies what arrived
/// before it reports a timeout or a stall.
#[verifier::external_body]
pub(crate) fn usb_read_control(
    h: &UsbHandle,
    request_type: u8,
    request: u8,
    value: u16,
    index: u16,
    data: &mut Vec<u8>,
    timeout_ms: u64,
) -> (r: Result<usize, UsbError>)
    ensures
        final(data)@.len() == old(data)@.len(),
        r matches Ok(n) ==> n <= final(data)@.len(),
{
    h.handle.read_control(
        request_type,
        request,
        value,
        index,
        data.as_mut_slice(),
        Duration::from_millis(timeout_ms),
    )
}

/// Relies on `rusb::Error`'s `Display` impl: a short description of the
/// transport error.
#[verifier::external_body]
pub(crate) fn usb_error_text(e: &UsbError) -> String {
    format!("{}", e)
}

} // verus!

//! A USB Mass Storage Bulk-Only Transport driver: the command and status
//! wrappers, the SCSI command blocks it sends, the driver that runs the
//! three-phase transactions over a bulk transport and exposes the medium as a
//! seekable byte stream, and a stream that restricts access to one window of
//! the medium. Around it: picking the storage interface out of a device's
//! descriptors, the allow and deny lists a host applies to devices, what is
//! known of a device's identity and configurations, and the input and
//! rumble reports of a Stadia controller.
pub mod wire;
pub mod scsi;
pub mod driver;
pub mod window;
pub mod device;
pub mod stadia;
pub mod discovery;
pub mod access;

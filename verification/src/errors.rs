//! The kinds of failure that the miner tells apart, and how far each reaches.

use vstd::prelude::*;
use vstd::string::*;

verus! {

/// What went wrong, as far as the caller has to tell it apart.
#[derive(Clone, Copy, Debug, PartialEq, Eq)]
pub enum ErrorKind {
    /// An address or a hash is malformed, or a required argument is missing.
    ConfigInvalid,
    /// There is no platform, no GPU, or no device of the given index.
    NoDevices,
    /// The device could not be set up.
    DeviceOpenFailed,
    /// A dispatch failed on the device.
    DispatchFailed,
    /// The host's verification disagreed with what the device reported.
    MismatchRejected,
    /// The result sink could not be read or written.
    SinkIOError,
}

/// What a failure puts an end to.
#[derive(Clone, Copy, Debug, PartialEq, Eq)]
pub enum Reach {
    /// The whole run: the process exits at startup.
    Run,
    /// The session of one device; the others go on.
    Session,
    /// One find or one reading of the sink; the session goes on.
    Step,
}

impl ErrorKind {
    /// What a failure of this kind puts an end to.
    pub open spec fn reach_of(&self) -> Reach {
        match self {
            ErrorKind::ConfigInvalid => Reach::Run,
            ErrorKind::NoDevices => Reach::Run,
            ErrorKind::DeviceOpenFailed => Reach::Session,
            ErrorKind::DispatchFailed => Reach::Session,
            ErrorKind::MismatchRejected => Reach::Step,
            ErrorKind::SinkIOError => Reach::Step,
        }
    }

    /// Tells what a failure of this kind puts an end to.
    pub fn reach(&self) -> (reach: Reach)
        ensures
            reach == self.reach_of(),
    {
        match self {
            ErrorKind::ConfigInvalid => Reach::Run,
            ErrorKind::NoDevices => Reach::Run,
            ErrorKind::DeviceOpenFailed => Reach::Session,
            ErrorKind::DispatchFailed => Reach::Session,
            ErrorKind::MismatchRejected => Reach::Step,
            ErrorKind::SinkIOError => Reach::Step,
        }
    }

    /// The description of each kind.
    pub open spec fn description(&self) -> Seq<char> {
        match self {
            ErrorKind::ConfigInvalid => "invalid configuration"@,
            ErrorKind::NoDevices => "no usable OpenCL device"@,
            ErrorKind::DeviceOpenFailed => "the device could not be opened"@,
            ErrorKind::DispatchFailed => "a dispatch failed"@,
            ErrorKind::MismatchRejected => "the reported salt did not verify"@,
            ErrorKind::SinkIOError => "the result file could not be read or written"@,
        }
    }

    /// A short description of the kind, for the user.
    pub fn describe(&self) -> (text: &'static str)
        ensures
            text@ == self.description(),
    {
        match self {
            ErrorKind::ConfigInvalid => "invalid configuration",
            ErrorKind::NoDevices => "no usable OpenCL device",
            ErrorKind::DeviceOpenFailed => "the device could not be opened",
            ErrorKind::DispatchFailed => "a dispatch failed",
            ErrorKind::MismatchRejected => "the reported salt did not verify",
            ErrorKind::SinkIOError => "the result file could not be read or written",
        }
    }
}

} // verus!

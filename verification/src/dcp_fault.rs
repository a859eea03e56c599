//! What can go wrong in the parts that the drivers of the internal and of the external display
//! coprocessor share.

use vstd::prelude::*;

verus! {

/// The driver that reports.
#[derive(Clone, Copy, Debug, PartialEq, Eq, Structural)]
pub enum DcpDriver {
    Internal,
    External,
}

#[derive(Clone, Copy, Debug, PartialEq, Eq, Structural)]
pub enum DcpFault {
    CommandTooLarge,
    ShortReply,
    InvalidReplyLength,
    ShortStatus,
    MissingTimingCount,
    TruncatedTimings,
    MissingColorCount,
    TruncatedColors,
    InvalidRegisters,
    ScratchPhandle,
    ScratchReg,
    ScratchIndex,
    ScratchOffset,
    ScratchUnexpected,
    ScratchMissing,
    DoorbellPhandle,
    DoorbellReg,
    DoorbellIndex,
    DoorbellUnexpected,
    DoorbellMissing,
    NoFdt,
    NoReservedMemory,
}

/// What a fault is reported as.
pub open spec fn spec_fault_text(driver: DcpDriver, fault: DcpFault) -> &'static str {
    match driver {
        DcpDriver::Internal => match fault {
            DcpFault::CommandTooLarge => "apple-dcp: iBoot command too large",
            DcpFault::ShortReply => "apple-dcp: short iBoot reply",
            DcpFault::InvalidReplyLength => "apple-dcp: invalid iBoot reply length",
            DcpFault::ShortStatus => "apple-dcp: short display status reply",
            DcpFault::MissingTimingCount => "apple-dcp: missing timing count",
            DcpFault::TruncatedTimings => "apple-dcp: truncated timing modes",
            DcpFault::MissingColorCount => "apple-dcp: missing color count",
            DcpFault::TruncatedColors => "apple-dcp: truncated color modes",
            DcpFault::InvalidRegisters => "apple-dcp: invalid display register resource",
            DcpFault::ScratchPhandle => "apple-dcp: invalid bw-scratch phandle",
            DcpFault::ScratchReg => "apple-dcp: invalid bw-scratch reg",
            DcpFault::ScratchIndex => "apple-dcp: invalid bw-scratch index",
            DcpFault::ScratchOffset => "apple-dcp: invalid bw-scratch offset",
            DcpFault::ScratchUnexpected => "apple-dcp: unexpected bw-scratch display index",
            DcpFault::ScratchMissing => "apple-dcp: bw-scratch resource not found",
            DcpFault::DoorbellPhandle => "apple-dcp: invalid bw-doorbell phandle",
            DcpFault::DoorbellReg => "apple-dcp: invalid bw-doorbell reg",
            DcpFault::DoorbellIndex => "apple-dcp: invalid bw-doorbell index",
            DcpFault::DoorbellUnexpected => "apple-dcp: unexpected bw-doorbell display index",
            DcpFault::DoorbellMissing => "apple-dcp: bw-doorbell resource not found",
            DcpFault::NoFdt => "apple-dcp: FDT unavailable",
            DcpFault::NoReservedMemory => "apple-dcp: reserved-memory missing",
        },
        DcpDriver::External => match fault {
            DcpFault::CommandTooLarge => "apple-dcpext: iBoot command too large",
            DcpFault::ShortReply => "apple-dcpext: short iBoot reply",
            DcpFault::InvalidReplyLength => "apple-dcpext: invalid iBoot reply length",
            DcpFault::ShortStatus => "apple-dcpext: short display status reply",
            DcpFault::MissingTimingCount => "apple-dcpext: missing timing count",
            DcpFault::TruncatedTimings => "apple-dcpext: truncated timing modes",
            DcpFault::MissingColorCount => "apple-dcpext: missing color count",
            DcpFault::TruncatedColors => "apple-dcpext: truncated color modes",
            DcpFault::InvalidRegisters => "apple-dcpext: invalid display register resource",
            DcpFault::ScratchPhandle => "apple-dcpext: invalid bw-scratch phandle",
            DcpFault::ScratchReg => "apple-dcpext: invalid bw-scratch reg",
            DcpFault::ScratchIndex => "apple-dcpext: invalid bw-scratch index",
            DcpFault::ScratchOffset => "apple-dcpext: invalid bw-scratch offset",
            DcpFault::ScratchUnexpected => "apple-dcpext: unexpected bw-scratch display index",
            DcpFault::ScratchMissing => "apple-dcpext: bw-scratch resource not found",
            DcpFault::DoorbellPhandle => "apple-dcpext: invalid bw-doorbell phandle",
            DcpFault::DoorbellReg => "apple-dcpext: invalid bw-doorbell reg",
            DcpFault::DoorbellIndex => "apple-dcpext: invalid bw-doorbell index",
            DcpFault::DoorbellUnexpected => "apple-dcpext: unexpected bw-doorbell display index",
            DcpFault::DoorbellMissing => "apple-dcpext: bw-doorbell resource not found",
            DcpFault::NoFdt => "apple-dcpext: FDT unavailable",
            DcpFault::NoReservedMemory => "apple-dcpext: reserved-memory missing",
        },
    }
}

/// What a fault is reported as.
#[verifier::when_used_as_spec(spec_fault_text)]
pub fn fault_text(driver: DcpDriver, fault: DcpFault) -> (r: &'static str)
    ensures
        r == spec_fault_text(driver, fault),
{
    match driver {
        DcpDriver::Internal => match fault {
            DcpFault::CommandTooLarge => "apple-dcp: iBoot command too large",
            DcpFault::ShortReply => "apple-dcp: short iBoot reply",
            DcpFault::InvalidReplyLength => "apple-dcp: invalid iBoot reply length",
            DcpFault::ShortStatus => "apple-dcp: short display status reply",
            DcpFault::MissingTimingCount => "apple-dcp: missing timing count",
            DcpFault::TruncatedTimings => "apple-dcp: truncated timing modes",
            DcpFault::MissingColorCount => "apple-dcp: missing color count",
            DcpFault::TruncatedColors => "apple-dcp: truncated color modes",
            DcpFault::InvalidRegisters => "apple-dcp: invalid display register resource",
            DcpFault::ScratchPhandle => "apple-dcp: invalid bw-scratch phandle",
            DcpFault::ScratchReg => "apple-dcp: invalid bw-scratch reg",
            DcpFault::ScratchIndex => "apple-dcp: invalid bw-scratch index",
            DcpFault::ScratchOffset => "apple-dcp: invalid bw-scratch offset",
            DcpFault::ScratchUnexpected => "apple-dcp: unexpected bw-scratch display index",
            DcpFault::ScratchMissing => "apple-dcp: bw-scratch resource not found",
            DcpFault::DoorbellPhandle => "apple-dcp: invalid bw-doorbell phandle",
            DcpFault::DoorbellReg => "apple-dcp: invalid bw-doorbell reg",
            DcpFault::DoorbellIndex => "apple-dcp: invalid bw-doorbell index",
            DcpFault::DoorbellUnexpected => "apple-dcp: unexpected bw-doorbell display index",
            DcpFault::DoorbellMissing => "apple-dcp: bw-doorbell resource not found",
            DcpFault::NoFdt => "apple-dcp: FDT unavailable",
            DcpFault::NoReservedMemory => "apple-dcp: reserved-memory missing",
        },
        DcpDriver::External => match fault {
            DcpFault::CommandTooLarge => "apple-dcpext: iBoot command too large",
            DcpFault::ShortReply => "apple-dcpext: short iBoot reply",
            DcpFault::InvalidReplyLength => "apple-dcpext: invalid iBoot reply length",
            DcpFault::ShortStatus => "apple-dcpext: short display status reply",
            DcpFault::MissingTimingCount => "apple-dcpext: missing timing count",
            DcpFault::TruncatedTimings => "apple-dcpext: truncated timing modes",
            DcpFault::MissingColorCount => "apple-dcpext: missing color count",
            DcpFault::TruncatedColors => "apple-dcpext: truncated color modes",
            DcpFault::InvalidRegisters => "apple-dcpext: invalid display register resource",
            DcpFault::ScratchPhandle => "apple-dcpext: invalid bw-scratch phandle",
            DcpFault::ScratchReg => "apple-dcpext: invalid bw-scratch reg",
            DcpFault::ScratchIndex => "apple-dcpext: invalid bw-scratch index",
            DcpFault::ScratchOffset => "apple-dcpext: invalid bw-scratch offset",
            DcpFault::ScratchUnexpected => "apple-dcpext: unexpected bw-scratch display index",
            DcpFault::ScratchMissing => "apple-dcpext: bw-scratch resource not found",
            DcpFault::DoorbellPhandle => "apple-dcpext: invalid bw-doorbell phandle",
            DcpFault::DoorbellReg => "apple-dcpext: invalid bw-doorbell reg",
            DcpFault::DoorbellIndex => "apple-dcpext: invalid bw-doorbell index",
            DcpFault::DoorbellUnexpected => "apple-dcpext: unexpected bw-doorbell display index",
            DcpFault::DoorbellMissing => "apple-dcpext: bw-doorbell resource not found",
            DcpFault::NoFdt => "apple-dcpext: FDT unavailable",
            DcpFault::NoReservedMemory => "apple-dcpext: reserved-memory missing",
        },
    }
}

} // verus!

//! Status codes reported through the `LastStatus` property, and the reasons
//! for a reset that the same property reports after the device starts.
use vstd::prelude::*;

verus! {

/// Status codes for Spinel commands: the result of the last command that the
/// device executed.
#[derive(Clone, Copy, Debug, PartialEq, Eq, Structural)]
pub enum Status {
    /// The operation has completed successfully.
    Success,

    /// The operation has failed generically.
    Failure,

    /// The operation has not been implemented.
    Unimplemented,

    /// An argument provided is invalid.
    InvalidArgument,

    /// The operation is not valid in the current state.
    InvalidState,

    /// The command is not recognized.
    InvalidCommand,

    /// The selected interface is not supported.
    InvalidInterface,

    /// An internal runtime error has occurred.
    InternalError,

    /// A security or authentication error has occurred.
    SecurityError,

    /// An error has occurred while parsing the command.
    ParseError,

    /// There is currently an operation in progress.
    InProgress,

    /// The operation has been prevented due to memory pressure.
    NoMemory,

    /// The device is currently performing another operation and cannot perform the request.
    Busy,

    /// The given property is not recognized.
    PropertyNotFound,

    /// The packet was dropped.
    PacketDropped,

    /// The result of the operation is empty.
    Empty,

    /// The command was too large to fit in the internal buffer.
    CommandTooBig,

    /// The packet was not acknowledged.
    NoAck,

    /// The packet was not sent due to CCA failure.
    CcaFailure,

    /// The operation is already in progress or the property was already set to the given value.
    Already,

    /// The given item could not be found in the property.
    ItemNotFound,

    /// The given command cannot be performed on this property.
    InvalidCommandForProperty,

    /// The neighbor is unknown.
    UnknownNeighbor,

    /// The target is not capable of performing the requested operation.
    NotCapable,

    /// No response received from the remote within the timeout period.
    ResponseTimeout,
}

/// The wire value of a status.
pub open spec fn status_code(s: Status) -> u8 {
    match s {
        Status::Success => 0,
        Status::Failure => 1,
        Status::Unimplemented => 2,
        Status::InvalidArgument => 3,
        Status::InvalidState => 4,
        Status::InvalidCommand => 5,
        Status::InvalidInterface => 6,
        Status::InternalError => 7,
        Status::SecurityError => 8,
        Status::ParseError => 9,
        Status::InProgress => 10,
        Status::NoMemory => 11,
        Status::Busy => 12,
        Status::PropertyNotFound => 13,
        Status::PacketDropped => 14,
        Status::Empty => 15,
        Status::CommandTooBig => 16,
        Status::NoAck => 17,
        Status::CcaFailure => 18,
        Status::Already => 19,
        Status::ItemNotFound => 20,
        Status::InvalidCommandForProperty => 21,
        Status::UnknownNeighbor => 22,
        Status::NotCapable => 23,
        Status::ResponseTimeout => 24,
    }
}

/// The status whose wire value is `v`, if there is one.
pub open spec fn status_of_code(v: nat) -> Option<Status> {
    if v == 0 {
        Some(Status::Success)
    } else if v == 1 {
        Some(Status::Failure)
    } else if v == 2 {
        Some(Status::Unimplemented)
    } else if v == 3 {
        Some(Status::InvalidArgument)
    } else if v == 4 {
        Some(Status::InvalidState)
    } else if v == 5 {
        Some(Status::InvalidCommand)
    } else if v == 6 {
        Some(Status::InvalidInterface)
    } else if v == 7 {
        Some(Status::InternalError)
    } else if v == 8 {
        Some(Status::SecurityError)
    } else if v == 9 {
        Some(Status::ParseError)
    } else if v == 10 {
        Some(Status::InProgress)
    } else if v == 11 {
        Some(Status::NoMemory)
    } else if v == 12 {
        Some(Status::Busy)
    } else if v == 13 {
        Some(Status::PropertyNotFound)
    } else if v == 14 {
        Some(Status::PacketDropped)
    } else if v == 15 {
        Some(Status::Empty)
    } else if v == 16 {
        Some(Status::CommandTooBig)
    } else if v == 17 {
        Some(Status::NoAck)
    } else if v == 18 {
        Some(Status::CcaFailure)
    } else if v == 19 {
        Some(Status::Already)
    } else if v == 20 {
        Some(Status::ItemNotFound)
    } else if v == 21 {
        Some(Status::InvalidCommandForProperty)
    } else if v == 22 {
        Some(Status::UnknownNeighbor)
    } else if v == 23 {
        Some(Status::NotCapable)
    } else if v == 24 {
        Some(Status::ResponseTimeout)
    } else {
        None
    }
}

impl Status {
    /// The status whose wire value is `value`, if there is one.
    pub fn try_from(value: u8) -> (r: Result<Status, ()>)
        ensures
            r is Ok <==> value <= 24,
            r matches Ok(s) ==> status_code(s) == value && status_of_code(value as nat) == Some(s),
    {
        match value {
            0 => Ok(Status::Success),
            1 => Ok(Status::Failure),
            2 => Ok(Status::Unimplemented),
            3 => Ok(Status::InvalidArgument),
            4 => Ok(Status::InvalidState),
            5 => Ok(Status::InvalidCommand),
            6 => Ok(Status::InvalidInterface),
            7 => Ok(Status::InternalError),
            8 => Ok(Status::SecurityError),
            9 => Ok(Status::ParseError),
            10 => Ok(Status::InProgress),
            11 => Ok(Status::NoMemory),
            12 => Ok(Status::Busy),
            13 => Ok(Status::PropertyNotFound),
            14 => Ok(Status::PacketDropped),
            15 => Ok(Status::Empty),
            16 => Ok(Status::CommandTooBig),
            17 => Ok(Status::NoAck),
            18 => Ok(Status::CcaFailure),
            19 => Ok(Status::Already),
            20 => Ok(Status::ItemNotFound),
            21 => Ok(Status::InvalidCommandForProperty),
            22 => Ok(Status::UnknownNeighbor),
            23 => Ok(Status::NotCapable),
            24 => Ok(Status::ResponseTimeout),
            _ => Err(()),
        }
    }

    /// The wire value of this status.
    pub fn code(&self) -> (r: u8)
        ensures
            r == status_code(*self),
    {
        match self {
            Status::Success => 0,
            Status::Failure => 1,
            Status::Unimplemented => 2,
            Status::InvalidArgument => 3,
            Status::InvalidState => 4,
            Status::InvalidCommand => 5,
            Status::InvalidInterface => 6,
            Status::InternalError => 7,
            Status::SecurityError => 8,
            Status::ParseError => 9,
            Status::InProgress => 10,
            Status::NoMemory => 11,
            Status::Busy => 12,
            Status::PropertyNotFound => 13,
            Status::PacketDropped => 14,
            Status::Empty => 15,
            Status::CommandTooBig => 16,
            Status::NoAck => 17,
            Status::CcaFailure => 18,
            Status::Already => 19,
            Status::ItemNotFound => 20,
            Status::InvalidCommandForProperty => 21,
            Status::UnknownNeighbor => 22,
            Status::NotCapable => 23,
            Status::ResponseTimeout => 24,
        }
    }

    /// The name of this status.
    pub fn name(&self) -> (r: &'static str)
        ensures
            r@ == status_name(*self),
    {
        match self {
            Status::Success => "Ok",
            Status::Failure => "Failure",
            Status::Unimplemented => "Unimplemented",
            Status::InvalidArgument => "InvalidArgument",
            Status::InvalidState => "InvalidState",
            Status::InvalidCommand => "InvalidCommand",
            Status::InvalidInterface => "InvalidInterface",
            Status::InternalError => "InternalError",
            Status::SecurityError => "SecurityError",
            Status::ParseError => "ParseError",
            Status::InProgress => "InProgress",
            Status::NoMemory => "NoMemory",
            Status::Busy => "Busy",
            Status::PropertyNotFound => "PropertyNotFound",
            Status::PacketDropped => "PacketDropped",
            Status::Empty => "Empty",
            Status::CommandTooBig => "CommandTooBig",
            Status::NoAck => "NoAck",
            Status::CcaFailure => "CcaFailure",
            Status::Already => "Already",
            Status::ItemNotFound => "ItemNotFound",
            Status::InvalidCommandForProperty => "InvalidCommandForProperty",
            Status::UnknownNeighbor => "UnknownNeighbor",
            Status::NotCapable => "NotCapable",
            Status::ResponseTimeout => "ResponseTimeout",
        }
    }
}

/// The name of a status, as [`Status::name`] gives it.
pub open spec fn status_name(s: Status) -> Seq<char> {
    match s {
        Status::Success => "Ok"@,
        Status::Failure => "Failure"@,
        Status::Unimplemented => "Unimplemented"@,
        Status::InvalidArgument => "InvalidArgument"@,
        Status::InvalidState => "InvalidState"@,
        Status::InvalidCommand => "InvalidCommand"@,
        Status::InvalidInterface => "InvalidInterface"@,
        Status::InternalError => "InternalError"@,
        Status::SecurityError => "SecurityError"@,
        Status::ParseError => "ParseError"@,
        Status::InProgress => "InProgress"@,
        Status::NoMemory => "NoMemory"@,
        Status::Busy => "Busy"@,
        Status::PropertyNotFound => "PropertyNotFound"@,
        Status::PacketDropped => "PacketDropped"@,
        Status::Empty => "Empty"@,
        Status::CommandTooBig => "CommandTooBig"@,
        Status::NoAck => "NoAck"@,
        Status::CcaFailure => "CcaFailure"@,
        Status::Already => "Already"@,
        Status::ItemNotFound => "ItemNotFound"@,
        Status::InvalidCommandForProperty => "InvalidCommandForProperty"@,
        Status::UnknownNeighbor => "UnknownNeighbor"@,
        Status::NotCapable => "NotCapable"@,
        Status::ResponseTimeout => "ResponseTimeout"@,
    }
}

impl From<Status> for u8 {
    fn from(status: Status) -> (r: u8) {
        status.code()
    }
}

impl vstd::std_specs::convert::FromSpecImpl<Status> for u8 {
    open spec fn obeys_from_spec() -> bool {
        true
    }

    open spec fn from_spec(status: Status) -> u8 {
        status_code(status)
    }
}

/// Reasons that a device has reset.
#[derive(Clone, Copy, Debug, PartialEq, Eq, Structural)]
pub enum ResetReason {
    PowerOn,
    External,
    Software,
    Fault,
    Crash,
    Assert,
    Other,
    Unknown,
    Watchdog,
}

/// The first wire value of the reset reasons; they run on to `RESET_LAST`.
pub const RESET_FIRST: u32 = 112;

/// The last wire value of the reset reasons.
pub const RESET_LAST: u32 = 120;

/// The wire value of a reset reason.
pub open spec fn reset_code(r: ResetReason) -> u32 {
    match r {
        ResetReason::PowerOn => 112,
        ResetReason::External => 113,
        ResetReason::Software => 114,
        ResetReason::Fault => 115,
        ResetReason::Crash => 116,
        ResetReason::Assert => 117,
        ResetReason::Other => 118,
        ResetReason::Unknown => 119,
        ResetReason::Watchdog => 120,
    }
}

/// The reset reason whose wire value is `v`, if there is one.
pub open spec fn reset_of_code(v: nat) -> Option<ResetReason> {
    if v == 112 {
        Some(ResetReason::PowerOn)
    } else if v == 113 {
        Some(ResetReason::External)
    } else if v == 114 {
        Some(ResetReason::Software)
    } else if v == 115 {
        Some(ResetReason::Fault)
    } else if v == 116 {
        Some(ResetReason::Crash)
    } else if v == 117 {
        Some(ResetReason::Assert)
    } else if v == 118 {
        Some(ResetReason::Other)
    } else if v == 119 {
        Some(ResetReason::Unknown)
    } else if v == 120 {
        Some(ResetReason::Watchdog)
    } else {
        None
    }
}

impl ResetReason {
    /// The reset reason whose wire value is `value`, if there is one.
    pub fn try_from(value: u32) -> (r: Result<ResetReason, ()>)
        ensures
            r is Ok <==> RESET_FIRST <= value <= RESET_LAST,
            r matches Ok(reason) ==> reset_code(reason) == value && reset_of_code(value as nat)
                == Some(reason),
            r is Err ==> reset_of_code(value as nat) is None,
    {
        match value {
            112 => Ok(ResetReason::PowerOn),
            113 => Ok(ResetReason::External),
            114 => Ok(ResetReason::Software),
            115 => Ok(ResetReason::Fault),
            116 => Ok(ResetReason::Crash),
            117 => Ok(ResetReason::Assert),
            118 => Ok(ResetReason::Other),
            119 => Ok(ResetReason::Unknown),
            120 => Ok(ResetReason::Watchdog),
            _ => Err(()),
        }
    }
}

} // verus!

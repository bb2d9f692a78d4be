use vstd::prelude::*;

verus! {

/// prost's error for bytes that are no well-formed message; nothing is known of what it holds.
#[verifier::external_type_specification]
#[verifier::external_body]
pub struct ExDecodeError(prost::DecodeError);

/// prost's error for a buffer without room for a message; nothing is known of what it holds.
#[verifier::external_type_specification]
#[verifier::external_body]
pub struct ExEncodeError(prost::EncodeError);

/// Everything that can go wrong in the state layer without it being a
/// programming error of the caller.
#[derive(Debug)]
#[allow(inconsistent_fields)]
pub enum ArconStateError {
    /// The underlying storage reported an I/O failure.
    IO { message: String },
    /// The storage location cannot be used.
    InvalidPath { path: String },
    /// A checkpoint holds a state name that the restoring code does not declare.
    UnknownNode { unknown_node: String, known_nodes: Vec<String> },
    /// The destination buffer of a fixed-width encoding is too short.
    FixedBytesSerializationError { dest_len: usize, needed: usize },
    /// The source buffer of a fixed-width decoding is too short.
    FixedBytesDeserializationError { source_len: usize, needed: usize },
    /// The bytes are not a well-formed structured encoding.
    ProtobufDecodeError { source: prost::DecodeError },
    /// The structured encoder ran out of room.
    ProtobufEncodeError { source: prost::EncodeError },
    /// A state is held under another kind than the one asked for.
    InMemoryWrongType,
    RocksMissingColumnFamily { cf_name: String },
    RocksMissingOptions { cf_name: String },
    RocksError { message: String },
    RocksUninitialized { unknown_cfs: std::collections::HashSet<String> },
    RocksRestoreDirNotEmpty { dir: String },
    /// The engine did not answer before the deadline.
    FasterReceiveTimeout,
    FasterUnexpectedStatus { status: u8 },
    FasterOtherError { message: String },
    FasterCheckpointFailed,
}

/// Name of a status code of the hybrid-log engine; `"?"` for a code it does not define.
pub open spec fn status_name(status: u8) -> Seq<char> {
    match status {
        0 => "OK"@,
        1 => "PENDING"@,
        2 => "NOT_FOUND"@,
        3 => "OUT_OF_MEMORY"@,
        4 => "IO_ERROR"@,
        5 => "CORRUPTION"@,
        6 => "ABORTED"@,
        _ => "?"@,
    }
}

pub fn faster_format(status: &u8) -> (name: &'static str)
    ensures
        name@ == status_name(*status),
{
    match *status {
        0 => "OK",
        1 => "PENDING",
        2 => "NOT_FOUND",
        3 => "OUT_OF_MEMORY",
        4 => "IO_ERROR",
        5 => "CORRUPTION",
        6 => "ABORTED",
        _ => "?",
    }
}

} // verus!

pub mod fixed_bytes;
pub mod protobuf;

//! Client-side decoding and reply classification for a remote tabular
//! query/write service.
pub mod avro;
pub mod convert;
pub mod errors;
pub mod request;
pub mod row;
pub mod rpc_client;

pub use avro::{AvroSchema, RecordField};
pub use errors::{DecodeError, Error, SchemaError, ServerError};

pub use convert::parse_one_row;
pub use request::{QueryRequest, WriteResult};
pub use row::{ColumnDataType, ColumnSchema, Datum, QueryResponse, Row, Schema};
pub use rpc_client::{
    check_header, write_result_from_reply, GrpcConfig, ReplyHeader, RpcClientBuilder, RpcContext,
    RpcOptions,
};


//! The decisions of the request gateway: call identity, configuration, and
//! the classification of replies into results and errors.
use vstd::prelude::*;
use crate::errors::{is_ok, Error, ServerError, OK_CODE};
use crate::request::WriteResult;

verus! {

/// The metadata key under which each call carries its tenant.
pub const RPC_HEADER_TENANT_KEY: &'static str = "x-ceresdb-access-tenant";

/// Identity of one call: the tenant it acts for and its access token.
#[derive(Clone, Debug)]
pub struct RpcContext {
    pub tenant: String,
    pub token: String,
}

impl RpcContext {
    pub fn new(tenant: String, token: String) -> (r: RpcContext)
        ensures
            r.tenant == tenant,
            r.token == token,
    {
        RpcContext { tenant, token }
    }
}

/// The header of every reply: a status code and, when it is not ok, a
/// message from the server.
#[derive(Clone, Debug)]
pub struct ReplyHeader {
    pub code: u32,
    pub error: String,
}

/// Classifies a reply by its header alone: an ok code passes, any other code
/// becomes a server error with that code and message.
pub fn check_header(header: &ReplyHeader) -> (r: Result<(), Error>)
    ensures
        header.code == OK_CODE <==> r is Ok,
        header.code != OK_CODE ==> (r matches Err(Error::Server(e)) && e.code == header.code
            && e.msg@ == header.error@),
{
    if is_ok(header.code) {
        Ok(())
    } else {
        Err(Error::Server(ServerError { code: header.code, msg: header.error.clone() }))
    }
}

/// The result of a write from its reply: the header is checked first, then
/// the written metrics and the counts of the reply make the result.
pub fn write_result_from_reply(header: &ReplyHeader, metrics: Vec<String>, success: u32, failed: u32) -> (r: Result<WriteResult, Error>)
    ensures
        header.code == OK_CODE ==> (r matches Ok(w) && w.metrics == metrics && w.success == success
            && w.failed == failed),
        header.code != OK_CODE ==> (r matches Err(Error::Server(e)) && e.code == header.code
            && e.msg@ == header.error@),
{
    match check_header(header) {
        Ok(()) => Ok(WriteResult { metrics, success, failed }),
        Err(e) => Err(e),
    }
}

/// Per-call options.
#[derive(Clone, Copy, Debug)]
pub struct RpcOptions {
    pub read_timeout_ms: u64,
    pub write_timeout_ms: u64,
}

impl Default for RpcOptions {
    fn default() -> (r: RpcOptions)
        ensures
            r.read_timeout_ms == 60_000,
            r.write_timeout_ms == 60_000,
    {
        RpcOptions { read_timeout_ms: 60_000, write_timeout_ms: 60_000 }
    }
}

/// Transport configuration.
#[derive(Clone, Copy, Debug)]
pub struct GrpcConfig {
    /// Worker threads of the transport; the transport's own default if `None`.
    pub thread_num: Option<usize>,
    pub max_send_msg_len: i32,
    pub max_recv_msg_len: i32,
    pub keepalive_time_ms: u64,
    pub keepalive_timeout_ms: u64,
}

impl Default for GrpcConfig {
    fn default() -> (r: GrpcConfig)
        ensures
            r.thread_num is None,
            r.max_send_msg_len == 20 * 1024 * 1024,
            r.max_recv_msg_len == 1024 * 1024 * 1024,
            r.keepalive_time_ms == 60_000,
            r.keepalive_timeout_ms == 3_000,
    {
        GrpcConfig {
            thread_num: None,
            max_send_msg_len: 20 * 1024 * 1024,
            max_recv_msg_len: 1024 * 1024 * 1024,
            keepalive_time_ms: 60_000,
            keepalive_timeout_ms: 3_000,
        }
    }
}

/// The configuration from which a client is built.
#[derive(Clone, Debug)]
pub struct RpcClientBuilder {
    pub endpoint: String,
    pub rpc_opts: RpcOptions,
    pub grpc_config: GrpcConfig,
}

impl RpcClientBuilder {
    /// A configuration for `endpoint` with default options.
    pub fn new(endpoint: String) -> (r: RpcClientBuilder)
        ensures
            r.endpoint == endpoint,
            r.rpc_opts.read_timeout_ms == 60_000,
            r.rpc_opts.write_timeout_ms == 60_000,
            r.grpc_config.thread_num is None,
            r.grpc_config.max_send_msg_len == 20 * 1024 * 1024,
            r.grpc_config.max_recv_msg_len == 1024 * 1024 * 1024,
            r.grpc_config.keepalive_time_ms == 60_000,
            r.grpc_config.keepalive_timeout_ms == 3_000,
    {
        RpcClientBuilder {
            endpoint,
            rpc_opts: RpcOptions::default(),
            grpc_config: GrpcConfig::default(),
        }
    }

    /// Replaces the transport configuration.
    pub fn grpc_config(self, grpc_config: GrpcConfig) -> (r: RpcClientBuilder)
        ensures
            r.endpoint == self.endpoint,
            r.rpc_opts == self.rpc_opts,
            r.grpc_config == grpc_config,
    {
        RpcClientBuilder { grpc_config, ..self }
    }

    /// Replaces the per-call options.
    pub fn rpc_opts(self, rpc_opts: RpcOptions) -> (r: RpcClientBuilder)
        ensures
            r.endpoint == self.endpoint,
            r.rpc_opts == rpc_opts,
            r.grpc_config == self.grpc_config,
    {
        RpcClientBuilder { rpc_opts, ..self }
    }
}

} // verus!

use ceresdb_client::{GrpcConfig, QueryRequest, RpcClientBuilder, RpcContext, RpcOptions};

#[test]
fn builder_defaults_and_overrides() {
    let b = RpcClientBuilder::new("127.0.0.1:8831".to_string());
    assert_eq!(b.endpoint, "127.0.0.1:8831");
    assert_eq!(b.rpc_opts.read_timeout_ms, 60_000);
    assert_eq!(b.grpc_config.thread_num, None);
    assert_eq!(b.grpc_config.max_send_msg_len, 20 * 1024 * 1024);
    let cfg = GrpcConfig { thread_num: Some(4), ..GrpcConfig::default() };
    let opts = RpcOptions { read_timeout_ms: 5, write_timeout_ms: 6 };
    let b = b.grpc_config(cfg).rpc_opts(opts);
    assert_eq!(b.grpc_config.thread_num, Some(4));
    assert_eq!(b.rpc_opts.read_timeout_ms, 5);
    assert_eq!(b.endpoint, "127.0.0.1:8831");
}

#[test]
fn context_and_request() {
    let ctx = RpcContext::new("tenant".to_string(), "token-1".to_string());
    assert_eq!(ctx.tenant, "tenant");
    assert_eq!(ctx.token, "token-1");
    let req = QueryRequest { metrics: vec!["cpu".to_string()], ql: "select 1".to_string() };
    assert_eq!(req.clone().metrics, vec!["cpu".to_string()]);
}

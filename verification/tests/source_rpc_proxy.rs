//! The source RPC proxy.

use base_batcher_prover::source_rpc_proxy::{
    RequestsHashStrippingSourceRpcProxy, RequestsHashStrippingSourceRpcProxyConfig, UpstreamReply,
};
use serde_json::Value;
use url::Url;

fn json(text: &str) -> Value {
    serde_json::from_str(text).unwrap()
}

fn answered(text: &str) -> UpstreamReply {
    UpstreamReply::Answered(json(text))
}

fn proxy(rpc_port: Option<u16>) -> RequestsHashStrippingSourceRpcProxy {
    let config = RequestsHashStrippingSourceRpcProxyConfig {
        source_l2_rpc_url: Url::parse("http://upstream:8545").unwrap(),
        rpc_port,
    };
    RequestsHashStrippingSourceRpcProxy::listen(&config, 40_123)
}

#[test]
fn proxy_listens_locally() {
    assert_eq!(proxy(Some(8545)).rpc_url().as_str(), "http://127.0.0.1:8545/");
    assert_eq!(proxy(None).rpc_port(), 40_123);
    assert_eq!(proxy(None).rpc_url().as_str(), "http://127.0.0.1:40123/");
    assert_eq!(proxy(Some(80)).rpc_url().as_str(), "http://127.0.0.1/");
    assert_eq!(proxy(Some(0)).rpc_url().as_str(), "http://127.0.0.1:0/");
    let other = RequestsHashStrippingSourceRpcProxy { ip: [255, 0, 10, 9], port: 65_535 };
    assert_eq!(other.rpc_url().as_str(), "http://255.0.10.9:65535/");
}

#[test]
fn requests_are_json_rpc() {
    assert_eq!(
        RequestsHashStrippingSourceRpcProxy::block_number_request(),
        json(r#"{"jsonrpc":"2.0","id":1,"method":"eth_blockNumber","params":[]}"#)
    );
    assert_eq!(
        RequestsHashStrippingSourceRpcProxy::block_by_number_request(vec![
            Value::from("0x10"),
            Value::from(true),
        ]),
        json(
            r#"{"jsonrpc":"2.0","id":1,"method":"eth_getBlockByNumber","params":["0x10",true]}"#
        )
    );
    assert_eq!(
        RequestsHashStrippingSourceRpcProxy::rpc_request("m", json(r#"{"a":null}"#)),
        json(r#"{"jsonrpc":"2.0","id":1,"method":"m","params":{"a":null}}"#)
    );
}

#[test]
fn requests_hash_is_stripped_from_blocks() {
    let reply = answered(
        r#"{"jsonrpc":"2.0","id":1,"result":{"number":"0x1","requestsHash":"0xe3","hash":"0x2"}}"#,
    );
    let block = RequestsHashStrippingSourceRpcProxy::block_by_number_answer(&reply).unwrap();
    assert_eq!(block, json(r#"{"number":"0x1","hash":"0x2"}"#));
    let same = RequestsHashStrippingSourceRpcProxy::block_number_answer(&reply).unwrap();
    assert_eq!(same, json(r#"{"number":"0x1","requestsHash":"0xe3","hash":"0x2"}"#));
}

#[test]
fn stripping_leaves_everything_else() {
    for text in ["null", "[{\"requestsHash\":1}]", "\"requestsHash\"", "{\"nested\":{\"requestsHash\":1}}"]
    {
        let mut value = json(text);
        RequestsHashStrippingSourceRpcProxy::strip_requests_hash(&mut value);
        assert_eq!(value, json(text));
    }
    let mut value = json(r#"{"requestsHash":1}"#);
    RequestsHashStrippingSourceRpcProxy::strip_requests_hash(&mut value);
    RequestsHashStrippingSourceRpcProxy::strip_requests_hash(&mut value);
    assert_eq!(value, json("{}"));
}

#[test]
fn null_result_is_an_answer() {
    let reply = answered(r#"{"result":null}"#);
    let block = RequestsHashStrippingSourceRpcProxy::block_by_number_answer(&reply).unwrap();
    assert_eq!(block, Value::Null);
}

#[test]
fn upstream_errors_are_internal_errors() {
    let reply = answered(r#"{"result":"0x1","error":{"message":"no","code":-32000}}"#);
    let error = RequestsHashStrippingSourceRpcProxy::block_number_answer(&reply).unwrap_err();
    assert_eq!(error.code(), -32603);
    assert_eq!(
        error.message(),
        r#"upstream RPC error for eth_blockNumber: {"code":-32000,"message":"no"}"#
    );
    assert!(error.data().is_none());
    let null = answered(r#"{"result":"0x1","error":null}"#);
    let error = RequestsHashStrippingSourceRpcProxy::block_by_number_answer(&null).unwrap_err();
    assert_eq!(error.message(), "upstream RPC error for eth_getBlockByNumber: null");
}

#[test]
fn missing_result_is_an_internal_error() {
    for text in [r#"{"id":1}"#, "[]", "7"] {
        let reply = answered(text);
        let error =
            RequestsHashStrippingSourceRpcProxy::block_by_number_answer(&reply).unwrap_err();
        assert_eq!(error.code(), -32603);
        assert_eq!(
            error.message(),
            "upstream response for eth_getBlockByNumber omitted result"
        );
    }
}

#[test]
fn failed_requests_are_internal_errors() {
    let failed = UpstreamReply::RequestFailed("refused".to_owned());
    let error = RequestsHashStrippingSourceRpcProxy::block_number_answer(&failed).unwrap_err();
    assert_eq!((error.code(), error.message()), (-32603, "upstream request failed: refused"));
    let garbled = UpstreamReply::DecodeFailed("eof".to_owned());
    let error = RequestsHashStrippingSourceRpcProxy::forward_rpc("m", &garbled).unwrap_err();
    assert_eq!((error.code(), error.message()), (-32603, "upstream response decode failed: eof"));
}

#[test]
fn rejected_params_have_their_own_code() {
    let error = RequestsHashStrippingSourceRpcProxy::params_rejected("not a list");
    assert_eq!((error.code(), error.message()), (-32602, "invalid params: not a list"));
}

#[test]
fn raw_params_become_the_request() {
    let request =
        RequestsHashStrippingSourceRpcProxy::block_by_number_call(Some(" [\"0x10\", false] "));
    assert_eq!(
        request.unwrap(),
        json(
            r#"{"jsonrpc":"2.0","id":1,"method":"eth_getBlockByNumber","params":["0x10",false]}"#
        )
    );
    let empty = RequestsHashStrippingSourceRpcProxy::block_by_number_call(Some("[]")).unwrap();
    assert_eq!(empty["params"], json("[]"));
}

#[test]
fn raw_params_that_are_no_list_are_rejected() {
    for raw in [None, Some("null"), Some("{\"a\":1}"), Some("[1,"), Some(""), Some("7")] {
        let error =
            RequestsHashStrippingSourceRpcProxy::block_by_number_call(raw).unwrap_err();
        let parsed =
            jsonrpsee::types::Params::new(raw).parse::<Vec<Value>>().unwrap_err().to_string();
        assert_eq!(error.code(), -32602);
        assert_eq!(error.message(), format!("invalid params: {parsed}"));
        assert!(error.data().is_none());
    }
}

//! L2 source RPC proxy that strips `requestsHash` from block responses.
//!
//! Sending requests and serving replies happens outside. The proxy decides what
//! is sent upstream and what is answered.

use crate::json;
use crate::rpc_url;
use jsonrpsee::types::error::ErrorCode;
use jsonrpsee::types::{ErrorObject, ErrorObjectOwned, Params};
use serde_json::Value;
use url::Url;
use vstd::prelude::*;
use vstd::string::*;

verus! {

/// An error object of a JSON-RPC reply.
#[verifier::external_type_specification]
#[verifier::external_body]
pub struct ExErrorObject<'a>(ErrorObject<'a>);

/// The code of an error object, as `jsonrpsee::types::ErrorObject::code` gives
/// it.
pub uninterp spec fn error_code(error: ErrorObjectOwned) -> i32;

/// The message of an error object, as `jsonrpsee::types::ErrorObject::message`
/// gives it.
pub uninterp spec fn error_message(error: ErrorObjectOwned) -> Seq<char>;

/// The data of an error object as JSON text, as
/// `jsonrpsee::types::ErrorObject::data` gives it; `None` where it has none.
pub uninterp spec fn error_data(error: ErrorObjectOwned) -> Option<Seq<char>>;

/// Calls `jsonrpsee::types::ErrorObject::owned` without data, which makes an
/// error object of a code and a message and leaves its data empty.
#[verifier::external_body]
fn error_object(code: i32, message: String) -> (error: ErrorObjectOwned)
    ensures
        error_code(error) == code,
        error_message(error) == message@,
        error_data(error) is None,
{
    ErrorObjectOwned::owned(code, message, None::<()>)
}

/// Calls `jsonrpsee::types::error::ErrorCode::code` on the internal error, whose
/// code JSON-RPC fixes.
#[verifier::external_body]
fn internal_error_code() -> (code: i32)
    ensures
        code == -32603,
{
    ErrorCode::InternalError.code()
}

/// Calls `jsonrpsee::types::error::ErrorCode::code` on the error for invalid
/// parameters, whose code JSON-RPC fixes.
#[verifier::external_body]
fn invalid_params_code() -> (code: i32)
    ensures
        code == -32602,
{
    ErrorCode::InvalidParams.code()
}

/// The raw parameters of a call as text, where there are any.
pub open spec fn raw_text(raw: Option<&str>) -> Option<Seq<char>> {
    match raw {
        Some(text) => Some(text@),
        None => None,
    }
}

/// The values that raw parameters list, as `jsonrpsee::types::Params::parse`
/// reads them, or the text of its error.
pub uninterp spec fn parsed_params(raw: Option<Seq<char>>) -> Result<Seq<Value>, Seq<char>>;

/// Parsed parameters, with the list and the error text as sequences.
pub open spec fn params_view(result: Result<Vec<Value>, String>) -> Result<Seq<Value>, Seq<char>> {
    match result {
        Ok(items) => Ok(items@),
        Err(message) => Err(message@),
    }
}

/// Calls `jsonrpsee::types::Params::parse`, which reads raw JSON parameters as a
/// list of values. Absent parameters stand for `null`, which is no list.
#[verifier::external_body]
fn parse_params(raw: Option<&str>) -> (result: Result<Vec<Value>, String>)
    ensures
        params_view(result) == parsed_params(raw_text(raw)),
        raw is None ==> result is Err,
{
    Params::new(raw).parse::<Vec<Value>>().map_err(|error| error.to_string())
}

/// Configuration for a source RPC proxy that strips `requestsHash` from block
/// responses.
pub struct RequestsHashStrippingSourceRpcProxyConfig {
    /// Upstream source L2 RPC endpoint.
    pub source_l2_rpc_url: Url,
    /// Optional fixed proxy RPC port.
    pub rpc_port: Option<u16>,
}

/// Running source RPC proxy that strips `requestsHash` from
/// `eth_getBlockByNumber` responses.
#[derive(Clone, Copy, Debug)]
pub struct RequestsHashStrippingSourceRpcProxy {
    /// IPv4 address that the proxy listens on.
    pub ip: [u8; 4],
    /// Port that the proxy listens on.
    pub port: u16,
}

/// What became of a request to the upstream.
pub enum UpstreamReply {
    /// The request failed with this message.
    RequestFailed(String),
    /// The response could not be decoded, with this message.
    DecodeFailed(String),
    /// The decoded response.
    Answered(Value),
}

/// What the proxy answers.
pub enum ForwardedView {
    /// The result of the upstream.
    Result(Value),
    /// An error with a code, a message and data.
    Failed(i32, Seq<char>, Option<Seq<char>>),
}

/// An answer, with an error as its code, message and data.
pub open spec fn forwarded(answer: Result<Value, ErrorObjectOwned>) -> ForwardedView {
    match answer {
        Ok(value) => ForwardedView::Result(value),
        Err(error) => ForwardedView::Failed(
            error_code(error),
            error_message(error),
            error_data(error),
        ),
    }
}

/// An internal error with a message and no data.
pub open spec fn internal_failure(message: Seq<char>) -> ForwardedView {
    ForwardedView::Failed(-32603i32, message, None)
}

/// A field of a value, where the value is an object that has it.
pub open spec fn field(value: Value, name: Seq<char>) -> Option<Value> {
    match json::object_entries(value) {
        Some(fields) => if fields.contains_key(name) {
            Some(fields[name])
        } else {
            None
        },
        None => None,
    }
}

/// What the proxy answers for a method: a failure of the upstream becomes an
/// internal error, and so does a response without a result.
pub open spec fn forwards(method: Seq<char>, reply: UpstreamReply) -> ForwardedView {
    match reply {
        UpstreamReply::RequestFailed(message) => internal_failure(
            "upstream request failed: "@ + message@,
        ),
        UpstreamReply::DecodeFailed(message) => internal_failure(
            "upstream response decode failed: "@ + message@,
        ),
        UpstreamReply::Answered(response) => match field(response, "error"@) {
            Some(error) => internal_failure(
                "upstream RPC error for "@ + method + ": "@ + json::json_text(error),
            ),
            None => match field(response, "result"@) {
                Some(result) => ForwardedView::Result(result),
                None => internal_failure(
                    "upstream response for "@ + method + " omitted result"@,
                ),
            },
        },
    }
}

/// The value is a JSON-RPC request for a method with parameters.
pub open spec fn is_rpc_request(request: Value, method: Seq<char>, params: Value) -> bool {
    match json::object_entries(request) {
        Some(fields) => {
            &&& fields.dom() =~= set!["jsonrpc"@, "id"@, "method"@, "params"@]
            &&& json::string_text(fields["jsonrpc"@]) == Some("2.0"@)
            &&& json::unsigned_number(fields["id"@]) == Some(1u64)
            &&& json::string_text(fields["method"@]) == Some(method)
            &&& fields["params"@] == params
        },
        None => false,
    }
}

/// The value is a request for a block with a list of parameters.
pub open spec fn is_block_request(request: Value, params: Seq<Value>) -> bool {
    exists|list: Value| #[trigger]
        is_rpc_request(request, "eth_getBlockByNumber"@, list) && json::array_items(list) == Some(
            params,
        )
}

/// What comes of a call for a block: parameters that parsed are requested, and
/// others are rejected as invalid.
pub open spec fn requests_block(
    params: Result<Seq<Value>, Seq<char>>,
    result: Result<Value, ErrorObjectOwned>,
) -> bool {
    match params {
        Ok(items) => result is Ok && is_block_request(result->Ok_0, items),
        Err(message) => {
            &&& result is Err
            &&& error_code(result->Err_0) == -32602
            &&& error_message(result->Err_0) == "invalid params: "@ + message
            &&& error_data(result->Err_0) is None
        },
    }
}

/// The value after the requests hash was stripped from the value before: an
/// object loses that field and keeps the others, any other value stays.
pub open spec fn stripped(before: Value, after: Value) -> bool {
    match json::object_entries(before) {
        Some(fields) => json::object_entries(after) == Some(fields.remove("requestsHash"@)),
        None => after == before,
    }
}

impl RequestsHashStrippingSourceRpcProxy {
    /// The address of a proxy: local, at the fixed port where one is configured,
    /// else at an available one.
    pub fn listen(config: &RequestsHashStrippingSourceRpcProxyConfig, available_port: u16) -> (
    proxy: Self)
        ensures
            proxy.ip@ == seq![127u8, 0, 0, 1],
            proxy.port == (match config.rpc_port {
                Some(port) => port,
                None => available_port,
            }),
    {
        let port: u16 = match config.rpc_port {
            Some(port) => port,
            None => available_port,
        };
        let ip: [u8; 4] = [127, 0, 0, 1];
        assert(ip@ =~= seq![127u8, 0, 0, 1]);
        RequestsHashStrippingSourceRpcProxy { ip, port }
    }

    /// Returns the RPC URL for this proxy.
    pub fn rpc_url(&self) -> (url: Url)
        ensures
            rpc_url::url_text(url) == rpc_url::http_url(self.ip, self.port),
    {
        rpc_url::http_endpoint_url(self.ip, self.port)
    }

    /// Returns the RPC port.
    pub fn rpc_port(&self) -> (port: u16)
        ensures
            port == self.port,
    {
        self.port
    }

    /// The request for a method with parameters that is sent upstream.
    pub fn rpc_request(method: &str, params: Value) -> (request: Value)
        ensures
            is_rpc_request(request, method@, params),
    {
        let mut fields = json::no_fields();
        json::insert_field(
            &mut fields,
            "jsonrpc".to_owned(),
            json::string_value("2.0".to_owned()),
        );
        json::insert_field(&mut fields, "id".to_owned(), json::number_value(1));
        json::insert_field(
            &mut fields,
            "method".to_owned(),
            json::string_value(method.to_owned()),
        );
        json::insert_field(&mut fields, "params".to_owned(), params);
        proof {
            reveal_strlit("jsonrpc");
            reveal_strlit("id");
            reveal_strlit("method");
            reveal_strlit("params");
            assert("jsonrpc"@.len() == 7 && "id"@.len() == 2);
            assert("method"@.len() == 6 && "params"@.len() == 6);
            assert("method"@[0] == 'm' && "params"@[0] == 'p');
        }
        json::object_value(fields)
    }

    /// What the proxy answers for a method, given what became of the request to
    /// the upstream.
    pub fn forward_rpc(method: &str, reply: &UpstreamReply) -> (answer: Result<
        Value,
        ErrorObjectOwned,
    >)
        ensures
            forwarded(answer) == forwards(method@, *reply),
    {
        let response = match reply {
            UpstreamReply::RequestFailed(message) => {
                return Err(
                    Self::internal_error(
                        "upstream request failed: ".to_owned().concat(message.as_str()),
                    ),
                );
            },
            UpstreamReply::DecodeFailed(message) => {
                return Err(
                    Self::internal_error(
                        "upstream response decode failed: ".to_owned().concat(message.as_str()),
                    ),
                );
            },
            UpstreamReply::Answered(response) => response,
        };
        if let Some(error) = json::get_field(response, "error") {
            return Err(
                Self::internal_error(
                    "upstream RPC error for ".to_owned().concat(method).concat(": ").concat(
                        json::value_text(error).as_str(),
                    ),
                ),
            );
        }
        match json::get_field(response, "result") {
            Some(result) => Ok(json::clone_value(result)),
            None => Err(
                Self::internal_error(
                    "upstream response for ".to_owned().concat(method).concat(" omitted result"),
                ),
            ),
        }
    }

    /// The request for the number of the latest block.
    pub fn block_number_request() -> (request: Value)
        ensures
            exists|params: Value| #[trigger]
                is_rpc_request(request, "eth_blockNumber"@, params) && json::array_items(params)
                    == Some(Seq::<Value>::empty()),
    {
        let params = json::array_value(Vec::new());
        Self::rpc_request("eth_blockNumber", params)
    }

    /// What the proxy answers for the number of the latest block.
    pub fn block_number_answer(reply: &UpstreamReply) -> (answer: Result<Value, ErrorObjectOwned>)
        ensures
            forwarded(answer) == forwards("eth_blockNumber"@, *reply),
    {
        Self::forward_rpc("eth_blockNumber", reply)
    }

    /// The request for a block, with the parameters that the proxy was given.
    pub fn block_by_number_request(params: Vec<Value>) -> (request: Value)
        ensures
            is_block_request(request, params@),
    {
        let list = json::array_value(params);
        Self::rpc_request("eth_getBlockByNumber", list)
    }

    /// The request for a block, read from the raw parameters of the call, or
    /// what the proxy answers where they do not parse.
    pub fn block_by_number_call(raw: Option<&str>) -> (result: Result<Value, ErrorObjectOwned>)
        ensures
            requests_block(parsed_params(raw_text(raw)), result),
            raw is None ==> result is Err,
    {
        match parse_params(raw) {
            Ok(params) => Ok(Self::block_by_number_request(params)),
            Err(message) => Err(Self::params_rejected(message.as_str())),
        }
    }

    /// What the proxy answers for a block: the block without its requests hash.
    pub fn block_by_number_answer(reply: &UpstreamReply) -> (answer: Result<
        Value,
        ErrorObjectOwned,
    >)
        ensures
            match forwards("eth_getBlockByNumber"@, *reply) {
                ForwardedView::Result(block) => answer is Ok && stripped(block, answer->Ok_0),
                failure => forwarded(answer) == failure,
            },
    {
        match Self::forward_rpc("eth_getBlockByNumber", reply) {
            Ok(block) => {
                let mut block = block;
                Self::strip_requests_hash(&mut block);
                Ok(block)
            },
            Err(error) => Err(error),
        }
    }

    /// What the proxy answers where the parameters for a block do not parse.
    pub fn params_rejected(message: &str) -> (error: ErrorObjectOwned)
        ensures
            error_code(error) == -32602,
            error_message(error) == "invalid params: "@ + message@,
            error_data(error) is None,
    {
        Self::invalid_params_error("invalid params: ".to_owned().concat(message))
    }

    /// Strips the requests hash from a block.
    pub fn strip_requests_hash(value: &mut Value)
        ensures
            stripped(*old(value), *final(value)),
    {
        if let Some(block) = json::fields_mut(value) {
            json::remove_field(block, "requestsHash");
        }
    }

    /// An internal error with a message.
    pub fn internal_error(message: String) -> (error: ErrorObjectOwned)
        ensures
            error_code(error) == -32603,
            error_message(error) == message@,
            error_data(error) is None,
    {
        error_object(internal_error_code(), message)
    }

    /// An error for invalid parameters with a message.
    pub fn invalid_params_error(message: String) -> (error: ErrorObjectOwned)
        ensures
            error_code(error) == -32602,
            error_message(error) == message@,
            error_data(error) is None,
    {
        error_object(invalid_params_code(), message)
    }
}

/// A stripped block has no requests hash and its other fields as before; what
/// is no object does not change. Stripping it again changes nothing.
pub proof fn law_strip_removes_only_the_hash(before: Value, after: Value, again: Value)
    requires
        stripped(before, after),
        stripped(after, again),
    ensures
        field(after, "requestsHash"@) is None,
        forall|name: Seq<char>|
            name != "requestsHash"@ ==> #[trigger] field(after, name) == field(before, name),
        json::object_entries(before) is Some <==> json::object_entries(after) is Some,
        json::object_entries(again) == json::object_entries(after),
{
    if let Some(fields) = json::object_entries(before) {
        let name = "requestsHash"@;
        assert(fields.remove(name).remove(name) =~= fields.remove(name));
    }
}

/// A response that reports an error is never answered with a result, even where
/// it also holds one.
pub proof fn law_upstream_errors_win(method: Seq<char>, response: Value)
    requires
        field(response, "error"@) is Some,
    ensures
        forwards(method, UpstreamReply::Answered(response)) is Failed,
        forwards(method, UpstreamReply::Answered(response))->Failed_0 == -32603,
{
}

/// The proxy answers with a result exactly if the upstream answered without an
/// error and with that result. Whatever else came back is an internal error
/// without data.
pub proof fn law_only_results_are_forwarded(method: Seq<char>, reply: UpstreamReply, value: Value)
    ensures
        forwards(method, reply) == ForwardedView::Result(value) <==> (
        reply matches UpstreamReply::Answered(response) && field(response, "error"@) is None
            && field(response, "result"@) == Some(value)),
        !(forwards(method, reply) is Result) ==> forwards(method, reply)->Failed_0 == -32603
            && forwards(method, reply)->Failed_2 is None,
{
}

/// A failure says what failed: the message of a request or of a decoding that
/// failed ends it, an error of the upstream is shown behind the method, and a
/// response without a result names the method.
pub proof fn law_failures_say_what_failed(method: Seq<char>, reply: UpstreamReply)
    requires
        forwards(method, reply) is Failed,
    ensures
        ({
            let shown = forwards(method, reply)->Failed_1;
            match reply {
                UpstreamReply::RequestFailed(message) => shown
                    == "upstream request failed: "@ + message@,
                UpstreamReply::DecodeFailed(message) => shown
                    == "upstream response decode failed: "@ + message@,
                UpstreamReply::Answered(response) => if field(response, "error"@) is Some {
                    shown == "upstream RPC error for "@ + method + ": "@ + json::json_text(
                        field(response, "error"@)->0,
                    )
                } else {
                    shown == "upstream response for "@ + method + " omitted result"@
                },
            }
        }),
{
}

/// A field is found exactly in an object that has it.
pub proof fn law_fields_belong_to_objects(value: Value, name: Seq<char>, found: Value)
    ensures
        field(value, name) == Some(found) <==> json::object_entries(value) is Some
            && json::object_entries(value)->0.contains_key(name)
            && json::object_entries(value)->0[name] == found,
{
}

/// A request is an object with the protocol version, the identifier, the method
/// and the parameters, and with nothing else.
pub proof fn law_request_has_four_fields(
    request: Value,
    method: Seq<char>,
    params: Value,
    name: Seq<char>,
)
    requires
        is_rpc_request(request, method, params),
    ensures
        field(request, "jsonrpc"@) is Some,
        json::string_text(field(request, "jsonrpc"@)->0) == Some("2.0"@),
        field(request, "id"@) is Some,
        json::unsigned_number(field(request, "id"@)->0) == Some(1u64),
        field(request, "method"@) is Some,
        json::string_text(field(request, "method"@)->0) == Some(method),
        field(request, "params"@) == Some(params),
        name != "jsonrpc"@ && name != "id"@ && name != "method"@ && name != "params"@ ==> field(
            request,
            name,
        ) is None,
{
    let fields = json::object_entries(request)->0;
    let names = set!["jsonrpc"@, "id"@, "method"@, "params"@];
    assert(names.contains("jsonrpc"@) && names.contains("id"@));
    assert(names.contains("method"@) && names.contains("params"@));
    assert(fields.dom().contains("jsonrpc"@) && fields.dom().contains("id"@));
    assert(fields.dom().contains("method"@) && fields.dom().contains("params"@));
    assert(fields.contains_key(name) <==> names.contains(name));
}

/// A call for a block is passed on with exactly the values that it was given, in
/// their order, and under its own method. Parameters that do not parse are
/// rejected as invalid, with the reason.
pub proof fn law_block_call_keeps_its_parameters(
    params: Result<Seq<Value>, Seq<char>>,
    result: Result<Value, ErrorObjectOwned>,
)
    requires
        requests_block(params, result),
    ensures
        params is Ok <==> result is Ok,
        params is Ok ==> {
            let request = result->Ok_0;
            &&& field(request, "method"@) is Some
            &&& json::string_text(field(request, "method"@)->0) == Some("eth_getBlockByNumber"@)
            &&& field(request, "params"@) is Some
            &&& json::array_items(field(request, "params"@)->0) == Some(params->Ok_0)
        },
        params is Err ==> error_code(result->Err_0) == -32602 && error_message(result->Err_0)
            == "invalid params: "@ + params->Err_0 && error_data(result->Err_0) is None,
{
    if params is Ok {
        let request = result->Ok_0;
        let list = choose|list: Value| #[trigger]
            is_rpc_request(request, "eth_getBlockByNumber"@, list) && json::array_items(list)
                == Some(params->Ok_0);
        law_request_has_four_fields(request, "eth_getBlockByNumber"@, list, "params"@);
    }
}

/// What an answer may be for a block: the block of the upstream without its
/// requests hash and with every other field, or the failure.
pub proof fn law_block_answer_is_the_stripped_block(
    reply: UpstreamReply,
    answer: Value,
    block: Value,
    name: Seq<char>,
)
    requires
        forwards("eth_getBlockByNumber"@, reply) == ForwardedView::Result(block),
        stripped(block, answer),
    ensures
        reply is Answered,
        field(reply->Answered_0, "result"@) == Some(block),
        field(answer, "requestsHash"@) is None,
        name != "requestsHash"@ ==> field(answer, name) == field(block, name),
        json::object_entries(block) is None ==> answer == block,
{
}

/// An answer is seen as it is: a result as its value, an error as its own code,
/// message and data.
pub proof fn law_answers_are_seen_as_they_are(answer: Result<Value, ErrorObjectOwned>)
    ensures
        answer is Ok ==> forwarded(answer) == ForwardedView::Result(answer->Ok_0),
        answer is Err ==> {
            &&& forwarded(answer) is Failed
            &&& forwarded(answer)->Failed_0 == error_code(answer->Err_0)
            &&& forwarded(answer)->Failed_1 == error_message(answer->Err_0)
            &&& forwarded(answer)->Failed_2 == error_data(answer->Err_0)
        },
{
}

} // verus!

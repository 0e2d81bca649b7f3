//! URLs of RPC endpoints.

use crate::text;
use url::{ParseError, Url};
use vstd::prelude::*;
use vstd::string::*;

verus! {

/// A parsed URL.
#[verifier::external_type_specification]
#[verifier::external_body]
pub struct ExUrl(Url);

/// Why a text is no URL.
#[verifier::external_type_specification]
#[verifier::external_body]
pub struct ExParseError(ParseError);

/// The serialization of a URL, as `url::Url::as_str` gives it.
pub uninterp spec fn url_text(url: Url) -> Seq<char>;

/// An IPv4 address in dotted decimal form.
pub open spec fn ipv4_text(octets: [u8; 4]) -> Seq<char> {
    text::decimal(octets[0] as nat) + "."@ + text::decimal(octets[1] as nat) + "."@ + text::decimal(
        octets[2] as nat,
    ) + "."@ + text::decimal(octets[3] as nat)
}

/// An HTTP endpoint at an IPv4 address and a port.
pub open spec fn http_endpoint(octets: [u8; 4], port: u16) -> Seq<char> {
    "http://"@ + ipv4_text(octets) + ":"@ + text::decimal(port as nat)
}

/// The serialized URL of an HTTP endpoint: it has the root path, and the port
/// where it is not the default one of HTTP.
pub open spec fn http_url(octets: [u8; 4], port: u16) -> Seq<char> {
    if port == 80 {
        "http://"@ + ipv4_text(octets) + "/"@
    } else {
        http_endpoint(octets, port) + "/"@
    }
}

/// Calls `url::Url::as_str`, which hands out the serialization of the URL.
#[verifier::external_body]
pub(crate) fn url_as_str(url: &Url) -> (text: &str)
    ensures
        text@ == url_text(*url),
{
    url.as_str()
}

/// Calls `url::Url::clone`. The clone has the same serialization.
#[verifier::external_body]
pub(crate) fn clone_url(url: &Url) -> (copy: Url)
    ensures
        url_text(copy) == url_text(*url),
{
    url.clone()
}

/// Calls `url::Url::parse` on an HTTP endpoint at an IPv4 address in decimal and
/// a port. Such a text parses; its serialization gets the root path and loses
/// the default port.
#[verifier::external_body]
fn parse_url(text: &str) -> (result: Result<Url, ParseError>)
    requires
        exists|octets: [u8; 4], port: u16| text@ == #[trigger] http_endpoint(octets, port),
    ensures
        forall|octets: [u8; 4], port: u16|
            text@ == #[trigger] http_endpoint(octets, port) ==> result is Ok && url_text(
                result->Ok_0,
            ) == http_url(octets, port),
{
    Url::parse(text)
}

/// An IPv4 address in dotted decimal form.
fn dotted_text(octets: [u8; 4]) -> (text: String)
    ensures
        text@ == ipv4_text(octets),
{
    text::decimal_text(octets[0] as u64).concat(".").concat(
        text::decimal_text(octets[1] as u64).as_str(),
    ).concat(".").concat(text::decimal_text(octets[2] as u64).as_str()).concat(".").concat(
        text::decimal_text(octets[3] as u64).as_str(),
    )
}

/// The URL of an HTTP endpoint at an IPv4 address and a port.
pub fn http_endpoint_url(octets: [u8; 4], port: u16) -> (url: Url)
    ensures
        url_text(url) == http_url(octets, port),
{
    let endpoint = "http://".to_owned().concat(dotted_text(octets).as_str()).concat(":").concat(
        text::decimal_text(port as u64).as_str(),
    );
    assert(endpoint@ == http_endpoint(octets, port));
    parse_url(endpoint.as_str()).unwrap()
}

/// The URL of an endpoint begins with the scheme and the first number of the
/// address. It ends with the last number of the address and, unless the port is
/// the default one, the port, and the root path.
pub proof fn law_endpoint_url_shows_address_and_port(octets: [u8; 4], port: u16)
    ensures
        ({
            let url = http_url(octets, port);
            let begin = "http://"@ + text::decimal(octets[0] as nat) + "."@ + text::decimal(
                octets[1] as nat,
            ) + "."@;
            let end = text::decimal(octets[2] as nat) + "."@ + text::decimal(octets[3] as nat) + (
            if port == 80 {
                Seq::<char>::empty()
            } else {
                ":"@ + text::decimal(port as nat)
            }) + "/"@;
            url == begin + end
        }),
{
    let url = http_url(octets, port);
    let begin = "http://"@ + text::decimal(octets[0] as nat) + "."@ + text::decimal(
        octets[1] as nat,
    ) + "."@;
    let end = text::decimal(octets[2] as nat) + "."@ + text::decimal(octets[3] as nat) + (if port
        == 80 {
        Seq::<char>::empty()
    } else {
        ":"@ + text::decimal(port as nat)
    }) + "/"@;
    assert(url =~= begin + end);
}

} // verus!

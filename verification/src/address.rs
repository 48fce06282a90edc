//! Addresses of servers.

use crate::text::same_text;
use vstd::prelude::*;
use vstd::string::StringExecFns;

verus! {

/// The port where an address names none.
pub const DEFAULT_PORT: u16 = 443;

/// What a URL says.
#[derive(Debug)]
pub struct Address {
    pub scheme: String,
    pub host: Option<String>,
    /// The port, where it is not the usual one of the scheme.
    pub port: Option<u16>,
    /// The whole URL.
    pub text: String,
}

/// What an [`Address`] holds.
#[verifier::ext_equal]
pub struct AddressView {
    pub scheme: Seq<char>,
    pub host: Option<Seq<char>>,
    pub port: Option<u16>,
    pub text: Seq<char>,
}

impl View for Address {
    type V = AddressView;

    open spec fn view(&self) -> AddressView {
        AddressView {
            scheme: self.scheme@,
            host: match self.host {
                Some(h) => Some(h@),
                None => None,
            },
            port: self.port,
            text: self.text@,
        }
    }
}

/// What `url::Url::parse` makes of a text, or the text of its error.
pub uninterp spec fn url_of(text: Seq<char>) -> Result<AddressView, Seq<char>>;

/// `url::Url::parse`, and the scheme, host, port and text of what it returns. The
/// result is a function of the text.
#[verifier::external_body]
fn call_parse(text: &str) -> (r: Result<Address, String>)
    ensures
        (match r {
            Ok(a) => Ok(a@),
            Err(e) => Err(e@),
        }) == url_of(text@),
{
    let url = url::Url::parse(text).map_err(|e| e.to_string())?;
    let host = url.host().map(|h| h.to_string());
    let (scheme, port) = (url.scheme().to_string(), url.port());
    Ok(Address { scheme, host, port, text: url.to_string() })
}

/// Reads a URL.
pub fn parse_address(text: &str) -> (r: Result<Address, String>)
    ensures
        (match r {
            Ok(a) => Ok(a@),
            Err(e) => Err(e@),
        }) == url_of(text@),
{
    call_parse(text)
}

/// The port that a URL names, if it is one and names one.
pub fn get_port(text: &str) -> (r: Option<u16>)
    ensures
        r == (match url_of(text@) {
            Ok(a) => a.port,
            Err(_) => None,
        }),
{
    match parse_address(text) {
        Ok(a) => a.port,
        Err(_) => None,
    }
}

/// How to talk to a server.
#[derive(Clone, Copy, Debug, PartialEq, Eq, Structural)]
pub enum Transport {
    /// WebTransport over HTTP/3.
    WebTransport,
    /// QUIC itself.
    Quic,
}

/// How to talk to a server, by the scheme of its address.
pub open spec fn transport_of(scheme: Seq<char>) -> Option<Transport> {
    if scheme == "https"@ {
        Some(Transport::WebTransport)
    } else if scheme == "moqt"@ {
        Some(Transport::Quic)
    } else {
        None
    }
}

/// How to talk to a server, by the scheme of its address.
pub fn get_transport(scheme: &String) -> (r: Option<Transport>)
    ensures
        r == transport_of(scheme@),
{
    if same_text(scheme.as_str(), "https") {
        Some(Transport::WebTransport)
    } else if same_text(scheme.as_str(), "moqt") {
        Some(Transport::Quic)
    } else {
        None
    }
}

/// Takes an address that can be talked to; any other is refused in words.
pub fn check_scheme(a: Address) -> (r: Result<Address, String>)
    ensures
        match transport_of(a@.scheme) {
            Some(_) => r == Ok::<Address, String>(a),
            None => r matches Err(e) && e@
                == "url scheme must be https:// for WebTransport & moqt:// for QUIC"@,
        },
{
    match get_transport(&a.scheme) {
        Some(_) => Ok(a),
        None => Err(
            String::from_str("url scheme must be https:// for WebTransport & moqt:// for QUIC"),
        ),
    }
}

/// Reads the URL of a server that can be talked to.
pub fn moq_url(text: &str) -> (r: Result<Address, String>)
    ensures
        match url_of(text@) {
            Err(e) => r matches Err(x) && x@ == e,
            Ok(v) => match transport_of(v.scheme) {
                Some(_) => r matches Ok(a) && a@ == v,
                None => r matches Err(e) && e@
                    == "url scheme must be https:// for WebTransport & moqt:// for QUIC"@,
            },
        },
{
    match parse_address(text) {
        Err(e) => Err(e),
        Ok(a) => check_scheme(a),
    }
}

/// Where and how to connect.
#[derive(Debug)]
pub struct Target {
    pub transport: Transport,
    pub host: String,
    pub port: u16,
}

/// Why an address cannot be connected to.
#[derive(Clone, Copy, Debug, PartialEq, Eq, Structural)]
pub enum TargetError {
    /// The scheme is neither `https` nor `moqt`.
    Scheme,
    /// There is no host.
    Host,
}

/// Where and how to connect to an address.
pub fn connect_target(a: &Address) -> (r: Result<Target, TargetError>)
    ensures
        match (transport_of(a@.scheme), a@.host) {
            (None, _) => r == Err::<Target, TargetError>(TargetError::Scheme),
            (Some(_), None) => r == Err::<Target, TargetError>(TargetError::Host),
            (Some(transport), Some(host)) => {
                &&& r matches Ok(t)
                &&& t.transport == transport
                &&& t.host@ == host
                &&& t.port == (match a@.port {
                    Some(p) => p,
                    None => DEFAULT_PORT,
                })
            },
        },
{
    let transport: Transport = match get_transport(&a.scheme) {
        Some(t) => t,
        None => {
            return Err(TargetError::Scheme);
        },
    };
    match &a.host {
        None => Err(TargetError::Host),
        Some(h) => Ok(
            Target {
                transport,
                host: h.clone(),
                port: match a.port {
                    Some(p) => p,
                    None => DEFAULT_PORT,
                },
            },
        ),
    }
}

/// `https` is WebTransport and `moqt` is QUIC; nothing else can be talked to.
pub proof fn schemes_tell_the_transport(scheme: String, r: Option<Transport>)
    requires
        call_ensures(get_transport, (&scheme,), r),
    ensures
        (r == Some(Transport::WebTransport)) == (scheme@ == "https"@),
        (r == Some(Transport::Quic)) == (scheme@ == "moqt"@),
{
    reveal_strlit("https");
    reveal_strlit("moqt");
    if scheme@ == "moqt"@ {
        assert("moqt"@.len() != "https"@.len());
    }
}

/// The URL of a server is taken as it was read where its scheme can be talked to, and
/// refused otherwise, for what is wrong with it.
pub proof fn a_server_needs_a_scheme_that_is_spoken(
    text: &str,
    read: Result<Address, String>,
    r: Result<Address, String>,
    a: Address,
    c: Result<Address, String>,
)
    requires
        call_ensures(parse_address, (text,), read),
        call_ensures(moq_url, (text,), r),
        call_ensures(check_scheme, (a,), c),
    ensures
        r is Ok == (read matches Ok(x) && (x@.scheme == "https"@ || x@.scheme == "moqt"@)),
        r matches Ok(x) ==> (read matches Ok(y) && x@ == y@),
        r matches Err(e) ==> (match read {
            Err(why) => e@ == why@,
            Ok(_) => e@ == "url scheme must be https:// for WebTransport & moqt:// for QUIC"@,
        }),
        c is Ok == (a@.scheme == "https"@ || a@.scheme == "moqt"@),
        c matches Ok(x) ==> x == a,
{
}

/// A server is connected to at its host and port, where no port is 443, in the way of
/// its scheme. Without such a scheme, or without a host, it cannot be.
pub proof fn a_server_is_connected_to_at_its_host(a: Address, r: Result<Target, TargetError>)
    requires
        call_ensures(connect_target, (&a,), r),
    ensures
        ({
            let web = a.scheme@ == "https"@;
            let quic = a.scheme@ == "moqt"@;
            &&& r is Ok == ((web || quic) && a.host is Some)
            &&& !web && !quic ==> r == Err::<Target, TargetError>(TargetError::Scheme)
            &&& (web || quic) && a.host is None ==> r == Err::<Target, TargetError>(
                TargetError::Host,
            )
            &&& r matches Ok(t) ==> {
                &&& web ==> t.transport == Transport::WebTransport
                &&& !web ==> t.transport == Transport::Quic
                &&& t.host@ == a.host->Some_0@
                &&& a.port matches Some(p) ==> t.port == p
                &&& a.port is None ==> t.port == 443
            }
        }),
{
}

/// The port of a text is that of the address that it is.
pub proof fn a_port_is_that_of_the_address(
    text: &str,
    read: Result<Address, String>,
    r: Option<u16>,
)
    requires
        call_ensures(parse_address, (text,), read),
        call_ensures(get_port, (text,), r),
    ensures
        read matches Ok(a) ==> r == a.port,
        read is Err ==> r is None,
{
}

} // verus!

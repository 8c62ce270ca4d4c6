//! Where a display is reached: its number, its local socket, its TCP
//! endpoint, and the order in which the two are tried.

use vstd::prelude::*;
use vstd::string::StrSliceExecFns;
use vstd::string::StringExecFns;

verus! {

/// True for the ten decimal digits.
pub open spec fn is_digit(c: char) -> bool {
    '0' <= c <= '9'
}

/// The number that a decimal digit stands for.
pub open spec fn digit_value(c: char) -> nat
    recommends
        is_digit(c),
{
    (c as nat - '0' as nat) as nat
}

/// True when `text` consists of decimal digits only.
pub open spec fn all_digits(text: Seq<char>) -> bool {
    forall|i: int| 0 <= i < text.len() ==> is_digit(#[trigger] text[i])
}

/// The number that a sequence of decimal digits stands for.
pub open spec fn decimal_value(digits: Seq<char>) -> nat
    decreases digits.len(),
{
    if digits.len() == 0 {
        0
    } else {
        10 * decimal_value(digits.drop_last()) + digit_value(digits.last())
    }
}

/// `text` without the colons that it starts with.
pub open spec fn trim_colons(text: Seq<char>) -> Seq<char>
    decreases text.len(),
{
    if text.len() > 0 && text[0] == ':' {
        trim_colons(text.skip(1))
    } else {
        text
    }
}

/// `text` without the plus sign that it may start with.
pub open spec fn unsigned(text: Seq<char>) -> Seq<char> {
    if text.len() > 0 && text[0] == '+' {
        text.skip(1)
    } else {
        text
    }
}

/// The number that `text` spells: one or more decimal digits, with or
/// without a plus sign before them, and a value of at most 255. Nothing
/// where `text` spells no such number.
pub open spec fn spec_parse_u8(text: Seq<char>) -> Option<u8> {
    let digits = unsigned(text);
    if digits.len() > 0 && all_digits(digits) && decimal_value(digits) <= u8::MAX {
        Some(decimal_value(digits) as u8)
    } else {
        None
    }
}

/// A number does not get smaller when digits follow.
pub proof fn lemma_decimal_value_grows(digits: Seq<char>, k: int)
    requires
        0 <= k <= digits.len(),
    ensures
        decimal_value(digits.take(k)) <= decimal_value(digits),
    decreases digits.len() - k,
{
    if k == digits.len() {
        assert(digits.take(k) =~= digits);
    } else {
        lemma_decimal_value_grows(digits, k + 1);
        assert(digits.take(k + 1).drop_last() =~= digits.take(k));
    }
}

/// Reads the number that the characters of `text` from index `from` on
/// spell.
pub fn parse_u8(text: &str, from: usize) -> (r: Option<u8>)
    requires
        from <= text@.len(),
    ensures
        r == spec_parse_u8(text@.skip(from as int)),
{
    let len = text.unicode_len();
    let ghost whole = text@.skip(from as int);
    let mut at = from;
    if at < len && text.get_char(at) == '+' {
        at += 1;
    }
    let ghost digits = unsigned(whole);
    proof {
        assert(digits =~= text@.skip(at as int));
    }
    if at == len {
        return None;
    }
    let start = at;
    let mut value: u16 = 0;
    proof {
        assert(digits.take(0) =~= Seq::<char>::empty());
    }
    while at < len
        invariant
            start <= at <= len,
            len == text@.len(),
            digits == text@.skip(start as int),
            digits == unsigned(text@.skip(from as int)),
            all_digits(digits.take(at - start)),
            value == decimal_value(digits.take(at - start)),
            value <= u8::MAX,
        decreases len - at,
    {
        let c = text.get_char(at);
        proof {
            assert(c == digits[at - start]);
        }
        if c < '0' || c > '9' {
            proof {
                assert(!is_digit(digits[at - start]));
            }
            return None;
        }
        let digit = (c as u32 - '0' as u32) as u16;
        proof {
            let longer = digits.take(at - start + 1);
            assert(longer.drop_last() =~= digits.take(at - start));
            assert(longer.last() == c);
            assert(all_digits(longer)) by {
                assert forall|i: int| 0 <= i < longer.len() implies is_digit(
                    #[trigger] longer[i],
                ) by {
                    if i < at - start {
                        assert(longer[i] == digits.take(at - start)[i]);
                    }
                }
            }
            lemma_decimal_value_grows(digits, at - start + 1);
        }
        value = 10 * value + digit;
        if value > 255 {
            return None;
        }
        at += 1;
    }
    proof {
        assert(digits.take(at - start) =~= digits);
    }
    Some(value as u8)
}

/// The decimal digit for a number below ten.
pub open spec fn digit_char(d: nat) -> char
    recommends
        d < 10,
{
    ('0' as nat + d) as char
}

/// The decimal digits of `n`, without leading zeros.
pub open spec fn decimal_text(n: nat) -> Seq<char>
    decreases n,
{
    if n < 10 {
        seq![digit_char(n)]
    } else {
        decimal_text(n / 10).push(digit_char(n % 10))
    }
}

/// The digits of a number are digits, and they spell that number.
pub proof fn lemma_decimal_text_value(n: nat)
    ensures
        decimal_text(n).len() > 0,
        all_digits(decimal_text(n)),
        decimal_value(decimal_text(n)) == n,
        n > 0 ==> decimal_text(n)[0] != '0',
    decreases n,
{
    if n < 10 {
        let text = decimal_text(n);
        assert(text.drop_last() =~= Seq::<char>::empty());
        assert(decimal_value(text.drop_last()) == 0);
    } else {
        lemma_decimal_text_value(n / 10);
        let front = decimal_text(n / 10);
        let text = decimal_text(n);
        assert(text.drop_last() =~= front);
        assert(text.last() == digit_char(n % 10));
        assert forall|i: int| 0 <= i < text.len() implies is_digit(#[trigger] text[i]) by {
            if i < front.len() {
                assert(text[i] == front[i]);
            }
        }
        assert(text[0] == front[0]);
    }
}

/// A number of at most 255 that was written in decimal is read back.
pub proof fn lemma_parse_u8_round_trip(n: u8)
    ensures
        spec_parse_u8(decimal_text(n as nat)) == Some(n),
{
    lemma_decimal_text_value(n as nat);
    assert(decimal_text(n as nat)[0] != '+');
}

/// The text of one decimal digit.
fn digit_str(d: u8) -> (text: &'static str)
    requires
        d < 10,
    ensures
        text@ == seq![digit_char(d as nat)],
{
    proof {
        reveal_strlit("0");
        reveal_strlit("1");
        reveal_strlit("2");
        reveal_strlit("3");
        reveal_strlit("4");
        reveal_strlit("5");
        reveal_strlit("6");
        reveal_strlit("7");
        reveal_strlit("8");
        reveal_strlit("9");
    }
    let text = match d {
        0 => "0",
        1 => "1",
        2 => "2",
        3 => "3",
        4 => "4",
        5 => "5",
        6 => "6",
        7 => "7",
        8 => "8",
        _ => "9",
    };
    proof {
        assert(text@ =~= seq![digit_char(d as nat)]);
    }
    text
}

/// Appends the decimal digits of `n` to `text`.
pub fn push_decimal(text: &mut String, n: u16)
    ensures
        final(text)@ == old(text)@ + decimal_text(n as nat),
    decreases n,
{
    if n >= 10 {
        push_decimal(text, n / 10);
    }
    text.append(digit_str((n % 10) as u8));
    proof {
        assert(text@ =~= old(text)@ + decimal_text(n as nat));
    }
}

/// The address of the host on which a display is reached over TCP.
pub open spec fn spec_host() -> Seq<char> {
    "127.0.0.1"@
}

/// The TCP port of display 0.
pub const BASE_PORT: u16 = 6000;

/// The path of the local socket of a display, without the display's number.
pub open spec fn spec_socket_prefix() -> Seq<char> {
    "/tmp/.X11-unix/X"@
}

/// Where a display is reached.
#[derive(Debug)]
pub struct XConf {
    pub display_number: u8,
    pub host: String,
    pub port: u16,
    pub socket_path: String,
}

/// What an [`XConf`] holds.
pub ghost struct XConfView {
    pub display_number: u8,
    pub host: Seq<char>,
    pub port: u16,
    pub socket_path: Seq<char>,
}

impl View for XConf {
    type V = XConfView;

    open spec fn view(&self) -> XConfView {
        XConfView {
            display_number: self.display_number,
            host: self.host@,
            port: self.port,
            socket_path: self.socket_path@,
        }
    }
}

/// The number of the display that `name` names: what stands behind the
/// leading colons, if that spells a number of at most 255, and 0 otherwise.
pub open spec fn spec_display_number(name: Seq<char>) -> u8 {
    match spec_parse_u8(trim_colons(name)) {
        Some(n) => n,
        None => 0,
    }
}

/// Where the display with the given number is reached: the local socket
/// whose path ends in the number, and the TCP port that lies the number
/// above the base port.
pub open spec fn spec_conf(display_number: u8) -> XConfView {
    XConfView {
        display_number,
        host: spec_host(),
        port: (BASE_PORT + display_number) as u16,
        socket_path: spec_socket_prefix() + decimal_text(display_number as nat),
    }
}

/// Where the display that `display_name` names is reached. A name that
/// spells no display number names display 0.
pub fn parse_conf(display_name: String) -> (conf: XConf)
    ensures
        conf@ == spec_conf(spec_display_number(display_name@)),
{
    let name = display_name.as_str();
    let len = name.unicode_len();
    let mut at: usize = 0;
    proof {
        assert(name@.skip(0) =~= name@);
    }
    while at < len && name.get_char(at) == ':'
        invariant
            at <= len,
            len == name@.len(),
            trim_colons(name@) == trim_colons(name@.skip(at as int)),
        decreases len - at,
    {
        proof {
            assert(name@.skip(at as int).skip(1) =~= name@.skip(at + 1));
        }
        at += 1;
    }
    let display_number = match parse_u8(name, at) {
        Some(n) => n,
        None => 0,
    };
    let mut socket_path = String::from_str("/tmp/.X11-unix/X");
    push_decimal(&mut socket_path, display_number as u16);
    XConf {
        display_number,
        host: String::from_str("127.0.0.1"),
        port: BASE_PORT + display_number as u16,
        socket_path,
    }
}

/// A place at which a connection to the display can be tried.
#[derive(Debug)]
pub enum Endpoint {
    /// The local socket with the given path.
    Unix(String),
    /// The TCP port of the given host.
    Tcp(String, u16),
}

/// What an [`Endpoint`] holds.
pub ghost enum EndpointView {
    Unix(Seq<char>),
    Tcp(Seq<char>, u16),
}

impl View for Endpoint {
    type V = EndpointView;

    open spec fn view(&self) -> EndpointView {
        match self {
            Endpoint::Unix(path) => EndpointView::Unix(path@),
            Endpoint::Tcp(host, port) => EndpointView::Tcp(host@, *port),
        }
    }
}

/// The endpoint to try once the attempt at `failed` has failed: the TCP
/// endpoint after the local socket, and none after the TCP endpoint.
pub open spec fn spec_fallback(conf: XConfView, failed: EndpointView) -> Option<EndpointView> {
    match failed {
        EndpointView::Unix(_) => Some(EndpointView::Tcp(conf.host, conf.port)),
        EndpointView::Tcp(_, _) => None,
    }
}

/// An endpoint or none, taken by what it holds.
pub open spec fn endpoint_view(endpoint: Option<Endpoint>) -> Option<EndpointView> {
    match endpoint {
        Some(e) => Some(e@),
        None => None,
    }
}

impl XConf {
    /// The endpoint to try first: the local socket.
    pub fn first_endpoint(&self) -> (endpoint: Endpoint)
        ensures
            endpoint@ == EndpointView::Unix(self.socket_path@),
    {
        Endpoint::Unix(self.socket_path.clone())
    }

    /// The endpoint to try once the attempt at `failed` has failed, or none
    /// when the display cannot be reached.
    pub fn fallback(&self, failed: &Endpoint) -> (next: Option<Endpoint>)
        ensures
            endpoint_view(next) == spec_fallback(self@, failed@),
    {
        match failed {
            Endpoint::Unix(_) => Some(Endpoint::Tcp(self.host.clone(), self.port)),
            Endpoint::Tcp(_, _) => None,
        }
    }
}

/// The text by which an endpoint is addressed: the path of a local socket,
/// or host, colon and port of a TCP endpoint.
pub open spec fn spec_address(endpoint: EndpointView) -> Seq<char> {
    match endpoint {
        EndpointView::Unix(path) => path,
        EndpointView::Tcp(host, port) => host + seq![':'] + decimal_text(port as nat),
    }
}

impl Endpoint {
    /// The text by which this endpoint is addressed.
    pub fn address(&self) -> (address: String)
        ensures
            address@ == spec_address(self@),
    {
        match self {
            Endpoint::Unix(path) => path.clone(),
            Endpoint::Tcp(host, port) => {
                let mut address = host.clone();
                proof {
                    reveal_strlit(":");
                    assert(":"@ =~= seq![':']);
                }
                address.append(":");
                push_decimal(&mut address, *port);
                address
            },
        }
    }
}

/// When the local socket of a display fails, the TCP endpoint of that
/// display on this host is tried next: the port that lies the display's
/// number above the base port. After the TCP endpoint nothing is tried.
pub proof fn lemma_fallback_is_tcp(name: Seq<char>, path: Seq<char>)
    ensures
        spec_fallback(spec_conf(spec_display_number(name)), EndpointView::Unix(path)) == Some(
            EndpointView::Tcp(spec_host(), (BASE_PORT + spec_display_number(name)) as u16),
        ),
        spec_address(
            spec_fallback(
                spec_conf(spec_display_number(name)),
                EndpointView::Unix(path),
            )->Some_0,
        ) == spec_host() + seq![':'] + decimal_text(
            (BASE_PORT + spec_display_number(name)) as nat,
        ),
        forall|host: Seq<char>, port: u16| #[trigger]
            spec_fallback(
                spec_conf(spec_display_number(name)),
                EndpointView::Tcp(host, port),
            ) is None,
{
}

/// The states of a transport.
#[derive(Clone, Copy, Debug, PartialEq, Eq, Structural)]
pub enum StreamState {
    Unopened,
    Connected,
    Closed,
}

/// The failures of a transport.
#[derive(Clone, Copy, Debug, PartialEq, Eq, Structural)]
pub enum TransportError {
    /// A read or a write on a transport that is not connected.
    NotConnected,
    /// Neither the local socket nor the TCP endpoint took the connection.
    ConnectFailed,
}

impl StreamState {
    /// The state after an attempt to connect: a transport that was not
    /// opened yet is connected if the attempt succeeded.
    pub fn after_connect(self, succeeded: bool) -> (next: StreamState)
        ensures
            next == if self == StreamState::Unopened && succeeded {
                StreamState::Connected
            } else {
                self
            },
    {
        match self {
            StreamState::Unopened => if succeeded {
                StreamState::Connected
            } else {
                StreamState::Unopened
            },
            other => other,
        }
    }

    /// The state after the transport is shut: a connected transport is
    /// closed, and one that was never opened stays so.
    pub fn after_close(self) -> (next: StreamState)
        ensures
            next == if self == StreamState::Connected {
                StreamState::Closed
            } else {
                self
            },
    {
        match self {
            StreamState::Connected => StreamState::Closed,
            other => other,
        }
    }

    /// Reads and writes are for a connected transport only.
    pub fn ready(&self) -> (r: Result<(), TransportError>)
        ensures
            *self == StreamState::Connected ==> r == Ok::<(), TransportError>(()),
            *self != StreamState::Connected ==> r == Err::<(), TransportError>(
                TransportError::NotConnected,
            ),
    {
        match self {
            StreamState::Connected => Ok(()),
            _ => Err(TransportError::NotConnected),
        }
    }
}

} // verus!

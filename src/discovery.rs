use vstd::prelude::*;
use crate::channels::text_eq;
use crate::config::ConfigError;

verus! {

/// The decimal digit `d` as a character.
pub open spec fn digit_char(d: nat) -> char {
    if d == 0 {
        '0'
    } else if d == 1 {
        '1'
    } else if d == 2 {
        '2'
    } else if d == 3 {
        '3'
    } else if d == 4 {
        '4'
    } else if d == 5 {
        '5'
    } else if d == 6 {
        '6'
    } else if d == 7 {
        '7'
    } else if d == 8 {
        '8'
    } else {
        '9'
    }
}

/// `n` written in decimal, without leading zeros.
pub open spec fn decimal(n: nat) -> Seq<char>
    decreases n,
{
    if n < 10 {
        seq![digit_char(n)]
    } else {
        decimal(n / 10).push(digit_char(n % 10))
    }
}

/// The host to connect to: a wildcard or local bind address is reached
/// through `localhost`, any other through itself.
pub open spec fn host_for(bind_address: Seq<char>) -> Seq<char> {
    if bind_address == "0.0.0.0"@ || bind_address == "localhost"@ {
        "localhost"@
    } else {
        bind_address
    }
}

/// The address of the device's websocket interface.
pub open spec fn websocket_url(bind_address: Seq<char>, port: u16) -> Seq<char> {
    "ws://"@ + host_for(bind_address) + ":"@ + decimal(port as nat) + "/api/websocket"@
}

fn digit_str(d: u16) -> (r: &'static str)
    requires
        d < 10,
    ensures
        r@ == seq![digit_char(d as nat)],
{
    proof {
        reveal_strlit("0");
        reveal_strlit("1");
        reveal_strlit("2");
        reveal_strlit("3");
        reveal_strlit("4");
        reveal_strlit("5");
        reveal_strlit("6");
        reveal_strlit("7");
        reveal_strlit("8");
        reveal_strlit("9");
    }
    if d == 0 {
        "0"
    } else if d == 1 {
        "1"
    } else if d == 2 {
        "2"
    } else if d == 3 {
        "3"
    } else if d == 4 {
        "4"
    } else if d == 5 {
        "5"
    } else if d == 6 {
        "6"
    } else if d == 7 {
        "7"
    } else if d == 8 {
        "8"
    } else {
        "9"
    }
}

/// Writes `n` in decimal.
pub fn decimal_string(n: u16) -> (r: String)
    ensures
        r@ == decimal(n as nat),
    decreases n,
{
    if n < 10 {
        String::from_str(digit_str(n))
    } else {
        let mut s = decimal_string(n / 10);
        s.append(digit_str(n % 10));
        s
    }
}

/// Where to reach the device's websocket interface, given what its daemon
/// reports; fails when the interface is switched off.
pub fn websocket_address(enabled: bool, bind_address: &str, port: u16) -> (r: Result<
    String,
    ConfigError,
>)
    ensures
        enabled ==> (r matches Ok(url) && url@ == websocket_url(bind_address@, port)),
        !enabled ==> r == Err::<String, _>(ConfigError::WebsocketDisabled),
{
    if !enabled {
        return Err(ConfigError::WebsocketDisabled);
    }
    let mut url = String::from_str("ws://");
    if text_eq(bind_address, "0.0.0.0") || text_eq(bind_address, "localhost") {
        url.append("localhost");
    } else {
        url.append(bind_address);
    }
    url.append(":");
    let digits = decimal_string(port);
    url.append(digits.as_str());
    url.append("/api/websocket");
    Ok(url)
}

} // verus!

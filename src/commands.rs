use vstd::prelude::*;
use vstd::string::StringExecFns;
use crate::text::{decimal, decimal_string, same_text};

verus! {

/// The handshake that a device answers with its identity.
pub const HANDSHAKE: &'static str = "ping";

/// The text that identifies the device in its reply to the handshake.
pub const DEVICE_IDENTITY: &'static str = "SECoT";

pub const STATUS_COMMAND: &'static str = "status";

pub const SCAN_WIFI_COMMAND: &'static str = "scan wifi";

pub const SCAN_MQTT_COMMAND: &'static str = "scan mqtt";

/// The output format that renders device replies as JSON.
pub const JSON_FORMAT: &'static str = "json";

/// The command that starts an attack, for `duration` seconds when given:
/// "attack <type>" or "attack <type> <duration>".
pub fn attack_command(attack_type: &str, duration: Option<u32>) -> (r: String)
    ensures
        r@ == "attack "@ + attack_type@ + match duration {
            Some(d) => " "@ + decimal(d as nat),
            None => Seq::empty(),
        },
{
    let mut out = String::from_str("attack ");
    out.append(attack_type);
    match duration {
        Some(d) => {
            out.append(" ");
            let digits = decimal_string(d as u64);
            out.append(digits.as_str());
        },
        None => {
            assert(out@ + Seq::<char>::empty() =~= out@);
        },
    }
    out
}

/// The command that stops one attack, or all of them: "stop <type>" or "stop".
pub fn stop_command(attack_type: Option<&str>) -> (r: String)
    ensures
        r@ == match attack_type {
            Some(t) => "stop "@ + t@,
            None => "stop"@,
        },
{
    match attack_type {
        Some(t) => {
            let mut out = String::from_str("stop ");
            out.append(t);
            out
        },
        None => String::from_str("stop"),
    }
}

/// The command that sets a parameter of an attack: "set <attack> <param> <value>".
pub fn set_command(attack: &str, param: &str, value: &str) -> (r: String)
    ensures
        r@ == "set "@ + attack@ + " "@ + param@ + " "@ + value@,
{
    let mut out = String::from_str("set ");
    out.append(attack);
    out.append(" ");
    out.append(param);
    out.append(" ");
    out.append(value);
    out
}

/// The command that reads a parameter of an attack: "get <attack> <param>".
pub fn get_command(attack: &str, param: &str) -> (r: String)
    ensures
        r@ == "get "@ + attack@ + " "@ + param@,
{
    let mut out = String::from_str("get ");
    out.append(attack);
    out.append(" ");
    out.append(param);
    out
}

/// The indented rendering that JSON parsing and pretty printing make of
/// `text`, when it is a JSON document.
pub uninterp spec fn json_pretty(text: Seq<char>) -> Option<Seq<char>>;

/// Relies on `serde_json::from_str` into a `Value` and on
/// `serde_json::to_string_pretty`: `None` when `text` is no JSON document,
/// else its indented rendering, which depends on the text alone.
#[verifier::external_body]
fn pretty_json(text: &str) -> (r: Option<String>)
    ensures
        r is None <==> json_pretty(text@) is None,
        r matches Some(p) ==> json_pretty(text@) == Some(p@),
{
    let value: serde_json::Value = serde_json::from_str(text).ok()?;
    serde_json::to_string_pretty(&value).ok()
}

/// What a device reply renders to: in JSON output a reply that is a JSON
/// document is shown indented; anything else is shown as received.
pub open spec fn rendered(reply: Seq<char>, format: Seq<char>, pretty: Option<Seq<char>>) -> Seq<
    char,
> {
    if format == JSON_FORMAT@ {
        match pretty {
            Some(p) => p,
            None => reply,
        }
    } else {
        reply
    }
}

/// Renders a device reply for output `format`.
pub fn render_reply(reply: &str, format: &str) -> (r: String)
    ensures
        r@ == rendered(reply@, format@, json_pretty(reply@)),
{
    if same_text(format, JSON_FORMAT) {
        match pretty_json(reply) {
            Some(p) => p,
            None => String::from_str(reply),
        }
    } else {
        String::from_str(reply)
    }
}

/// Renders a device reply from its pretty JSON form, `None` when it is no JSON
/// document.
pub fn render_with(reply: &str, format: &str, pretty: Option<String>) -> (r: String)
    ensures
        r@ == rendered(
            reply@,
            format@,
            match pretty {
                Some(p) => Some(p@),
                None => None,
            },
        ),
{
    if same_text(format, JSON_FORMAT) {
        match pretty {
            Some(p) => p,
            None => String::from_str(reply),
        }
    } else {
        String::from_str(reply)
    }
}

} // verus!

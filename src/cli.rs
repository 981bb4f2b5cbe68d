use vstd::prelude::*;
use crate::text::{same_text, string_from_chars};
use crate::session::DEFAULT_BAUD_RATE;

verus! {

/// A character with the Unicode `White_Space` property.
pub open spec fn is_space(c: char) -> bool {
    let u = c as u32;
    ||| u == 0x20
    ||| 0x09 <= u <= 0x0d
    ||| u == 0x85
    ||| u == 0xa0
    ||| u == 0x1680
    ||| 0x2000 <= u <= 0x200a
    ||| u == 0x2028
    ||| u == 0x2029
    ||| u == 0x202f
    ||| u == 0x205f
    ||| u == 0x3000
}

fn space(c: char) -> (r: bool)
    ensures
        r == is_space(c),
{
    let u = c as u32;
    u == 0x20 || (0x09 <= u && u <= 0x0d) || u == 0x85 || u == 0xa0 || u == 0x1680 || (0x2000
        <= u && u <= 0x200a) || u == 0x2028 || u == 0x2029 || u == 0x202f || u == 0x205f || u
        == 0x3000
}

/// The words completed within `s`, and the word still open at its end.
pub open spec fn scan_words(s: Seq<char>) -> (Seq<Seq<char>>, Seq<char>)
    decreases s.len(),
{
    if s.len() == 0 {
        (Seq::empty(), Seq::empty())
    } else {
        let (done, open) = scan_words(s.drop_last());
        if !is_space(s.last()) {
            (done, open.push(s.last()))
        } else if open.len() > 0 {
            (done.push(open), Seq::empty())
        } else {
            (done, Seq::empty())
        }
    }
}

/// The maximal runs of non-space characters of `s`, in order.
pub open spec fn words(s: Seq<char>) -> Seq<Seq<char>> {
    let (done, open) = scan_words(s);
    if open.len() > 0 {
        done.push(open)
    } else {
        done
    }
}

/// Splits `line` into its whitespace-separated words.
pub fn split_words(line: &str) -> (r: Vec<String>)
    ensures
        r@.map_values(|w: String| w@) == words(line@),
{
    let n = line.unicode_len();
    let mut done: Vec<String> = Vec::new();
    let mut open: Vec<char> = Vec::new();
    let mut i: usize = 0;
    while i < n
        invariant
            n == line@.len(),
            0 <= i <= n,
            scan_words(line@.subrange(0, i as int)) == (done@.map_values(|w: String| w@), open@),
        decreases n - i,
    {
        let c = line.get_char(i);
        let ghost prev = line@.subrange(0, i as int);
        assert(line@.subrange(0, i + 1).drop_last() =~= prev);
        if !space(c) {
            open.push(c);
        } else if open.len() > 0 {
            let ghost d = done@.map_values(|w: String| w@);
            let w = string_from_chars(&open);
            done.push(w);
            open = Vec::new();
            assert(done@.map_values(|w: String| w@) =~= d.push(w@));
        }
        i = i + 1;
    }
    assert(line@.subrange(0, n as int) =~= line@);
    if open.len() > 0 {
        let ghost d = done@.map_values(|w: String| w@);
        let w = string_from_chars(&open);
        done.push(w);
        assert(done@.map_values(|w: String| w@) =~= d.push(w@));
    }
    done
}

/// The value of the decimal digits `d`, most significant first.
pub open spec fn digits_value(d: Seq<char>) -> nat
    decreases d.len(),
{
    if d.len() == 0 {
        0
    } else {
        digits_value(d.drop_last()) * 10 + ((d.last() as u32) - 48) as nat
    }
}

pub open spec fn all_digits(d: Seq<char>) -> bool {
    forall|i: int| 0 <= i < d.len() ==> '0' <= #[trigger] d[i] <= '9'
}

/// The number `t` writes: an optional plus sign and at least one decimal
/// digit, with a value that fits in 32 bits.
pub open spec fn u32_of(t: Seq<char>) -> Option<u32> {
    let d = if t.len() > 0 && t[0] == '+' {
        t.drop_first()
    } else {
        t
    };
    if d.len() > 0 && all_digits(d) && digits_value(d) <= u32::MAX {
        Some(digits_value(d) as u32)
    } else {
        None
    }
}

/// Reads an unsigned 32-bit number written in decimal.
pub fn parse_u32(t: &str) -> (r: Option<u32>)
    ensures
        r == u32_of(t@),
{
    let n = t.unicode_len();
    let mut i: usize = 0;
    if n > 0 && t.get_char(0) == '+' {
        i = 1;
    }
    let ghost d = if t@.len() > 0 && t@[0] == '+' {
        t@.drop_first()
    } else {
        t@
    };
    assert(d =~= t@.subrange(i as int, n as int));
    if i == n {
        return None;
    }
    let start = i;
    let mut value: u64 = 0;
    while i < n
        invariant
            n == t@.len(),
            start <= i <= n,
            d == t@.subrange(start as int, n as int),
            d == (if t@.len() > 0 && t@[0] == '+' {
                t@.drop_first()
            } else {
                t@
            }),
            all_digits(t@.subrange(start as int, i as int)),
            value == digits_value(t@.subrange(start as int, i as int)),
            value <= u32::MAX,
        decreases n - i,
    {
        let c = t.get_char(i);
        let ghost prev = t@.subrange(start as int, i as int);
        assert(t@.subrange(start as int, i + 1) =~= prev.push(c));
        assert(t@.subrange(start as int, i + 1).drop_last() =~= prev);
        if c < '0' || c > '9' {
            assert(d[i - start] == c);
            assert(!('0' <= d[i - start] <= '9'));
            assert(!all_digits(d));
            return None;
        }
        let next = value * 10 + (c as u64 - 48);
        if next > 4294967295u64 {
            proof {
                if all_digits(d) {
                    lemma_digits_grow(d, (i + 1 - start) as int);
                    assert(d.subrange(0, (i + 1 - start) as int) =~= t@.subrange(start as int, i + 1));
                }
            }
            return None;
        }
        value = next;
        i = i + 1;
    }
    assert(t@.subrange(start as int, n as int) =~= d);
    Some(value as u32)
}

/// A number never shrinks when digits are appended.
proof fn lemma_digits_grow(d: Seq<char>, k: int)
    requires
        0 <= k <= d.len(),
        all_digits(d),
    ensures
        digits_value(d.subrange(0, k)) <= digits_value(d),
    decreases d.len() - k,
{
    if k < d.len() {
        lemma_digits_grow(d, k + 1);
        let p = d.subrange(0, k + 1);
        assert(p.drop_last() =~= d.subrange(0, k));
        assert('0' <= p.last() <= '9');
        let v = digits_value(d.subrange(0, k));
        assert(v * 10 >= v) by (nonlinear_arith);
    } else {
        assert(d.subrange(0, k) =~= d);
    }
}

/// One command of the interactive console.
#[derive(Clone, Debug, PartialEq, Eq)]
pub enum CliCommand {
    Help,
    Exit,
    SetOutput(String),
    ScanPorts(String),
    ScanNetwork(String),
    BrokerTest(String),
    SerialList,
    SerialConnect { port: String, baud_rate: u32 },
    SerialDisconnect,
    SerialStatus,
    SecotScanWifi,
    SecotScanMqtt,
    SecotAttack { attack_type: String, duration: Option<u32> },
    SecotStop(Option<String>),
    SecotStatus,
    SecotSet { attack: String, param: String, value: String },
    SecotGet { attack: String, param: String },
}

/// Why a console line is not a command.
#[derive(PartialEq, Eq, Structural, Clone, Copy, Debug)]
pub enum ParseError {
    InvalidBaudRate,
    InvalidDuration,
    InvalidOutputFormat,
    Unknown,
}

pub open spec fn is_text(a: Option<String>, b: Seq<char>) -> bool {
    a matches Some(x) && x@ == b
}

/// `r` is what the words `ws` of a console line mean.
pub open spec fn parsed(ws: Seq<Seq<char>>, r: Result<CliCommand, ParseError>) -> bool {
    let n = ws.len();
    if n == 1 && ws[0] == "help"@ {
        r == Ok::<CliCommand, ParseError>(CliCommand::Help)
    } else if n == 1 && ws[0] == "exit"@ {
        r == Ok::<CliCommand, ParseError>(CliCommand::Exit)
    } else if n >= 3 && ws[0] == "set"@ && ws[1] == "output"@ {
        if ws[2] == "table"@ || ws[2] == "json"@ {
            r matches Ok(CliCommand::SetOutput(f)) && f@ == ws[2]
        } else {
            r == Err::<CliCommand, ParseError>(ParseError::InvalidOutputFormat)
        }
    } else if n == 3 && ws[0] == "scan"@ && ws[1] == "ports"@ {
        r matches Ok(CliCommand::ScanPorts(a)) && a@ == ws[2]
    } else if n == 3 && ws[0] == "scan"@ && ws[1] == "network"@ {
        r matches Ok(CliCommand::ScanNetwork(a)) && a@ == ws[2]
    } else if n == 3 && ws[0] == "broker"@ && ws[1] == "test"@ {
        r matches Ok(CliCommand::BrokerTest(a)) && a@ == ws[2]
    } else if n == 2 && ws[0] == "serial"@ && ws[1] == "list"@ {
        r == Ok::<CliCommand, ParseError>(CliCommand::SerialList)
    } else if n == 3 && ws[0] == "serial"@ && ws[1] == "connect"@ {
        r matches Ok(CliCommand::SerialConnect { port, baud_rate }) && port@ == ws[2] && baud_rate
            == DEFAULT_BAUD_RATE
    } else if n == 4 && ws[0] == "serial"@ && ws[1] == "connect"@ {
        match u32_of(ws[3]) {
            Some(b) => r matches Ok(CliCommand::SerialConnect { port, baud_rate }) && port@ == ws[2]
                && baud_rate == b,
            None => r == Err::<CliCommand, ParseError>(ParseError::InvalidBaudRate),
        }
    } else if n == 2 && ws[0] == "serial"@ && ws[1] == "disconnect"@ {
        r == Ok::<CliCommand, ParseError>(CliCommand::SerialDisconnect)
    } else if n == 2 && ws[0] == "serial"@ && ws[1] == "status"@ {
        r == Ok::<CliCommand, ParseError>(CliCommand::SerialStatus)
    } else if n == 3 && ws[0] == "secot"@ && ws[1] == "scan"@ && ws[2] == "wifi"@ {
        r == Ok::<CliCommand, ParseError>(CliCommand::SecotScanWifi)
    } else if n == 3 && ws[0] == "secot"@ && ws[1] == "scan"@ && ws[2] == "mqtt"@ {
        r == Ok::<CliCommand, ParseError>(CliCommand::SecotScanMqtt)
    } else if n == 3 && ws[0] == "secot"@ && ws[1] == "attack"@ {
        r matches Ok(CliCommand::SecotAttack { attack_type, duration }) && attack_type@ == ws[2]
            && duration is None
    } else if n == 4 && ws[0] == "secot"@ && ws[1] == "attack"@ {
        match u32_of(ws[3]) {
            Some(d) => r matches Ok(CliCommand::SecotAttack { attack_type, duration })
                && attack_type@ == ws[2] && duration == Some(d),
            None => r == Err::<CliCommand, ParseError>(ParseError::InvalidDuration),
        }
    } else if n == 2 && ws[0] == "secot"@ && ws[1] == "stop"@ {
        r == Ok::<CliCommand, ParseError>(CliCommand::SecotStop(None))
    } else if n == 3 && ws[0] == "secot"@ && ws[1] == "stop"@ {
        r matches Ok(CliCommand::SecotStop(t)) && is_text(t, ws[2])
    } else if n == 2 && ws[0] == "secot"@ && ws[1] == "status"@ {
        r == Ok::<CliCommand, ParseError>(CliCommand::SecotStatus)
    } else if n == 5 && ws[0] == "secot"@ && ws[1] == "set"@ {
        r matches Ok(CliCommand::SecotSet { attack, param, value }) && attack@ == ws[2] && param@
            == ws[3] && value@ == ws[4]
    } else if n == 4 && ws[0] == "secot"@ && ws[1] == "get"@ {
        r matches Ok(CliCommand::SecotGet { attack, param }) && attack@ == ws[2] && param@ == ws[3]
    } else {
        r == Err::<CliCommand, ParseError>(ParseError::Unknown)
    }
}

fn word_is(w: &String, lit: &str) -> (r: bool)
    ensures
        r == (w@ == lit@),
{
    same_text(w.as_str(), lit)
}

/// Reads one console line: its whitespace-separated words name the command
/// and its arguments.
pub fn parse_command(line: &str) -> (r: Result<CliCommand, ParseError>)
    ensures
        parsed(words(line@), r),
{
    let ws = split_words(line);
    let ghost v = ws@.map_values(|w: String| w@);
    assert(v == words(line@));
    let n = ws.len();
    assert(forall|i: int| 0 <= i < n ==> #[trigger] v[i] == ws@[i]@);
    proof {
        reveal_strlit("help");
        reveal_strlit("exit");
        reveal_strlit("set");
        reveal_strlit("output");
        reveal_strlit("table");
        reveal_strlit("json");
        reveal_strlit("scan");
        reveal_strlit("ports");
        reveal_strlit("network");
        reveal_strlit("broker");
        reveal_strlit("test");
        reveal_strlit("serial");
        reveal_strlit("list");
        reveal_strlit("connect");
        reveal_strlit("disconnect");
        reveal_strlit("status");
        reveal_strlit("secot");
        reveal_strlit("wifi");
        reveal_strlit("mqtt");
        reveal_strlit("attack");
        reveal_strlit("stop");
        reveal_strlit("get");
    }
    if n == 1 && word_is(&ws[0], "help") {
        Ok(CliCommand::Help)
    } else if n == 1 && word_is(&ws[0], "exit") {
        Ok(CliCommand::Exit)
    } else if n >= 3 && word_is(&ws[0], "set") && word_is(&ws[1], "output") {
        if word_is(&ws[2], "table") || word_is(&ws[2], "json") {
            Ok(CliCommand::SetOutput(ws[2].clone()))
        } else {
            Err(ParseError::InvalidOutputFormat)
        }
    } else if n == 3 && word_is(&ws[0], "scan") && word_is(&ws[1], "ports") {
        Ok(CliCommand::ScanPorts(ws[2].clone()))
    } else if n == 3 && word_is(&ws[0], "scan") && word_is(&ws[1], "network") {
        Ok(CliCommand::ScanNetwork(ws[2].clone()))
    } else if n == 3 && word_is(&ws[0], "broker") && word_is(&ws[1], "test") {
        Ok(CliCommand::BrokerTest(ws[2].clone()))
    } else if n == 2 && word_is(&ws[0], "serial") && word_is(&ws[1], "list") {
        Ok(CliCommand::SerialList)
    } else if n == 3 && word_is(&ws[0], "serial") && word_is(&ws[1], "connect") {
        Ok(CliCommand::SerialConnect { port: ws[2].clone(), baud_rate: DEFAULT_BAUD_RATE })
    } else if n == 4 && word_is(&ws[0], "serial") && word_is(&ws[1], "connect") {
        match parse_u32(ws[3].as_str()) {
            Some(b) => Ok(CliCommand::SerialConnect { port: ws[2].clone(), baud_rate: b }),
            None => Err(ParseError::InvalidBaudRate),
        }
    } else if n == 2 && word_is(&ws[0], "serial") && word_is(&ws[1], "disconnect") {
        Ok(CliCommand::SerialDisconnect)
    } else if n == 2 && word_is(&ws[0], "serial") && word_is(&ws[1], "status") {
        Ok(CliCommand::SerialStatus)
    } else if n == 3 && word_is(&ws[0], "secot") && word_is(&ws[1], "scan") && word_is(&ws[2], "wifi") {
        Ok(CliCommand::SecotScanWifi)
    } else if n == 3 && word_is(&ws[0], "secot") && word_is(&ws[1], "scan") && word_is(&ws[2], "mqtt") {
        Ok(CliCommand::SecotScanMqtt)
    } else if n == 3 && word_is(&ws[0], "secot") && word_is(&ws[1], "attack") {
        Ok(CliCommand::SecotAttack { attack_type: ws[2].clone(), duration: None })
    } else if n == 4 && word_is(&ws[0], "secot") && word_is(&ws[1], "attack") {
        match parse_u32(ws[3].as_str()) {
            Some(d) => Ok(CliCommand::SecotAttack { attack_type: ws[2].clone(), duration: Some(d) }),
            None => Err(ParseError::InvalidDuration),
        }
    } else if n == 2 && word_is(&ws[0], "secot") && word_is(&ws[1], "stop") {
        Ok(CliCommand::SecotStop(None))
    } else if n == 3 && word_is(&ws[0], "secot") && word_is(&ws[1], "stop") {
        Ok(CliCommand::SecotStop(Some(ws[2].clone())))
    } else if n == 2 && word_is(&ws[0], "secot") && word_is(&ws[1], "status") {
        Ok(CliCommand::SecotStatus)
    } else if n == 5 && word_is(&ws[0], "secot") && word_is(&ws[1], "set") {
        Ok(
            CliCommand::SecotSet {
                attack: ws[2].clone(),
                param: ws[3].clone(),
                value: ws[4].clone(),
            },
        )
    } else if n == 4 && word_is(&ws[0], "secot") && word_is(&ws[1], "get") {
        Ok(CliCommand::SecotGet { attack: ws[2].clone(), param: ws[3].clone() })
    } else {
        Err(ParseError::Unknown)
    }
}

} // verus!

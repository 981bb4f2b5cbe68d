use vstd::prelude::*;
use vstd::string::StringExecFns;
use crate::cli::{all_digits, digits_value, parse_u32, u32_of};
use crate::text::string_from_chars;

verus! {

/// Hosts probed at most by one network scan.
pub const MAX_SCANNED_HOSTS: u32 = 20;

/// Why a network given as "address/prefix" cannot be scanned.
#[derive(PartialEq, Eq, Structural, Clone, Copy, Debug)]
pub enum CidrError {
    /// The text is not two parts around one slash.
    InvalidFormat,
    /// The prefix length is no number from 0 to 255.
    InvalidNumber,
    /// The prefix length is over 32.
    InvalidPrefix,
    /// The address is no IPv4 address.
    InvalidAddress,
}

/// The pieces of `s` between occurrences of `sep`, and the piece still open
/// at its end.
pub open spec fn scan_pieces(s: Seq<char>, sep: char) -> (Seq<Seq<char>>, Seq<char>)
    decreases s.len(),
{
    if s.len() == 0 {
        (Seq::empty(), Seq::empty())
    } else {
        let (done, open) = scan_pieces(s.drop_last(), sep);
        if s.last() == sep {
            (done.push(open), Seq::empty())
        } else {
            (done, open.push(s.last()))
        }
    }
}

/// The pieces of `s` around each `sep`, empty ones included: one more than
/// there are separators.
pub open spec fn pieces(s: Seq<char>, sep: char) -> Seq<Seq<char>> {
    scan_pieces(s, sep).0.push(scan_pieces(s, sep).1)
}

/// Cuts `s` at each `sep`.
pub fn split_on(s: &str, sep: char) -> (r: Vec<String>)
    ensures
        r@.map_values(|w: String| w@) == pieces(s@, sep),
{
    let n = s.unicode_len();
    let mut done: Vec<String> = Vec::new();
    let mut open: Vec<char> = Vec::new();
    let mut i: usize = 0;
    while i < n
        invariant
            n == s@.len(),
            0 <= i <= n,
            scan_pieces(s@.subrange(0, i as int), sep) == (done@.map_values(|w: String| w@), open@),
        decreases n - i,
    {
        let c = s.get_char(i);
        assert(s@.subrange(0, i + 1).drop_last() =~= s@.subrange(0, i as int));
        if c == sep {
            let ghost d = done@.map_values(|w: String| w@);
            let w = string_from_chars(&open);
            done.push(w);
            open = Vec::new();
            assert(done@.map_values(|w: String| w@) =~= d.push(w@));
        } else {
            open.push(c);
        }
        i = i + 1;
    }
    assert(s@.subrange(0, n as int) =~= s@);
    let ghost d = done@.map_values(|w: String| w@);
    let w = string_from_chars(&open);
    done.push(w);
    assert(done@.map_values(|w: String| w@) =~= d.push(w@));
    done
}

/// One part of a dotted-quad address: one to three digits, no leading zero
/// unless the part is "0", and a value up to 255.
pub open spec fn octet_ok(p: Seq<char>) -> bool {
    &&& 1 <= p.len() <= 3
    &&& all_digits(p)
    &&& (p.len() == 1 || p[0] != '0')
    &&& digits_value(p) <= 255
}

/// The IPv4 address written `text` as four dotted decimal parts, as a 32-bit
/// number with the first part most significant.
pub open spec fn ipv4_value(text: Seq<char>) -> Option<u32> {
    let p = pieces(text, '.');
    if p.len() == 4 && octet_ok(p[0]) && octet_ok(p[1]) && octet_ok(p[2]) && octet_ok(p[3]) {
        Some(
            (digits_value(p[0]) * 0x100_0000 + digits_value(p[1]) * 0x1_0000 + digits_value(p[2])
                * 0x100 + digits_value(p[3])) as u32,
        )
    } else {
        None
    }
}

fn octet(p: &str) -> (r: Option<u32>)
    ensures
        octet_ok(p@) ==> r == Some(digits_value(p@) as u32),
        !octet_ok(p@) ==> r is None,
{
    let n = p.unicode_len();
    if n < 1 || n > 3 {
        return None;
    }
    if n > 1 && p.get_char(0) == '0' {
        return None;
    }
    if p.get_char(0) == '+' {
        assert(!all_digits(p@)) by {
            assert(!('0' <= p@[0] <= '9'));
        }
        return None;
    }
    proof {
        assert(p@.len() > 0 && p@[0] != '+');
    }
    match parse_u32(p) {
        Some(v) => {
            if v <= 255 {
                Some(v)
            } else {
                None
            }
        },
        None => None,
    }
}

/// Reads a dotted-quad IPv4 address.
pub fn parse_ipv4(text: &str) -> (r: Option<u32>)
    ensures
        r == ipv4_value(text@),
{
    let parts = split_on(text, '.');
    let ghost v = parts@.map_values(|w: String| w@);
    if parts.len() != 4 {
        return None;
    }
    assert(forall|i: int| 0 <= i < 4 ==> #[trigger] v[i] == parts@[i]@);
    let a = match octet(parts[0].as_str()) {
        Some(x) => x,
        None => {
            return None;
        },
    };
    let b = match octet(parts[1].as_str()) {
        Some(x) => x,
        None => {
            return None;
        },
    };
    let c = match octet(parts[2].as_str()) {
        Some(x) => x,
        None => {
            return None;
        },
    };
    let d = match octet(parts[3].as_str()) {
        Some(x) => x,
        None => {
            return None;
        },
    };
    Some(a * 0x100_0000 + b * 0x1_0000 + c * 0x100 + d)
}

/// The netmask of a prefix of `prefix` bits.
pub open spec fn mask_of(prefix: u32) -> u32 {
    if prefix == 0 {
        0
    } else {
        (0xffff_ffffu32 << ((32 - prefix) as u32)) as u32
    }
}

/// How many addresses of a network of prefix `prefix` a scan covers, the
/// network address included: the whole network, at most `MAX_SCANNED_HOSTS`.
pub open spec fn scan_span(prefix: u32) -> u32 {
    if prefix <= 27 {
        MAX_SCANNED_HOSTS
    } else if prefix == 28 {
        16
    } else if prefix == 29 {
        8
    } else if prefix == 30 {
        4
    } else if prefix == 31 {
        2
    } else {
        1
    }
}

/// The addresses that follow the network address of `base`/`prefix`, in
/// order, up to the scan's span.
pub open spec fn scan_hosts(base: u32, prefix: u32) -> Seq<u32> {
    Seq::new(
        (scan_span(prefix) - 1) as nat,
        |i: int| ((base & mask_of(prefix)) + 1 + i) as u32,
    )
}

/// The host addresses a scan of `base`/`prefix` probes.
pub fn host_addresses(base: u32, prefix: u32) -> (r: Vec<u32>)
    requires
        prefix <= 32,
    ensures
        r@ == scan_hosts(base, prefix),
{
    let mask: u32 = if prefix == 0 {
        0
    } else {
        0xffff_ffffu32 << (32 - prefix)
    };
    let network = base & mask;
    let span: u32 = if prefix <= 27 {
        MAX_SCANNED_HOSTS
    } else if prefix == 28 {
        16
    } else if prefix == 29 {
        8
    } else if prefix == 30 {
        4
    } else if prefix == 31 {
        2
    } else {
        1
    };
    assert(network as int + span <= 0x1_0000_0000) by {
        if prefix == 0 {
            assert(network == 0) by (bit_vector)
                requires
                    network == base & 0u32,
            ;
        } else if prefix <= 27 {
            let s = (32 - prefix) as u32;
            assert(network & 31u32 == 0) by (bit_vector)
                requires
                    network == base & (0xffff_ffffu32 << s),
                    5 <= s <= 31,
            ;
            assert(network <= 0xffff_ffe0u32) by (bit_vector)
                requires
                    network & 31u32 == 0,
            ;
        } else {
            let s = (32 - prefix) as u32;
            assert(network & ((1u32 << s) - 1) as u32 == 0) by (bit_vector)
                requires
                    network == base & (0xffff_ffffu32 << s),
                    0 <= s <= 4,
            ;
            assert(network as int + (1u32 << s) <= 0x1_0000_0000) by (bit_vector)
                requires
                    network & ((1u32 << s) - 1) as u32 == 0,
                    0 <= s <= 4,
            ;
            assert(span == (1u32 << s)) by (bit_vector)
                requires
                    s == 32 - prefix,
                    28 <= prefix <= 32,
                    span == (if prefix == 28 {
                        16u32
                    } else if prefix == 29 {
                        8u32
                    } else if prefix == 30 {
                        4u32
                    } else if prefix == 31 {
                        2u32
                    } else {
                        1u32
                    }),
            ;
        }
    }
    let mut out: Vec<u32> = Vec::new();
    let mut i: u32 = 1;
    while i < span
        invariant
            1 <= i <= span,
            span == scan_span(prefix),
            network == base & mask_of(prefix),
            network as int + span <= 0x1_0000_0000,
            out@ =~= scan_hosts(base, prefix).subrange(0, (i - 1) as int),
        decreases span - i,
    {
        out.push(network + i);
        i = i + 1;
    }
    out
}

/// What a network written `text` means: the base address and the prefix
/// length, or why there is none.
pub open spec fn cidr_of(text: Seq<char>) -> Result<(u32, u32), CidrError> {
    let p = pieces(text, '/');
    if p.len() != 2 {
        Err(CidrError::InvalidFormat)
    } else {
        let prefix = u32_of(p[1]);
        if prefix is None || prefix.unwrap() > 255 {
            Err(CidrError::InvalidNumber)
        } else if prefix.unwrap() > 32 {
            Err(CidrError::InvalidPrefix)
        } else {
            match ipv4_value(p[0]) {
                Some(a) => Ok((a, prefix.unwrap())),
                None => Err(CidrError::InvalidAddress),
            }
        }
    }
}

/// Reads a network written "address/prefix".
pub fn parse_cidr(text: &str) -> (r: Result<(u32, u32), CidrError>)
    ensures
        r == cidr_of(text@),
{
    let parts = split_on(text, '/');
    let ghost v = parts@.map_values(|w: String| w@);
    if parts.len() != 2 {
        return Err(CidrError::InvalidFormat);
    }
    assert(v[0] == parts@[0]@ && v[1] == parts@[1]@);
    let prefix = match parse_u32(parts[1].as_str()) {
        Some(p) => p,
        None => {
            return Err(CidrError::InvalidNumber);
        },
    };
    if prefix > 255 {
        return Err(CidrError::InvalidNumber);
    }
    if prefix > 32 {
        return Err(CidrError::InvalidPrefix);
    }
    match parse_ipv4(parts[0].as_str()) {
        Some(a) => Ok((a, prefix)),
        None => Err(CidrError::InvalidAddress),
    }
}

/// What a regular expression's first capture group matches in a text.
pub uninterp spec fn first_capture(pattern: Seq<char>, text: Seq<char>) -> Option<Seq<char>>;

/// Relies on `regex::Regex::new`, `Regex::captures` and `Captures::get`: the
/// text of group 1 of the leftmost match of `pattern` in `text`; `None` when
/// the pattern does not compile, nothing matches or the group took no part.
#[verifier::external_body]
fn capture_group(pattern: &str, text: &str) -> (r: Option<String>)
    ensures
        r is None <==> first_capture(pattern@, text@) is None,
        r matches Some(s) ==> first_capture(pattern@, text@) == Some(s@),
{
    let re = regex::Regex::new(pattern).ok()?;
    let caps = re.captures(text)?;
    caps.get(1).map(|m| m.as_str().to_string())
}

/// The reverse-lookup answer of the `host` tool names the host after this.
pub const HOST_POINTER_PATTERN: &'static str = r"domain name pointer ([^\s]+)";

/// The answer of `nslookup` names the host after this.
pub const NSLOOKUP_NAME_PATTERN: &'static str = r"Name:\s+([^\s]+)";

/// The host name that a reverse lookup printed, found with `pattern`; "unknown"
/// when it names none.
pub fn hostname_from_lookup(output: &str, pattern: &str) -> (r: String)
    ensures
        first_capture(pattern@, output@) matches Some(h) ==> r@ == h,
        first_capture(pattern@, output@) is None ==> r@ == "unknown"@,
{
    match capture_group(pattern, output) {
        Some(h) => h,
        None => String::from_str("unknown"),
    }
}

} // verus!

//! Service configuration and environment parsing.

use vstd::prelude::*;
use vstd::string::*;

verus! {

/// Seconds between two heartbeat announcements when the environment
/// supplies no usable override.
pub const DEFAULT_HB_INTERVAL_SECS: u64 = 2;

/// Immutable configuration of the registration service, fixed when the
/// service is created.
pub struct Configuration {
    /// Name of the node this service announces.
    pub node: String,
    /// gRPC endpoint the node serves on, announced alongside the name.
    pub grpc_endpoint: String,
    /// Seconds between two register publishes.
    pub hb_interval_secs: u64,
}

/// Whether a byte is an ASCII decimal digit.
pub open spec fn is_digit(b: u8) -> bool {
    0x30 <= b <= 0x39
}

/// The value of a digit byte; zero for any other byte.
pub open spec fn digit_val(b: u8) -> nat {
    if is_digit(b) {
        (b - 0x30) as nat
    } else {
        0
    }
}

/// Whether every byte of the string is a decimal digit.
pub open spec fn all_digits(s: Seq<u8>) -> bool {
    forall|i: int| 0 <= i < s.len() ==> is_digit(#[trigger] s[i])
}

/// The value of a decimal digit string.
pub open spec fn dec_value(s: Seq<u8>) -> nat
    decreases s.len(),
{
    if s.len() == 0 {
        0
    } else {
        dec_value(s.drop_last()) * 10 + digit_val(s.last())
    }
}

/// The digit portion of a decimal integer string: everything after one
/// optional leading plus sign.
pub open spec fn digits_of(s: Seq<u8>) -> Seq<u8> {
    if s.len() > 0 && s[0] == 0x2b {
        s.skip(1)
    } else {
        s
    }
}

/// Whether the byte string is accepted by the standard `u64` parser: an
/// optional leading `+`, then one or more decimal digits, denoting a
/// value that fits in 64 bits.
pub open spec fn parses_as_u64(s: Seq<u8>) -> bool {
    let d = digits_of(s);
    d.len() > 0 && all_digits(d) && dec_value(d) <= u64::MAX
}

/// The value such a string denotes.
pub open spec fn parsed_u64(s: Seq<u8>) -> u64
    recommends
        parses_as_u64(s),
{
    dec_value(digits_of(s)) as u64
}

/// The byte view of an optional environment value.
pub open spec fn env_view(env: Option<&str>) -> Option<Seq<u8>> {
    match env {
        Some(s) => Some(s.spec_bytes()),
        None => None,
    }
}

/// The heartbeat interval in seconds chosen for an environment override:
/// the override's value where it is a well-formed `u64`, the default
/// otherwise.
pub open spec fn spec_heartbeat_interval(env: Option<Seq<u8>>) -> u64 {
    match env {
        None => DEFAULT_HB_INTERVAL_SECS,
        Some(s) => if parses_as_u64(s) {
            parsed_u64(s)
        } else {
            DEFAULT_HB_INTERVAL_SECS
        },
    }
}

/// Reading one more digit multiplies the prefix value by ten.
proof fn lemma_dec_value_step(s: Seq<u8>, i: int)
    requires
        0 <= i < s.len(),
    ensures
        dec_value(s.take(i + 1)) == dec_value(s.take(i)) * 10 + digit_val(s[i]),
{
    assert(s.take(i + 1).drop_last() =~= s.take(i));
    assert(s.take(i + 1).last() == s[i]);
}

/// The value of a digit string is no less than the value of any of its
/// prefixes.
proof fn lemma_dec_value_prefix_le(s: Seq<u8>, i: int)
    requires
        0 <= i <= s.len(),
    ensures
        dec_value(s.take(i)) <= dec_value(s),
    decreases s.len() - i,
{
    if i == s.len() {
        assert(s.take(i) =~= s);
    } else {
        lemma_dec_value_step(s, i);
        lemma_dec_value_prefix_le(s, i + 1);
    }
}

/// Parses a decimal `u64`, accepting exactly what the standard library's
/// `u64` parser accepts: an optional leading `+`, then decimal digits
/// denoting a value that fits.
pub fn parse_u64(s: &Vec<u8>) -> (r: Option<u64>)
    ensures
        parses_as_u64(s@) ==> r == Some(parsed_u64(s@)),
        !parses_as_u64(s@) ==> r is None,
{
    let ghost d = digits_of(s@);
    let mut i: usize = 0;
    if s.len() > 0 && s[0] == 0x2b {
        i = 1;
    }
    let start = i;
    proof {
        assert(d =~= s@.skip(start as int));
    }
    if i == s.len() {
        // no digits at all
        return None;
    }
    let n = s.len();
    let mut acc: u64 = 0;
    while i < n
        invariant
            n == s@.len(),
            start <= i <= n,
            start < n,
            d == digits_of(s@),
            d == s@.skip(start as int),
            d.len() == n - start,
            forall|j: int| 0 <= j < i - start ==> is_digit(#[trigger] d[j]),
            acc == dec_value(d.take(i - start)),
        decreases n - i,
    {
        let b = s[i];
        proof {
            assert(d[i - start] == s@[i as int]);
        }
        if !(0x30 <= b && b <= 0x39) {
            // a non-digit byte: the string is not a number
            proof {
                assert(!is_digit(d[i - start]));
                assert(!all_digits(d));
                assert(!parses_as_u64(s@));
            }
            return None;
        }
        let dv = (b - 0x30) as u64;
        if acc > (u64::MAX - dv) / 10 {
            // the digits read so far already outgrow u64
            proof {
                lemma_dec_value_step(d, i - start);
                assert(acc * 10 + dv > u64::MAX) by {
                    let q = ((u64::MAX - dv) / 10) as int;
                    assert(acc >= q + 1);
                    assert(acc * 10 >= (q + 1) * 10) by (nonlinear_arith)
                        requires
                            acc >= q + 1,
                    ;
                    assert(q * 10 + 10 > u64::MAX - dv);
                }
                assert(digit_val(d[i - start]) == dv);
                assert(dec_value(d.take(i - start + 1)) > u64::MAX);
                lemma_dec_value_prefix_le(d, i - start + 1);
                assert(dec_value(d) > u64::MAX);
                assert(!parses_as_u64(s@));
            }
            return None;
        }
        proof {
            lemma_dec_value_step(d, i - start);
            let q = ((u64::MAX - dv) / 10) as int;
            assert(acc * 10 <= q * 10) by (nonlinear_arith)
                requires
                    0 <= acc <= q,
            ;
            assert(q * 10 <= u64::MAX - dv);
        }
        acc = acc * 10 + dv;
        i = i + 1;
    }
    proof {
        assert(d.take(i - start) =~= d);
    }
    Some(acc)
}

/// Chooses the heartbeat interval from the optional environment
/// override, falling back to the default on an absent or malformed
/// value.
pub fn heartbeat_interval_secs(env: Option<&str>) -> (r: u64)
    ensures
        r == spec_heartbeat_interval(env_view(env)),
{
    match env {
        None => DEFAULT_HB_INTERVAL_SECS,
        Some(s) => {
            let bytes = s.as_bytes_vec();
            match parse_u64(&bytes) {
                Some(num) => num,
                None => DEFAULT_HB_INTERVAL_SECS,
            }
        },
    }
}

impl Configuration {
    /// Builds the configuration from the node identity, the endpoint,
    /// and the optional environment override of the heartbeat interval.
    pub fn new(node: &str, grpc_endpoint: &str, hb_env: Option<&str>) -> (c: Configuration)
        ensures
            c.node@ == node@,
            c.grpc_endpoint@ == grpc_endpoint@,
            c.hb_interval_secs == spec_heartbeat_interval(env_view(hb_env)),
    {
        Configuration {
            node: node.to_owned(),
            grpc_endpoint: grpc_endpoint.to_owned(),
            hb_interval_secs: heartbeat_interval_secs(hb_env),
        }
    }
}

} // verus!

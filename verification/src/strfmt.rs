//! Decimal rendering and the persisted key layout.
//!
//! Session records live under `wart:session:<token>`; the per-epoch
//! key-value shards live under `wart:store:<token>:<epoch>`.

use vstd::prelude::*;

verus! {

/// The character of one decimal digit.
pub open spec fn spec_digit_char(d: int) -> char {
    if d == 0 {
        '0'
    } else if d == 1 {
        '1'
    } else if d == 2 {
        '2'
    } else if d == 3 {
        '3'
    } else if d == 4 {
        '4'
    } else if d == 5 {
        '5'
    } else if d == 6 {
        '6'
    } else if d == 7 {
        '7'
    } else if d == 8 {
        '8'
    } else {
        '9'
    }
}

/// The decimal rendering of `n`, most significant digit first, without
/// leading zeros (except for `n == 0` itself).
pub open spec fn spec_dec(n: nat) -> Seq<char>
    decreases n,
{
    if n < 10 {
        seq![spec_digit_char(n as int)]
    } else {
        spec_dec(n / 10).push(spec_digit_char((n % 10) as int))
    }
}

/// The one-character string of a single decimal digit.
fn digit_str(d: u64) -> (r: &'static str)
    requires
        d < 10,
    ensures
        r@ == seq![spec_digit_char(d as int)],
{
    let r: &'static str = if d == 0 {
        "0"
    } else if d == 1 {
        "1"
    } else if d == 2 {
        "2"
    } else if d == 3 {
        "3"
    } else if d == 4 {
        "4"
    } else if d == 5 {
        "5"
    } else if d == 6 {
        "6"
    } else if d == 7 {
        "7"
    } else if d == 8 {
        "8"
    } else {
        "9"
    };
    proof {
        reveal_strlit("0");
        reveal_strlit("1");
        reveal_strlit("2");
        reveal_strlit("3");
        reveal_strlit("4");
        reveal_strlit("5");
        reveal_strlit("6");
        reveal_strlit("7");
        reveal_strlit("8");
        reveal_strlit("9");
        assert(r@ =~= seq![spec_digit_char(d as int)]);
    }
    r
}

/// Renders `n` in decimal.
pub fn u64_to_dec(n: u64) -> (r: String)
    ensures
        r@ == spec_dec(n as nat),
    decreases n,
{
    if n < 10 {
        String::from_str(digit_str(n))
    } else {
        let mut s = u64_to_dec(n / 10);
        s.append(digit_str(n % 10));
        s
    }
}

/// The key of a session record.
pub open spec fn spec_session_key(token: Seq<char>) -> Seq<char> {
    "wart:session:"@ + token
}

/// Builds the key under which a session record is persisted.
pub fn session_key(token: &str) -> (r: String)
    ensures
        r@ == spec_session_key(token@),
{
    let mut s = String::from_str("wart:session:");
    s.append(token);
    s
}

/// The key of one per-epoch key-value shard.
pub open spec fn spec_shard_key(token: Seq<char>, epoch: nat) -> Seq<char> {
    "wart:store:"@ + token + ":"@ + spec_dec(epoch)
}

/// Builds the key of the shard holding a session's data for one epoch.
pub fn shard_key(token: &str, epoch: u64) -> (r: String)
    ensures
        r@ == spec_shard_key(token@, epoch as nat),
{
    let mut s = String::from_str("wart:store:");
    s.append(token);
    s.append(":");
    let d = u64_to_dec(epoch);
    s.append(d.as_str());
    s
}

/// The connection URL of the redis backend, from a plain host and port.
pub open spec fn spec_redis_url(host: Seq<char>, port: u16) -> Seq<char> {
    "redis://"@ + host + ":"@ + spec_dec(port as nat) + "/"@
}

/// Builds the redis connection URL for a plain host and port.
pub fn redis_url(host: &str, port: u16) -> (r: String)
    ensures
        r@ == spec_redis_url(host@, port),
{
    let mut s = String::from_str("redis://");
    s.append(host);
    s.append(":");
    let d = u64_to_dec(port as u64);
    s.append(d.as_str());
    s.append("/");
    s
}

/// The connection URL of the graph-storage backend.
pub open spec fn spec_storage_url(host: Seq<char>, port: u16) -> Seq<char> {
    "http://"@ + host + ":"@ + spec_dec(port as nat) + "/"@
}

/// Builds the graph-storage connection URL for a plain host and port.
pub fn storage_url(host: &str, port: u16) -> (r: String)
    ensures
        r@ == spec_storage_url(host@, port),
{
    let mut s = String::from_str("http://");
    s.append(host);
    s.append(":");
    let d = u64_to_dec(port as u64);
    s.append(d.as_str());
    s.append("/");
    s
}

} // verus!

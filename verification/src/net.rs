//! TTL-based, header-aware response cache with retry planning.
//!
//! A fetched payload is persisted as an envelope pairing the raw bytes
//! with an absolute expiry instant, keyed by a salted hash of the source
//! URI. The functions here make every decision of the fetch-or-reuse
//! path — where to read, whether a stored envelope may be served, what
//! expiry a fresh response gets, and whether a failed attempt is retried —
//! while the surrounding program performs the actual HTTP and file I/O.

use vstd::prelude::*;

verus! {

use vstd::string::*;

/// Salt for cache keys. Bumping it makes every prior entry unreachable
/// (a cheap whole-cache invalidation), never corrupt.
pub const CACHE_FORMAT_VERSION: u64 = 1;

/// Fallback cache lifetime in seconds when neither the response headers
/// nor the caller supply one.
pub const DEFAULT_TTL_SECS: u64 = 600;

/// A persisted cache entry: a raw payload and the absolute instant
/// (seconds since the epoch) at which it lapses.
pub struct CachedResponse {
    pub data: Vec<u8>,
    pub expires: u64,
}

/// Relies on std::time::SystemTime::now and duration_since(UNIX_EPOCH)
/// for the wall clock in whole seconds. The value depends on the
/// machine's clock, so nothing is promised of it; a clock before the
/// epoch reads as zero.
#[verifier::external_body]
fn now_seconds() -> u64 {
    match std::time::SystemTime::now().duration_since(std::time::SystemTime::UNIX_EPOCH) {
        Ok(d) => d.as_secs(),
        Err(_) => 0,
    }
}

/// Binary layout of an envelope: the expiry as eight little-endian bytes,
/// then the payload.
pub open spec fn spec_envelope_bytes(expires: u64, data: Seq<u8>) -> Seq<u8> {
    vstd::bytes::spec_u64_to_le_bytes(expires) + data
}

/// Decoding of an envelope record; anything shorter than the expiry field
/// is undecodable.
pub open spec fn spec_envelope_decode(bytes: Seq<u8>) -> Option<(u64, Seq<u8>)> {
    if bytes.len() < 8 {
        None
    } else {
        Some((vstd::bytes::spec_u64_from_le_bytes(bytes.take(8)), bytes.skip(8)))
    }
}

/// Decoding inverts encoding: an envelope written to disk reads back
/// unchanged.
pub proof fn lemma_envelope_round_trip(expires: u64, data: Seq<u8>)
    ensures
        spec_envelope_decode(spec_envelope_bytes(expires, data)) == Some((expires, data)),
{
    vstd::bytes::lemma_auto_spec_u64_to_from_le_bytes();
    let bytes = spec_envelope_bytes(expires, data);
    assert(bytes.take(8) =~= vstd::bytes::spec_u64_to_le_bytes(expires));
    assert(bytes.skip(8) =~= data);
}

impl CachedResponse {
    pub fn new(data: Vec<u8>, expires: u64) -> (r: CachedResponse)
        ensures
            r.data@ == data@ && r.expires == expires,
    {
        CachedResponse { data, expires }
    }

    /// Whether the envelope has lapsed at the given clock reading: it is
    /// served only strictly before its expiry instant.
    pub fn is_expired_at(&self, now: u64) -> (r: bool)
        ensures
            r == (now >= self.expires),
    {
        now >= self.expires
    }

    /// Whether the envelope has lapsed at the current wall clock. The
    /// clock reading cannot be pinned down, so callers that need an
    /// exact contract use `is_expired_at` with a clock value they chose.
    pub fn is_expired(&self) -> bool {
        self.is_expired_at(now_seconds())
    }

    /// Serializes the envelope to its on-disk record.
    pub fn to_bytes(&self) -> (r: Vec<u8>)
        ensures
            r@ == spec_envelope_bytes(self.expires, self.data@),
    {
        let mut out = vstd::bytes::u64_to_le_bytes(self.expires);
        let ghost prefix = out@;
        let mut i: usize = 0;
        while i < self.data.len()
            invariant
                i <= self.data@.len(),
                out@ == prefix + self.data@.take(i as int),
            decreases self.data@.len() - i,
        {
            out.push(self.data[i]);
            proof {
                assert(self.data@.take(i as int).push(self.data@[i as int]) =~= self.data@.take(
                    i as int + 1,
                ));
                assert((prefix + self.data@.take(i as int)).push(self.data@[i as int]) =~= prefix
                    + self.data@.take(i as int + 1));
            }
            i = i + 1;
        }
        proof {
            assert(self.data@.take(self.data@.len() as int) =~= self.data@);
        }
        out
    }

    /// Deserializes an on-disk record. A record too short to hold the
    /// expiry field is undecodable; callers treat that like a cache miss.
    pub fn from_bytes(bytes: &Vec<u8>) -> (r: Option<CachedResponse>)
        ensures
            match r {
                Some(env) => spec_envelope_decode(bytes@) == Some((env.expires, env.data@)),
                None => spec_envelope_decode(bytes@) is None,
            },
    {
        if bytes.len() < 8 {
            return None;
        }
        let mut head: Vec<u8> = Vec::new();
        let mut i: usize = 0;
        while i < 8
            invariant
                i <= 8,
                bytes@.len() >= 8,
                head@ == bytes@.take(i as int),
            decreases 8 - i,
        {
            head.push(bytes[i]);
            proof {
                assert(bytes@.take(i as int).push(bytes@[i as int]) =~= bytes@.take(i as int + 1));
            }
            i = i + 1;
        }
        let expires = vstd::bytes::u64_from_le_bytes(head.as_slice());
        let mut data: Vec<u8> = Vec::new();
        let mut j: usize = 8;
        while j < bytes.len()
            invariant
                8 <= j <= bytes@.len(),
                data@ == bytes@.subrange(8, j as int),
            decreases bytes@.len() - j,
        {
            data.push(bytes[j]);
            proof {
                assert(bytes@.subrange(8, j as int).push(bytes@[j as int]) =~= bytes@.subrange(
                    8,
                    j as int + 1,
                ));
            }
            j = j + 1;
        }
        proof {
            assert(bytes@.subrange(8, bytes@.len() as int) =~= bytes@.skip(8));
        }
        Some(CachedResponse { data, expires })
    }
}

/// Offset basis of the 64-bit FNV-1a hash.
pub const FNV_OFFSET: u64 = 14695981039346656037;

/// Prime of the 64-bit FNV-1a hash.
pub const FNV_PRIME: u64 = 1099511628211;

/// One FNV-1a absorption step over a character's code point.
pub open spec fn hash_step(h: u64, c: char) -> u64 {
    vstd::wrapping::u64_specs::wrapping_mul(h ^ (c as u64), FNV_PRIME)
}

/// Deterministic cache key for a URI: FNV-1a over its characters, seeded
/// with the offset basis salted by the cache format version.
pub open spec fn spec_key_hash(s: Seq<char>) -> u64
    decreases s.len(),
{
    if s.len() == 0 {
        FNV_OFFSET ^ CACHE_FORMAT_VERSION
    } else {
        hash_step(spec_key_hash(s.drop_last()), s.last())
    }
}

/// Computes the salted cache key of a URI.
pub fn key_hash(uri: &str) -> (h: u64)
    ensures
        h == spec_key_hash(uri@),
{
    let n: usize = uri.unicode_len();
    let mut h: u64 = FNV_OFFSET ^ CACHE_FORMAT_VERSION;
    let mut i: usize = 0;
    while i < n
        invariant
            i <= n,
            n == uri@.len(),
            h == spec_key_hash(uri@.take(i as int)),
        decreases n - i,
    {
        let c = uri.get_char(i);
        h = (h ^ (c as u64)).wrapping_mul(FNV_PRIME);
        proof {
            assert(uri@.take(i as int + 1).drop_last() =~= uri@.take(i as int));
            assert(uri@.take(i as int + 1).last() == uri@[i as int]);
        }
        i = i + 1;
    }
    proof {
        assert(uri@.take(n as int) =~= uri@);
    }
    h
}

/// Lowercase hexadecimal digit for a value below sixteen.
pub open spec fn hex_digit_char(n: nat) -> char {
    if n < 10 {
        crate::version::digit_char(n)
    } else if n == 10 {
        'a'
    } else if n == 11 {
        'b'
    } else if n == 12 {
        'c'
    } else if n == 13 {
        'd'
    } else if n == 14 {
        'e'
    } else {
        'f'
    }
}

/// Fixed-width lowercase hexadecimal rendering (leading zeros kept).
pub open spec fn hex_str(x: nat, digits: nat) -> Seq<char>
    decreases digits,
{
    if digits == 0 {
        Seq::<char>::empty()
    } else {
        hex_str(x / 16, (digits - 1) as nat).push(hex_digit_char(x % 16))
    }
}

/// Single-character string for a hexadecimal digit value.
fn hex_digit_str(d: u64) -> (r: &'static str)
    requires
        d < 16,
    ensures
        r@ == seq![hex_digit_char(d as nat)],
{
    let r: &'static str = if d < 10 {
        crate::version::digit_str(d as u8)
    } else if d == 10 {
        "a"
    } else if d == 11 {
        "b"
    } else if d == 12 {
        "c"
    } else if d == 13 {
        "d"
    } else if d == 14 {
        "e"
    } else {
        "f"
    };
    proof {
        reveal_strlit("a");
        reveal_strlit("b");
        reveal_strlit("c");
        reveal_strlit("d");
        reveal_strlit("e");
        reveal_strlit("f");
        assert(r@ =~= seq![hex_digit_char(d as nat)]);
    }
    r
}

/// Appends the fixed-width hexadecimal rendering of `x`.
fn push_hex(out: &mut String, x: u64, digits: u8)
    requires
        digits <= 16,
    ensures
        final(out)@ == old(out)@ + hex_str(x as nat, digits as nat),
    decreases digits,
{
    if digits == 0 {
        proof {
            assert(old(out)@ + hex_str(x as nat, 0) =~= old(out)@);
        }
    } else {
        push_hex(out, x / 16, digits - 1);
        out.append(hex_digit_str(x % 16));
        proof {
            assert(old(out)@ + hex_str(x as nat, digits as nat) =~= out@);
        }
    }
}

/// Relative cache location for a URI: a two-character shard directory
/// (the key's first byte) over the full sixteen-digit hex key, bounding
/// directory fan-out.
pub open spec fn spec_cache_rel_path(s: Seq<char>) -> Seq<char> {
    let h = spec_key_hash(s) as nat;
    hex_str(h / 0x100000000000000, 2) + seq!['/'] + hex_str(h, 16)
}

/// Computes the relative cache file path for a URI.
pub fn cache_rel_path(uri: &str) -> (p: String)
    ensures
        p@ == spec_cache_rel_path(uri@),
{
    let h = key_hash(uri);
    let mut out = String::new();
    push_hex(&mut out, h / 0x100000000000000, 2);
    out.append("/");
    push_hex(&mut out, h, 16);
    proof {
        reveal_strlit("/");
        assert(out@ =~= spec_cache_rel_path(uri@));
    }
    out
}

/// Index of the first occurrence of `pat` as a contiguous part of `s`,
/// if any.
pub open spec fn find_sub(s: Seq<char>, pat: Seq<char>) -> Option<int>
    decreases s.len(),
{
    if pat.len() == 0 {
        Some(0)
    } else if s.len() < pat.len() {
        None
    } else if s.take(pat.len() as int) == pat {
        Some(0)
    } else {
        match find_sub(s.skip(1), pat) {
            None => None,
            Some(i) => Some(i + 1),
        }
    }
}

/// Number of leading decimal digits of `s`.
pub open spec fn digit_run(s: Seq<char>) -> int
    decreases s.len(),
{
    if s.len() == 0 || !crate::version::is_digit_char(s[0]) {
        0
    } else {
        1 + digit_run(s.skip(1))
    }
}

/// The seconds a `Cache-Control` header value grants: the digits after
/// its first `max-age=` directive. Absent the directive, absent digits,
/// or a value too large for `u64`, nothing is granted.
pub open spec fn spec_max_age(s: Seq<char>) -> Option<u64> {
    match find_sub(s, "max-age="@) {
        None => None,
        Some(i) => {
            let rest = s.skip(i + 8);
            let run = digit_run(rest);
            if run == 0 || crate::version::dec_val(rest.take(run)) > u64::MAX {
                None
            } else {
                Some(crate::version::dec_val(rest.take(run)) as u64)
            }
        },
    }
}

/// The seconds an `Age` header value carries: the whole value must be
/// digits. Anything else reads as absent.
pub open spec fn spec_age_value(s: Seq<char>) -> Option<u64> {
    if crate::version::is_digits(s) && crate::version::dec_val(s) <= u64::MAX {
        Some(crate::version::dec_val(s) as u64)
    } else {
        None
    }
}

/// Characterizes `find_sub`: a hit is the least index where the whole
/// pattern occurs; a miss means it occurs nowhere.
proof fn lemma_find_sub(s: Seq<char>, pat: Seq<char>)
    ensures
        match find_sub(s, pat) {
            Some(i) => 0 <= i && i + pat.len() <= s.len() && s.subrange(i, i + pat.len()) == pat
                && forall|j: int| 0 <= j < i ==> (#[trigger] s.subrange(j, j + pat.len())) != pat,
            None => forall|j: int|
                0 <= j && j + pat.len() <= s.len() ==> (#[trigger] s.subrange(j, j + pat.len()))
                    != pat,
        },
    decreases s.len(),
{
    let m = pat.len() as int;
    if pat.len() == 0 {
        assert(s.subrange(0, 0) =~= pat);
    } else if s.len() < pat.len() {
    } else if s.take(m) == pat {
        assert(s.subrange(0, m) =~= s.take(m));
    } else {
        lemma_find_sub(s.skip(1), pat);
        assert(s.subrange(0, m) =~= s.take(m));
        assert forall|j: int| 0 <= j && j + m <= s.len() - 1 implies (#[trigger] s.skip(1).subrange(
            j,
            j + m,
        )) == s.subrange(j + 1, j + 1 + m) by {
            assert(s.skip(1).subrange(j, j + m) =~= s.subrange(j + 1, j + 1 + m));
        }
        match find_sub(s.skip(1), pat) {
            Some(i) => {
                assert(s.skip(1).subrange(i, i + m) == pat);
                assert(s.subrange(i + 1, i + 1 + m) == pat);
                assert forall|j: int| 0 <= j < i + 1 implies (#[trigger] s.subrange(j, j + m))
                    != pat by {
                    if j == 0 {
                        assert(s.subrange(0, m) == s.take(m));
                    } else {
                        assert(s.skip(1).subrange(j - 1, j - 1 + m) != pat);
                        assert(s.skip(1).subrange(j - 1, j - 1 + m) =~= s.subrange(j, j + m));
                    }
                }
            },
            None => {
                assert forall|j: int| 0 <= j && j + m <= s.len() implies (#[trigger] s.subrange(
                    j,
                    j + m,
                )) != pat by {
                    if j == 0 {
                        assert(s.subrange(0, m) == s.take(m));
                    } else {
                        assert(s.skip(1).subrange(j - 1, j - 1 + m) != pat);
                        assert(s.skip(1).subrange(j - 1, j - 1 + m) =~= s.subrange(j, j + m));
                    }
                }
            },
        }
    }
}

/// Characterizes `digit_run` by its boundary: `k` leading digits with a
/// non-digit (or the end) after them.
proof fn lemma_digit_run_is(s: Seq<char>, k: int)
    requires
        0 <= k <= s.len(),
        forall|w: int| 0 <= w < k ==> crate::version::is_digit_char(#[trigger] s[w]),
        k == s.len() || !crate::version::is_digit_char(s[k]),
    ensures
        digit_run(s) == k,
    decreases s.len(),
{
    if s.len() == 0 {
    } else if k == 0 {
    } else {
        assert forall|w: int| 0 <= w < k - 1 implies crate::version::is_digit_char(
            #[trigger] s.skip(1)[w],
        ) by {
            assert(s.skip(1)[w] == s[w + 1]);
        }
        if k < s.len() {
            assert(s.skip(1)[k - 1] == s[k]);
        }
        lemma_digit_run_is(s.skip(1), k - 1);
    }
}

/// Whether the pattern occurs at position `j` of `cs`.
fn match_at(cs: &Vec<char>, j: usize, pat: &str) -> (r: bool)
    requires
        j + pat@.len() <= cs@.len(),
    ensures
        r == (cs@.subrange(j as int, j as int + pat@.len() as int) == pat@),
{
    let ghost sub = cs@.subrange(j as int, j as int + pat@.len() as int);
    let m: usize = pat.unicode_len();
    let n: usize = cs.len();
    let mut w: usize = 0;
    while w < m
        invariant
            w <= m,
            m == pat@.len(),
            n == cs@.len(),
            j + m <= n,
            sub == cs@.subrange(j as int, j as int + m as int),
            forall|x: int| 0 <= x < w ==> sub[x] == pat@[x],
        decreases m - w,
    {
        let c = cs[j + w];
        proof {
            assert(sub[w as int] == c);
        }
        if c != pat.get_char(w) {
            return false;
        }
        w = w + 1;
    }
    proof {
        assert(sub =~= pat@);
    }
    true
}

/// Position of the first occurrence of the (non-empty) pattern in `cs`.
fn find_pattern(cs: &Vec<char>, pat: &str) -> (r: Option<usize>)
    requires
        pat@.len() > 0,
    ensures
        match r {
            Some(i) => i + pat@.len() <= cs@.len() && cs@.subrange(
                i as int,
                i as int + pat@.len() as int,
            ) == pat@ && forall|j: int|
                0 <= j < i ==> (#[trigger] cs@.subrange(j, j + pat@.len() as int)) != pat@,
            None => forall|j: int|
                0 <= j && j + pat@.len() <= cs@.len() ==> (#[trigger] cs@.subrange(
                    j,
                    j + pat@.len() as int,
                )) != pat@,
        },
{
    let m: usize = pat.unicode_len();
    if cs.len() < m {
        return None;
    }
    let limit: usize = cs.len() - m;
    let mut i: usize = 0;
    while i <= limit
        invariant
            m == pat@.len(),
            1 <= m <= cs@.len(),
            limit == cs@.len() - m,
            limit < usize::MAX,
            i <= limit + 1,
            forall|j: int| 0 <= j < i ==> (#[trigger] cs@.subrange(j, j + m as int)) != pat@,
        decreases limit + 1 - i,
    {
        if match_at(cs, i, pat) {
            return Some(i);
        }
        i = i + 1;
    }
    None
}

/// Parses `cs[from..to]` as a decimal number that must fit in `u64`.
fn parse_u64_range(cs: &Vec<char>, from: usize, to: usize) -> (r: Option<u64>)
    requires
        from <= to <= cs@.len(),
    ensures
        ({
            let sub = cs@.subrange(from as int, to as int);
            match r {
                Some(v) => crate::version::is_digits(sub) && crate::version::dec_val(sub)
                    <= u64::MAX && v == crate::version::dec_val(sub),
                None => !(crate::version::is_digits(sub) && crate::version::dec_val(sub)
                    <= u64::MAX),
            }
        }),
{
    let ghost sub = cs@.subrange(from as int, to as int);
    if to == from {
        return None;
    }
    let mut acc: u64 = 0;
    let mut i: usize = from;
    while i < to
        invariant
            from <= i <= to <= cs@.len(),
            sub == cs@.subrange(from as int, to as int),
            acc == crate::version::dec_val(sub.take(i - from)),
            forall|j: int| 0 <= j < i - from ==> crate::version::is_digit_char(#[trigger] sub[j]),
        decreases to - i,
    {
        let c = cs[i];
        if !('0' <= c && c <= '9') {
            proof {
                assert(sub[i - from] == c);
            }
            return None;
        }
        let d: u64 = ((c as u32) - 48) as u64;
        proof {
            assert(sub[i - from] == c);
            assert(sub.take(i - from + 1).drop_last() =~= sub.take(i - from));
            assert(sub.take(i - from + 1).last() == c);
        }
        let wide: u128 = (acc as u128) * 10 + (d as u128);
        if wide > u64::MAX as u128 {
            proof {
                crate::version::lemma_dec_val_take(sub, i - from + 1);
            }
            return None;
        }
        acc = wide as u64;
        i = i + 1;
    }
    proof {
        assert(sub.take(to - from) =~= sub);
    }
    Some(acc)
}

/// Reads an `Age` header value: the whole value must be decimal digits
/// whose number fits `u64`; anything else counts as absent.
pub fn parse_age(value: &str) -> (r: Option<u64>)
    ensures
        r == spec_age_value(value@),
{
    let cs = crate::version::chars_of(value);
    let n: usize = cs.len();
    proof {
        assert(cs@.subrange(0, n as int) =~= value@);
    }
    parse_u64_range(&cs, 0, n)
}

/// Reads the `max-age` directive out of a `Cache-Control` header value:
/// the digits after the first `max-age=`. Absent the directive, absent
/// digits, or a number too large for `u64`, nothing is granted.
pub fn parse_max_age(value: &str) -> (r: Option<u64>)
    ensures
        r == spec_max_age(value@),
{
    let pat = "max-age=";
    proof {
        reveal_strlit("max-age=");
    }
    let cs = crate::version::chars_of(value);
    let n: usize = cs.len();
    proof {
        assert(cs@.subrange(0, n as int) =~= value@);
        lemma_find_sub(value@, pat@);
    }
    let start: usize = match find_pattern(&cs, pat) {
        None => {
            proof {
                assert(find_sub(value@, pat@) is None);
            }
            return None;
        },
        Some(f) => {
            proof {
                assert(find_sub(value@, pat@) == Some(f as int));
            }
            f + 8
        },
    };
    let ghost rest = value@.skip(start as int);
    let mut d: usize = start;
    while d < n && '0' <= cs[d] && cs[d] <= '9'
        invariant
            start <= d <= n,
            n == value@.len(),
            cs@ == value@,
            rest == value@.skip(start as int),
            forall|w: int|
                0 <= w < d - start ==> crate::version::is_digit_char(#[trigger] rest[w]),
        decreases n - d,
    {
        proof {
            assert(rest[d - start] == cs@[d as int]);
        }
        d = d + 1;
    }
    proof {
        if d < n {
            assert(rest[d - start] == cs@[d as int]);
        }
        lemma_digit_run_is(rest, d - start);
    }
    if d == start {
        return None;
    }
    proof {
        assert(rest.take(d - start) =~= cs@.subrange(start as int, d as int));
    }
    parse_u64_range(&cs, start, d)
}

/// A caller-supplied TTL of zero bypasses the cache entirely: always
/// fetch, never persist.
pub open spec fn spec_bypass(caller_ttl: Option<u64>) -> bool {
    caller_ttl == Some(0u64)
}

/// Resolved cache lifetime after a successful fetch, precedence high to
/// low: `Cache-Control: max-age` minus the `Age` header (floored at
/// zero), the caller-supplied TTL, the fixed default.
pub open spec fn spec_resolve_ttl(max_age: Option<u64>, age: Option<u64>, caller_ttl: Option<
    u64,
>) -> u64 {
    match max_age {
        Some(ma) => match age {
            Some(a) => if a >= ma {
                0
            } else {
                (ma - a) as u64
            },
            None => ma,
        },
        None => match caller_ttl {
            Some(t) => t,
            None => DEFAULT_TTL_SECS,
        },
    }
}

/// Resolves the lifetime of a fresh cache entry from the response
/// headers and the caller's wish.
pub fn resolve_ttl(max_age: Option<u64>, age: Option<u64>, caller_ttl: Option<u64>) -> (t: u64)
    ensures
        t == spec_resolve_ttl(max_age, age, caller_ttl),
{
    match max_age {
        Some(ma) => match age {
            Some(a) => if a >= ma {
                0
            } else {
                ma - a
            },
            None => ma,
        },
        None => match caller_ttl {
            Some(t) => t,
            None => DEFAULT_TTL_SECS,
        },
    }
}

/// First step of a fetch: whether to consult the cache at all, and where.
pub enum CacheRead {
    Bypass,
    ReadAt { path: String },
}

/// Decides the read path. With a caller TTL of zero the cache is never
/// read; otherwise the envelope at the URI's cache location is loaded.
pub fn read_step(uri: &str, caller_ttl: Option<u64>) -> (r: CacheRead)
    ensures
        spec_bypass(caller_ttl) ==> r is Bypass,
        !spec_bypass(caller_ttl) ==> (r matches CacheRead::ReadAt { path } && path@
            == spec_cache_rel_path(uri@)),
{
    match caller_ttl {
        Some(0) => CacheRead::Bypass,
        _ => CacheRead::ReadAt { path: cache_rel_path(uri) },
    }
}

/// Whether a loaded envelope may be served at the given instant.
pub open spec fn spec_hit(entry: Option<(u64, Seq<u8>)>, now: u64) -> Option<Seq<u8>> {
    match entry {
        Some((expires, data)) => if now < expires {
            Some(data)
        } else {
            None
        },
        None => None,
    }
}

/// Decides whether the envelope read from the cache (or `None` on a
/// miss or an undecodable record, which count alike) is served: only a
/// present entry strictly before its expiry is, and then no network call
/// occurs.
pub fn hit_step(found: Option<CachedResponse>, now: u64) -> (r: Option<Vec<u8>>)
    ensures
        match r {
            Some(data) => spec_hit(spec_entry(found), now) == Some(data@),
            None => spec_hit(spec_entry(found), now) is None,
        },
{
    match found {
        Some(env) => if now < env.expires {
            Some(env.data)
        } else {
            None
        },
        None => None,
    }
}

/// View of an optional envelope as an optional (expiry, payload) pair.
pub open spec fn spec_entry(found: Option<CachedResponse>) -> Option<(u64, Seq<u8>)> {
    match found {
        Some(env) => Some((env.expires, env.data@)),
        None => None,
    }
}

/// What a successful fetch writes back: `None` when nothing is
/// persisted (bypass, or a resolved lifetime of zero), else the fresh
/// envelope with its absolute expiry.
pub open spec fn spec_commit(
    now: u64,
    max_age: Option<u64>,
    age: Option<u64>,
    caller_ttl: Option<u64>,
    data: Seq<u8>,
) -> Option<(u64, Seq<u8>)> {
    if spec_bypass(caller_ttl) {
        None
    } else {
        let ttl = spec_resolve_ttl(max_age, age, caller_ttl);
        if ttl == 0 {
            None
        } else {
            Some((vstd::wrapping::u64_specs::wrapping_add(now, ttl), data))
        }
    }
}

/// Decides what to persist after a successful fetch. A zero resolved
/// lifetime is returned to the caller but never written, so no entry is
/// created already stale; the expiry saturates instead of wrapping.
pub fn commit_step(
    now: u64,
    max_age: Option<u64>,
    age: Option<u64>,
    caller_ttl: Option<u64>,
    data: Vec<u8>,
) -> (r: Option<CachedResponse>)
    requires
        now + spec_resolve_ttl(max_age, age, caller_ttl) <= u64::MAX,
    ensures
        spec_entry(r) == spec_commit(now, max_age, age, caller_ttl, data@),
{
    if let Some(0) = caller_ttl {
        return None;
    }
    let ttl = resolve_ttl(max_age, age, caller_ttl);
    if ttl == 0 {
        None
    } else {
        Some(CachedResponse { data, expires: now + ttl })
    }
}

/// TTL precedence law: when the response carries `Cache-Control:
/// max-age` the persisted lifetime is the header value minus the `Age`
/// header, floored at zero, whatever TTL the caller supplied.
pub proof fn lemma_ttl_precedence(ma: u64, age: u64, caller_ttl: Option<u64>)
    ensures
        spec_resolve_ttl(Some(ma), Some(age), caller_ttl) == if age >= ma {
            0u64
        } else {
            (ma - age) as u64
        },
{
}

/// Cache idempotence law: once a fetch has persisted an envelope, a
/// second lookup of the same URI strictly before that envelope's expiry
/// is served from the cache with the same payload — so two sequential
/// fetches within the TTL window make exactly one network call.
pub proof fn lemma_cache_idempotent(
    now1: u64,
    now2: u64,
    max_age: Option<u64>,
    age: Option<u64>,
    caller_ttl1: Option<u64>,
    data: Seq<u8>,
)
    requires
        spec_commit(now1, max_age, age, caller_ttl1, data) is Some,
        now2 < spec_commit(now1, max_age, age, caller_ttl1, data)->Some_0.0,
    ensures
        spec_hit(spec_commit(now1, max_age, age, caller_ttl1, data), now2) == Some(data),
{
}

/// Bypass law: with a caller TTL of zero the cache location is never
/// read and nothing is ever persisted, whatever the response headers.
pub proof fn lemma_bypass_touches_nothing(
    now: u64,
    max_age: Option<u64>,
    age: Option<u64>,
    data: Seq<u8>,
)
    ensures
        spec_bypass(Some(0u64)),
        spec_commit(now, max_age, age, Some(0u64), data) is None,
{
}

/// Greatest number of HTTP attempts for one fetch, the first included.
pub const MAX_FETCH_ATTEMPTS: u64 = 5;

/// Base backoff delay in milliseconds.
pub const BACKOFF_BASE_MS: u64 = 200;

/// Fibonacci numbers, for the backoff shape.
pub open spec fn fib(n: nat) -> nat
    decreases n,
{
    if n == 0 {
        0
    } else if n == 1 {
        1
    } else {
        fib((n - 1) as nat) + fib((n - 2) as nat)
    }
}

/// How an HTTP attempt failed.
#[derive(Clone, Copy, Debug, PartialEq, Eq, Structural)]
pub enum FailureClass {
    /// The connection could not be established.
    Connect,
    /// The host could not be resolved.
    Resolve,
    /// The server answered with this non-success status code.
    Status(u16),
    /// The body was not a valid payload for the expected shape.
    Decode,
}

/// Transient failures are retried: connection failure, host resolution
/// failure, and any 5xx status. Everything else — any 4xx and a decode
/// failure in particular — is terminal.
pub open spec fn spec_is_transient(fc: FailureClass) -> bool {
    match fc {
        FailureClass::Connect => true,
        FailureClass::Resolve => true,
        FailureClass::Status(code) => 500 <= code <= 599,
        FailureClass::Decode => false,
    }
}

/// Classifies a failure as transient (retryable) or terminal.
pub fn is_transient(fc: &FailureClass) -> (r: bool)
    ensures
        r == spec_is_transient(*fc),
{
    match fc {
        FailureClass::Connect => true,
        FailureClass::Resolve => true,
        FailureClass::Status(code) => 500 <= *code && *code <= 599,
        FailureClass::Decode => false,
    }
}

/// The errors a fetch can surface: the server was unreachable (or kept
/// failing), versus it answered with something unexpectedly shaped.
#[derive(Clone, Copy, Debug, PartialEq, Eq, Structural)]
pub enum FetchError {
    Network,
    Decode,
}

/// What to do after a failed attempt.
#[derive(Clone, Copy, Debug, PartialEq, Eq, Structural)]
pub enum RetryStep {
    /// Try again after this backoff delay.
    Retry { delay_ms: u64 },
    /// Give up and surface this error.
    GiveUp { error: FetchError },
}

/// Delay before the next attempt, Fibonacci-shaped over the base delay:
/// after the failed attempt of index `attempt` (zero-based) the wait is
/// `200 * fib(attempt + 1)` milliseconds, so 200, 200, 400, 600, ...
pub fn backoff_delay_ms(attempt: u64) -> (d: u64)
    requires
        attempt < MAX_FETCH_ATTEMPTS,
    ensures
        d == BACKOFF_BASE_MS * fib((attempt + 1) as nat),
{
    proof {
        assert(fib(2) == fib(1) + fib(0));
        assert(fib(3) == fib(2) + fib(1));
        assert(fib(4) == fib(3) + fib(2));
        assert(fib(5) == fib(4) + fib(3));
    }
    if attempt == 0 {
        200
    } else if attempt == 1 {
        200
    } else if attempt == 2 {
        400
    } else if attempt == 3 {
        600
    } else {
        1000
    }
}

/// Decides whether the fetch loop retries. Only a transient failure
/// with attempts left is retried, after its backoff delay; a terminal
/// failure or an exhausted budget surfaces the matching error: `Decode`
/// for an unexpectedly shaped body, `Network` otherwise.
pub fn retry_step(fc: &FailureClass, attempt: u64) -> (r: RetryStep)
    requires
        attempt < MAX_FETCH_ATTEMPTS,
    ensures
        spec_is_transient(*fc) && attempt + 1 < MAX_FETCH_ATTEMPTS ==> r == (RetryStep::Retry {
            delay_ms: (BACKOFF_BASE_MS * fib((attempt + 1) as nat)) as u64,
        }),
        !(spec_is_transient(*fc) && attempt + 1 < MAX_FETCH_ATTEMPTS) ==> r == (RetryStep::GiveUp {
            error: match *fc {
                FailureClass::Decode => FetchError::Decode,
                _ => FetchError::Network,
            },
        }),
{
    if is_transient(fc) && attempt + 1 < MAX_FETCH_ATTEMPTS {
        RetryStep::Retry { delay_ms: backoff_delay_ms(attempt) }
    } else {
        let error = match fc {
            FailureClass::Decode => FetchError::Decode,
            _ => FetchError::Network,
        };
        RetryStep::GiveUp { error }
    }
}

/// Map described by an entry log: a later record for the same key
/// supersedes an earlier one.
pub open spec fn entries_map(s: Seq<(u64, CachedResponse)>) -> Map<u64, (u64, Seq<u8>)>
    decreases s.len(),
{
    if s.len() == 0 {
        Map::empty()
    } else {
        entries_map(s.drop_last()).insert(
            s.last().0,
            (s.last().1.expires, s.last().1.data@),
        )
    }
}

proof fn lemma_entries_map_last_occurrence(s: Seq<(u64, CachedResponse)>, i: int, k: u64)
    requires
        0 <= i < s.len(),
        s[i].0 == k,
        forall|j: int| i < j < s.len() ==> s[j].0 != k,
    ensures
        entries_map(s).contains_key(k),
        entries_map(s)[k] == (s[i].1.expires, s[i].1.data@),
    decreases s.len(),
{
    if i == s.len() - 1 {
    } else {
        lemma_entries_map_last_occurrence(s.drop_last(), i, k);
    }
}

proof fn lemma_entries_map_absent(s: Seq<(u64, CachedResponse)>, k: u64)
    requires
        forall|j: int| 0 <= j < s.len() ==> s[j].0 != k,
    ensures
        !entries_map(s).contains_key(k),
    decreases s.len(),
{
    if s.len() > 0 {
        lemma_entries_map_absent(s.drop_last(), k);
    }
}

/// An in-memory cache: an append-only log of (key, envelope) records
/// where the newest record for a key is authoritative. The surrounding
/// program loads it from and persists it to the on-disk cache files.
pub struct CacheStore {
    entries: Vec<(u64, CachedResponse)>,
}

impl View for CacheStore {
    type V = Map<u64, (u64, Seq<u8>)>;

    closed spec fn view(&self) -> Map<u64, (u64, Seq<u8>)> {
        entries_map(self.entries@)
    }
}

impl CacheStore {
    /// An empty cache.
    pub fn new() -> (r: CacheStore)
        ensures
            r@ == Map::<u64, (u64, Seq<u8>)>::empty(),
    {
        CacheStore { entries: Vec::new() }
    }

    /// Looks up the newest envelope stored under `key`.
    pub fn get(&self, key: u64) -> (r: Option<&CachedResponse>)
        ensures
            match r {
                Some(env) => self@.contains_key(key) && self@[key] == (env.expires, env.data@),
                None => !self@.contains_key(key),
            },
    {
        let mut i: usize = self.entries.len();
        while i > 0
            invariant
                i <= self.entries@.len(),
                forall|j: int| i <= j < self.entries@.len() ==> self.entries@[j].0 != key,
            decreases i,
        {
            i = i - 1;
            if self.entries[i].0 == key {
                proof {
                    lemma_entries_map_last_occurrence(self.entries@, i as int, key);
                }
                return Some(&self.entries[i].1);
            }
        }
        proof {
            lemma_entries_map_absent(self.entries@, key);
        }
        None
    }

    /// Stores a fresh envelope under `key`, superseding (not mutating)
    /// any earlier record.
    pub fn put(&mut self, key: u64, env: CachedResponse)
        ensures
            final(self)@ == old(self)@.insert(key, (env.expires, env.data@)),
    {
        let ghost before = self.entries@;
        let ghost entry = (env.expires, env.data@);
        self.entries.push((key, env));
        proof {
            assert(self.entries@.drop_last() =~= before);
        }
    }
}

} // verus!

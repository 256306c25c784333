//! Configuration of the serving binary: the listen port, parsed from its
//! textual flag value, and the store's address.

use vstd::prelude::*;

use crate::timefmt::spec_all_digits;
use vstd::string::StringSliceAdditionalSpecFns;
use crate::timefmt::spec_dec_val;
use crate::timefmt::spec_is_digit;

verus! {

/// The serving binary's configuration.
pub struct Config {
    /// Listen port of the HTTP API.
    pub port: u16,
    /// The build's version string.
    pub version: String,
    /// Address of the time-series store.
    pub redis_url: String,
}

/// An ASCII whitespace byte.
pub open spec fn spec_is_space(b: u8) -> bool {
    b == 32 || b == 9 || b == 10 || b == 13
}

/// `s` without leading and trailing ASCII whitespace.
pub open spec fn spec_trim(s: Seq<u8>) -> Seq<u8>
    decreases s.len(),
{
    if s.len() > 0 && spec_is_space(s.first()) {
        spec_trim(s.drop_first())
    } else if s.len() > 0 && spec_is_space(s.last()) {
        spec_trim(s.drop_last())
    } else {
        s
    }
}

/// The port a flag value denotes: optionally signed with `+`, otherwise
/// decimal digits, fitting a sixteen-bit port number.
pub open spec fn spec_parse_u16(b: Seq<u8>) -> Option<u16> {
    let c = if b.len() > 0 && b[0] == 43 {
        b.skip(1)
    } else {
        b
    };
    if c.len() > 0 && spec_all_digits(c) && spec_dec_val(c) <= u16::MAX {
        Some(spec_dec_val(c) as u16)
    } else {
        None
    }
}

/// Parse the digits of a trimmed, unsigned port text.
fn parse_u16_digits(b: &[u8], st: usize) -> (r: Option<u16>)
    requires
        st <= b@.len(),
    ensures
        r is Some <==> (b@.skip(st as int).len() > 0 && spec_all_digits(b@.skip(st as int))
            && spec_dec_val(b@.skip(st as int)) <= u16::MAX),
        r matches Some(v) ==> v as int == spec_dec_val(b@.skip(st as int)),
{
    let ghost c = b@.skip(st as int);
    proof {
        assert(forall|k: int| 0 <= k < c.len() ==> #[trigger] c[k] == b@[st + k]);
    }
    if b.len() == st {
        return None;
    }
    let mut acc: u32 = 0;
    let mut i: usize = st;
    while i < b.len()
        invariant
            st <= i <= b@.len(),
            st < b@.len(),
            c == b@.skip(st as int),
            forall|k: int| 0 <= k < c.len() ==> #[trigger] c[k] == b@[st + k],
            acc as int == spec_dec_val(c.take(i - st)),
            acc <= u16::MAX,
            spec_all_digits(c.take(i - st)),
        decreases b@.len() - i,
    {
        let x = b[i];
        proof {
            assert(c.take(i - st + 1).drop_last() =~= c.take(i - st));
            assert(c.take(i - st + 1).last() == c[i - st]);
            assert(forall|k: int| 0 <= k < i - st + 1 ==> c.take(i - st + 1)[k] == c[k]);
        }
        if !(48 <= x && x <= 57) {
            proof {
                assert(!spec_is_digit(c[i - st]));
                assert(!spec_all_digits(c));
            }
            return None;
        }
        let acc2: u32 = acc * 10 + ((x - 48) as u32);
        if acc2 > u16::MAX as u32 {
            proof {
                if spec_all_digits(c) {
                    crate::timefmt::lemma_dec_val_prefix_pub(c, i - st + 1);
                }
            }
            return None;
        }
        acc = acc2;
        i = i + 1;
    }
    proof {
        assert(c.take(b@.len() - st) =~= c);
    }
    Some(acc as u16)
}

/// Parse a port flag value: trimmed, an optional leading `+`, then
/// decimal digits.
pub fn parse_port(s: &str) -> (r: Option<u16>)
    ensures
        r is Some <==> spec_parse_u16(spec_trim(s.spec_bytes())) is Some,
        r matches Some(v) ==> spec_parse_u16(spec_trim(s.spec_bytes())) == Some(v),
{
    let b = s.as_bytes();
    let mut lo: usize = 0;
    let mut hi: usize = b.len();
    proof {
        assert(b@.skip(0) =~= b@);
    }
    while lo < hi && (b[lo] == 32 || b[lo] == 9 || b[lo] == 10 || b[lo] == 13)
        invariant
            0 <= lo <= hi <= b@.len(),
            hi == b@.len(),
            spec_trim(b@) == spec_trim(b@.skip(lo as int)),
        decreases hi - lo,
    {
        proof {
            assert(b@.skip(lo as int).first() == b@[lo as int]);
            assert(b@.skip(lo as int).drop_first() =~= b@.skip(lo + 1));
        }
        lo = lo + 1;
    }
    proof {
        assert(b@.skip(lo as int) =~= b@.subrange(lo as int, hi as int));
    }
    while lo < hi && (b[hi - 1] == 32 || b[hi - 1] == 9 || b[hi - 1] == 10 || b[hi - 1] == 13)
        invariant
            0 <= lo <= hi <= b@.len(),
            spec_trim(b@) == spec_trim(b@.subrange(lo as int, hi as int)),
            lo < hi ==> !spec_is_space(b@[lo as int]),
        decreases hi,
    {
        proof {
            assert(b@.subrange(lo as int, hi as int).last() == b@[hi - 1]);
            assert(b@.subrange(lo as int, hi as int).first() == b@[lo as int]);
            assert(b@.subrange(lo as int, hi as int).drop_last() =~= b@.subrange(
                lo as int,
                hi - 1,
            ));
        }
        hi = hi - 1;
    }
    let ghost t = b@.subrange(lo as int, hi as int);
    proof {
        if lo < hi {
            assert(t.first() == b@[lo as int]);
            assert(t.last() == b@[hi - 1]);
        }
        assert(spec_trim(t) == t);
        assert(spec_trim(b@) == t);
    }
    let trimmed = vstd::slice::slice_subrange(b, lo, hi);
    let st: usize = if trimmed.len() > 0 && trimmed[0] == 43 {
        1
    } else {
        0
    };
    proof {
        if st == 0 {
            assert(trimmed@.skip(0) =~= trimmed@);
        }
    }
    parse_u16_digits(trimmed, st)
}

impl Config {
    /// Build the configuration from the flag values: the port must be
    /// present and parse as a port number, the store address must be
    /// present.
    pub fn build(port: Option<&str>, redis_url: Option<&str>) -> (r: Result<Config, String>)
        ensures
            port is None ==> r is Err,
            port matches Some(p) ==> {
                let parsed = spec_parse_u16(spec_trim(p.spec_bytes()));
                &&& (parsed is None ==> r is Err)
                &&& (parsed is Some && redis_url is None ==> r is Err)
                &&& (parsed is Some && redis_url is Some ==> (r matches Ok(c) && c.port
                    == parsed.unwrap() && c.version@ == "dev"@ && c.redis_url@
                    == redis_url.unwrap()@))
            },
    {
        let p = match port {
            Some(p) => p,
            None => {
                return Err(String::new().concat("no port provided"));
            },
        };
        let port_num = match parse_port(p) {
            Some(v) => v,
            None => {
                let mut msg = String::new();
                msg.append("can't parse port: `");
                msg.append(p);
                msg.append("`");
                return Err(msg);
            },
        };
        let url = match redis_url {
            Some(u) => u,
            None => {
                return Err(String::new().concat("no redis URL provided"));
            },
        };
        Ok(Config { port: port_num, version: String::new().concat("dev"), redis_url: url.to_owned() })
    }
}

} // verus!

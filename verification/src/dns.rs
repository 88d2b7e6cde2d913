//! The name resolution adapter: turns a hostname into one resolved
//! address. A numeric literal — dotted-quad or colon-grouped — is
//! recognized locally, without any radio interaction; other names are
//! validated and handed to the resolver behind the driver boundary, and
//! one candidate is selected from what comes back. The caller sequence must have the cellular link
//! active already; this adapter does not touch the resource counts.

use vstd::prelude::*;
use vstd::string::StringSliceAdditionalSpecFns;

use crate::driver::{AddrType, DriverCall, DriverReply, IpAddr};
use crate::error::{DriverError, Error, NbError};
use crate::lte::is_digit;
use crate::{script_head, script_tail, Modem};

verus! {

/// The first index at or after `i` that does not hold a decimal digit
/// (or the end of the bytes).
pub open spec fn digits_end(b: Seq<u8>, i: int) -> int
    decreases b.len() - i,
{
    if 0 <= i < b.len() && is_digit(b[i]) {
        digits_end(b, i + 1)
    } else {
        i
    }
}

/// The value of a string of decimal digits, most significant first.
pub open spec fn dec_num(b: Seq<u8>) -> int
    decreases b.len(),
{
    if b.len() == 0 {
        0
    } else {
        10 * dec_num(b.drop_last()) + (b.last() - 48)
    }
}

/// Every position before the digits' end holds a digit.
proof fn lemma_digits_end_range(b: Seq<u8>, i: int, j: int)
    requires
        0 <= i <= j < digits_end(b, i),
    ensures
        is_digit(b[j]),
    decreases j - i,
{
    if i < j {
        lemma_digits_end_range(b, i + 1, j);
    }
}

/// One dotted-quad field read at `i`: its value and the index after it.
/// A field is one to three decimal digits with a value of at most 255;
/// leading zeros are accepted.
pub open spec fn parse_dec_field(b: Seq<u8>, i: int) -> Option<(int, int)> {
    let e = digits_end(b, i);
    if i < e && e <= i + 3 && dec_num(b.subrange(i, e)) <= 255 {
        Some((dec_num(b.subrange(i, e)), e))
    } else {
        None
    }
}

/// Whether a byte is a hexadecimal digit.
pub open spec fn is_hex_digit(b: u8) -> bool {
    is_digit(b) || (97 <= b <= 102) || (65 <= b <= 70)
}

/// The value of one hexadecimal digit byte.
pub open spec fn hex_digit_val(b: u8) -> int {
    if is_digit(b) {
        b - 48
    } else if 97 <= b <= 102 {
        b - 87
    } else {
        b - 55
    }
}

/// The first index at or after `i` that does not hold a hexadecimal
/// digit (or the end of the bytes).
pub open spec fn hex_end(b: Seq<u8>, i: int) -> int
    decreases b.len() - i,
{
    if 0 <= i < b.len() && is_hex_digit(b[i]) {
        hex_end(b, i + 1)
    } else {
        i
    }
}

/// The value of a string of hexadecimal digits, most significant first.
pub open spec fn hex_num(b: Seq<u8>) -> int
    decreases b.len(),
{
    if b.len() == 0 {
        0
    } else {
        16 * hex_num(b.drop_last()) + hex_digit_val(b.last())
    }
}

/// One colon-separated group read at `i`: its value and the index after
/// it. A group is one to four hexadecimal digits.
pub open spec fn parse_hex_group(b: Seq<u8>, i: int) -> Option<(int, int)> {
    let e = hex_end(b, i);
    if i < e && e <= i + 4 {
        Some((hex_num(b.subrange(i, e)), e))
    } else {
        None
    }
}

/// The groups separated by single colons that span exactly `[i, end)`,
/// or nothing when that span is not such a list.
pub open spec fn parse_group_seq(b: Seq<u8>, i: int, end: int) -> Option<Seq<u16>>
    decreases end - i,
{
    match parse_hex_group(b, i) {
        None => None,
        Some(g) => if g.1 == end {
            Some(seq![g.0 as u16])
        } else if g.1 < end && b[g.1] == 58 {
            match parse_group_seq(b, g.1 + 1, end) {
                None => None,
                Some(rest) => Some(seq![g.0 as u16] + rest),
            }
        } else {
            None
        },
    }
}

/// The first index at or after `i` where a double colon starts, or the
/// length when there is none.
pub open spec fn first_double_colon(b: Seq<u8>, i: int) -> int
    decreases b.len() - i,
{
    if 0 <= i && i + 1 < b.len() {
        if b[i] == 58 && b[i + 1] == 58 {
            i
        } else {
            first_double_colon(b, i + 1)
        }
    } else {
        b.len() as int
    }
}

/// The eight groups a colon-grouped literal denotes: without a double
/// colon, exactly eight groups spanning the whole name; with one, the
/// groups to its left and right with the elided groups read as zero.
/// Embedded dotted-quad tails and zone suffixes are not part of this
/// grammar.
pub open spec fn spec_ipv6_groups(b: Seq<u8>) -> Option<Seq<u16>> {
    let dc = first_double_colon(b, 0);
    if dc == b.len() {
        match parse_group_seq(b, 0, b.len() as int) {
            Some(gs) => if gs.len() == 8 {
                Some(gs)
            } else {
                None
            },
            None => None,
        }
    } else {
        let left = if dc == 0 {
            Some(Seq::<u16>::empty())
        } else {
            parse_group_seq(b, 0, dc)
        };
        let right = if dc + 2 == b.len() {
            Some(Seq::<u16>::empty())
        } else {
            parse_group_seq(b, dc + 2, b.len() as int)
        };
        match left {
            None => None,
            Some(ls) => match right {
                None => None,
                Some(rs) => if ls.len() + rs.len() <= 7 {
                    Some(ls + Seq::<u16>::new((8 - ls.len() - rs.len()) as nat, |j: int| 0u16) + rs)
                } else {
                    None
                },
            },
        }
    }
}

/// The address a colon-grouped literal denotes, if any.
pub open spec fn spec_ipv6(b: Seq<u8>) -> Option<IpAddr> {
    match spec_ipv6_groups(b) {
        Some(gs) => Some(
            IpAddr::V6([gs[0], gs[1], gs[2], gs[3], gs[4], gs[5], gs[6], gs[7]]),
        ),
        None => None,
    }
}

/// The address a hostname denotes when it is a numeric literal: either
/// four dotted decimal fields or a colon-grouped form, spanning the
/// whole name. Other forms go to the resolver like any hostname.
pub open spec fn spec_ip_literal(b: Seq<u8>) -> Option<IpAddr> {
    match spec_ipv4(b) {
        Some(ip) => Some(ip),
        None => spec_ipv6(b),
    }
}

/// The address a hostname denotes when it is a dotted-quad literal.
pub open spec fn spec_ipv4(b: Seq<u8>) -> Option<IpAddr> {
    match parse_dec_field(b, 0) {
        None => None,
        Some(f0) => if f0.1 < b.len() && b[f0.1] == 46 {
            match parse_dec_field(b, f0.1 + 1) {
                None => None,
                Some(f1) => if f1.1 < b.len() && b[f1.1] == 46 {
                    match parse_dec_field(b, f1.1 + 1) {
                        None => None,
                        Some(f2) => if f2.1 < b.len() && b[f2.1] == 46 {
                            match parse_dec_field(b, f2.1 + 1) {
                                None => None,
                                Some(f3) => if f3.1 == b.len() {
                                    Some(
                                        IpAddr::V4(
                                            [f0.0 as u8, f1.0 as u8, f2.0 as u8, f3.0 as u8],
                                        ),
                                    )
                                } else {
                                    None
                                },
                            }
                        } else {
                            None
                        },
                    }
                } else {
                    None
                },
            }
        } else {
            None
        },
    }
}

/// Reads one dotted-quad field starting at `i`, exactly as
/// [`parse_dec_field`] describes it.
fn scan_dec_field(b: &[u8], i: usize) -> (r: Option<(u8, usize)>)
    requires
        i <= b@.len(),
    ensures
        ({
            match parse_dec_field(b@, i as int) {
                Some(f) => r matches Some(p) && p.0 == f.0 && p.1 == f.1,
                None => r is None,
            }
        }),
{
    let mut e = i;
    while e < b.len() && 48 <= b[e] && b[e] <= 57
        invariant
            i <= e <= b@.len(),
            digits_end(b@, i as int) == digits_end(b@, e as int),
        decreases b@.len() - e,
    {
        e = e + 1;
    }
    proof {
        assert(digits_end(b@, e as int) == e);
    }
    if e == i || e - i > 3 {
        return None;
    }
    let mut val: u32 = 0;
    let mut j = i;
    while j < e
        invariant
            i <= j <= e <= b@.len(),
            e - i <= 3,
            digits_end(b@, i as int) == e,
            val == dec_num(b@.subrange(i as int, j as int)),
            j - i == 0 ==> val == 0,
            j - i == 1 ==> val <= 9,
            j - i == 2 ==> val <= 99,
            val <= 999,
        decreases e - j,
    {
        proof {
            lemma_digits_end_range(b@, i as int, j as int);
            assert(b@.subrange(i as int, j + 1).drop_last() =~= b@.subrange(i as int, j as int));
            assert(b@.subrange(i as int, j + 1).last() == b@[j as int]);
        }
        val = val * 10 + ((b[j] - 48) as u32);
        j = j + 1;
    }
    proof {
        assert(b@.subrange(i as int, e as int) == b@.subrange(i as int, j as int));
    }
    if val > 255 {
        return None;
    }
    Some((val as u8, e))
}

/// Recognizes a dotted-quad literal.
fn scan_ipv4(b: &[u8]) -> (r: Option<IpAddr>)
    ensures
        r == spec_ipv4(b@),
{
    let f0 = match scan_dec_field(b, 0) {
        Some(f) => f,
        None => {
            return None;
        },
    };
    if !(f0.1 < b.len() && b[f0.1] == 46) {
        return None;
    }
    let f1 = match scan_dec_field(b, f0.1 + 1) {
        Some(f) => f,
        None => {
            return None;
        },
    };
    if !(f1.1 < b.len() && b[f1.1] == 46) {
        return None;
    }
    let f2 = match scan_dec_field(b, f1.1 + 1) {
        Some(f) => f,
        None => {
            return None;
        },
    };
    if !(f2.1 < b.len() && b[f2.1] == 46) {
        return None;
    }
    let f3 = match scan_dec_field(b, f2.1 + 1) {
        Some(f) => f,
        None => {
            return None;
        },
    };
    if f3.1 != b.len() {
        return None;
    }
    Some(IpAddr::V4([f0.0, f1.0, f2.0, f3.0]))
}

/// Reads one hexadecimal group at `i`, exactly as [`parse_hex_group`]
/// describes it.
fn scan_hex_group(b: &[u8], i: usize) -> (r: Option<(u16, usize)>)
    requires
        i <= b@.len(),
    ensures
        ({
            match parse_hex_group(b@, i as int) {
                Some(g) => r matches Some(p) && p.0 == g.0 && p.1 == g.1,
                None => r is None,
            }
        }),
{
    let mut e = i;
    while e < b.len() && (48 <= b[e] && b[e] <= 57 || 97 <= b[e] && b[e] <= 102 || 65 <= b[e]
        && b[e] <= 70)
        invariant
            i <= e <= b@.len(),
            hex_end(b@, i as int) == hex_end(b@, e as int),
        decreases b@.len() - e,
    {
        e = e + 1;
    }
    proof {
        assert(hex_end(b@, e as int) == e);
    }
    if e == i || e - i > 4 {
        return None;
    }
    let mut val: u32 = 0;
    let mut j = i;
    while j < e
        invariant
            i <= j <= e <= b@.len(),
            e - i <= 4,
            hex_end(b@, i as int) == e,
            val == hex_num(b@.subrange(i as int, j as int)),
            j - i == 0 ==> val == 0,
            j - i == 1 ==> val <= 0xf,
            j - i == 2 ==> val <= 0xff,
            j - i == 3 ==> val <= 0xfff,
            val <= 0xffff,
        decreases e - j,
    {
        proof {
            lemma_hex_end_range(b@, i as int, j as int);
            assert(b@.subrange(i as int, j + 1).drop_last() =~= b@.subrange(i as int, j as int));
            assert(b@.subrange(i as int, j + 1).last() == b@[j as int]);
        }
        let c = b[j];
        let d: u32 = if 48 <= c && c <= 57 {
            (c - 48) as u32
        } else if 97 <= c && c <= 102 {
            (c - 87) as u32
        } else {
            (c - 55) as u32
        };
        val = val * 16 + d;
        j = j + 1;
    }
    proof {
        assert(b@.subrange(i as int, e as int) == b@.subrange(i as int, j as int));
    }
    Some((val as u16, e))
}

/// Every position before the hexadecimal digits' end holds one.
proof fn lemma_hex_end_range(b: Seq<u8>, i: int, j: int)
    requires
        0 <= i <= j < hex_end(b, i),
    ensures
        is_hex_digit(b[j]),
    decreases j - i,
{
    if i < j {
        lemma_hex_end_range(b, i + 1, j);
    }
}

/// Reads the colon-separated groups spanning exactly `[start, end)`,
/// exactly as [`parse_group_seq`] describes them.
fn scan_group_seq(b: &[u8], start: usize, end: usize) -> (r: Option<Vec<u16>>)
    requires
        start <= end <= b@.len(),
    ensures
        ({
            match parse_group_seq(b@, start as int, end as int) {
                Some(gs) => r matches Some(v) && v@ == gs,
                None => r is None,
            }
        }),
{
    let mut acc: Vec<u16> = Vec::new();
    let mut cur = start;
    loop
        invariant
            start <= cur <= end <= b@.len(),
            ({
                match parse_group_seq(b@, start as int, end as int) {
                    Some(gs) => parse_group_seq(b@, cur as int, end as int) matches Some(rest)
                        && gs == acc@ + rest,
                    None => parse_group_seq(b@, cur as int, end as int) is None,
                }
            }),
        decreases end - cur,
    {
        match scan_hex_group(b, cur) {
            None => {
                return None;
            },
            Some((v, nx)) => {
                acc.push(v);
                if nx == end {
                    proof {
                        assert(parse_group_seq(b@, cur as int, end as int) matches Some(rest)
                            ==> rest =~= seq![v as u16]);
                    }
                    return Some(acc);
                }
                if nx < end && b[nx] == 58 {
                    proof {
                        if parse_group_seq(b@, start as int, end as int) is Some {
                            assert(parse_group_seq(b@, cur as int, end as int) matches Some(rest)
                                ==> (parse_group_seq(b@, nx + 1, end as int) matches Some(r2)
                                && rest == seq![v as u16] + r2));
                        }
                    }
                    cur = nx + 1;
                } else {
                    return None;
                }
            },
        }
    }
}

/// Finds where the first double colon starts, exactly as
/// [`first_double_colon`] describes it.
fn scan_double_colon(b: &[u8]) -> (r: usize)
    ensures
        r == first_double_colon(b@, 0),
        r <= b@.len(),
        r < b@.len() ==> r + 2 <= b@.len(),
{
    if b.len() == 0 {
        return 0;
    }
    let mut j: usize = 0;
    while j < b.len() - 1 && !(b[j] == 58 && b[j + 1] == 58)
        invariant
            b@.len() >= 1,
            0 <= j <= b@.len() - 1,
            first_double_colon(b@, 0) == first_double_colon(b@, j as int),
        decreases b@.len() - j,
    {
        j = j + 1;
    }
    if j < b.len() - 1 {
        j
    } else {
        b.len()
    }
}

/// Recognizes a colon-grouped literal.
fn scan_ipv6(b: &[u8]) -> (r: Option<IpAddr>)
    ensures
        r == spec_ipv6(b@),
{
    let dc = scan_double_colon(b);
    if dc == b.len() {
        match scan_group_seq(b, 0, b.len()) {
            Some(v) => {
                if v.len() == 8 {
                    Some(IpAddr::V6([v[0], v[1], v[2], v[3], v[4], v[5], v[6], v[7]]))
                } else {
                    None
                }
            },
            None => None,
        }
    } else {
        let left = if dc == 0 {
            Vec::new()
        } else {
            match scan_group_seq(b, 0, dc) {
                Some(v) => v,
                None => {
                    return None;
                },
            }
        };
        let right = if dc + 2 == b.len() {
            Vec::new()
        } else {
            match scan_group_seq(b, dc + 2, b.len()) {
                Some(v) => v,
                None => {
                    return None;
                },
            }
        };
        if left.len() > 7 {
            return None;
        }
        if right.len() > 7 - left.len() {
            return None;
        }
        let ghost ls = left@;
        let ghost rs = right@;
        let mut all = left;
        let mut k: usize = 0;
        let zeros = 8 - all.len() - right.len();
        proof {
            assert(ls + Seq::<u16>::new(0, |j: int| 0u16) =~= ls);
        }
        while k < zeros
            invariant
                0 <= k <= zeros,
                zeros == 8 - ls.len() - rs.len(),
                all@ == ls + Seq::<u16>::new(k as nat, |j: int| 0u16),
            decreases zeros - k,
        {
            proof {
                assert((ls + Seq::<u16>::new(k as nat, |j: int| 0u16)).push(0u16) =~= ls
                    + Seq::<u16>::new((k + 1) as nat, |j: int| 0u16));
            }
            all.push(0);
            k = k + 1;
        }
        let mut right = right;
        proof {
            assert(rs.skip(0) =~= rs);
            assert(all@ + rs.take(0) =~= all@);
        }
        while right.len() > 0
            invariant
                right@.len() <= rs.len(),
                right@ == rs.skip(rs.len() - right@.len()),
                all@ == ls + Seq::<u16>::new((8 - ls.len() - rs.len()) as nat, |j: int| 0u16)
                    + rs.take(rs.len() - right@.len()),
            decreases right@.len(),
        {
            let ghost done = rs.len() - right@.len();
            let g = right.remove(0);
            proof {
                assert(rs.skip(done)[0] == rs[done]);
                assert(rs.skip(done).drop_first() =~= rs.skip(done + 1));
                assert((ls + Seq::<u16>::new((8 - ls.len() - rs.len()) as nat, |j: int| 0u16)
                    + rs.take(done)).push(rs[done]) =~= ls + Seq::<u16>::new(
                    (8 - ls.len() - rs.len()) as nat,
                    |j: int| 0u16,
                ) + rs.take(done + 1));
            }
            all.push(g);
        }
        proof {
            assert(rs.take(rs.len() as int) =~= rs);
            assert(all@ =~= ls + Seq::<u16>::new((8 - ls.len() - rs.len()) as nat, |j: int| 0u16)
                + rs);
        }
        Some(IpAddr::V6([all[0], all[1], all[2], all[3], all[4], all[5], all[6], all[7]]))
    }
}

/// Recognizes a hostname that is itself a numeric address literal:
/// a dotted quad or a colon-grouped form, exactly as [`spec_ip_literal`]
/// reads them. The colon-grouped grammar has no embedded dotted-quad
/// tail: such a name, like any other unrecognized form, goes to the
/// resolver instead of being answered locally.
pub fn parse_ip_literal(s: &str) -> (r: Option<IpAddr>)
    ensures
        r == spec_ip_literal(s.spec_bytes()),
{
    let b = s.as_bytes();
    match scan_ipv4(b) {
        Some(ip) => Some(ip),
        None => scan_ipv6(b),
    }
}

/// Whether a candidate address has the preferred family; with no
/// preference every candidate matches.
pub open spec fn spec_family_matches(ip: IpAddr, t: AddrType) -> bool {
    match t {
        AddrType::Either => true,
        AddrType::IPv4 => ip is V4,
        AddrType::IPv6 => ip is V6,
    }
}

/// The first candidate of the preferred family, if any.
pub open spec fn first_family_match(rs: Seq<IpAddr>, t: AddrType) -> Option<IpAddr>
    decreases rs.len(),
{
    if rs.len() == 0 {
        None
    } else if spec_family_matches(rs[0], t) {
        Some(rs[0])
    } else {
        first_family_match(rs.drop_first(), t)
    }
}

/// The selection policy over the resolver's candidates: the first
/// candidate of the preferred family; when none matches, the last
/// candidate seen of whatever family; nothing when there are no
/// candidates at all.
pub open spec fn spec_select_address(rs: Seq<IpAddr>, t: AddrType) -> Option<IpAddr> {
    match first_family_match(rs, t) {
        Some(ip) => Some(ip),
        None => if rs.len() > 0 {
            Some(rs.last())
        } else {
            None
        },
    }
}

/// Whether a candidate address has the preferred family.
pub fn family_matches(ip: &IpAddr, t: AddrType) -> (r: bool)
    ensures
        r == spec_family_matches(*ip, t),
{
    match t {
        AddrType::Either => true,
        AddrType::IPv4 => matches!(ip, IpAddr::V4(_)),
        AddrType::IPv6 => matches!(ip, IpAddr::V6(_)),
    }
}

/// Selects one address from the resolver's candidates, by the policy of
/// [`spec_select_address`].
pub fn select_address(records: &Vec<IpAddr>, t: AddrType) -> (r: Option<IpAddr>)
    ensures
        r == spec_select_address(records@, t),
{
    let mut i: usize = 0;
    proof {
        assert(records@.skip(0) =~= records@);
    }
    while i < records.len()
        invariant
            0 <= i <= records@.len(),
            first_family_match(records@, t) == first_family_match(records@.skip(i as int), t),
        decreases records@.len() - i,
    {
        proof {
            assert(records@.skip(i as int)[0] == records@[i as int]);
            assert(records@.skip(i as int).drop_first() =~= records@.skip(i + 1));
        }
        if family_matches(&records[i], t) {
            return Some(records[i]);
        }
        i = i + 1;
    }
    proof {
        assert(records@.skip(i as int).len() == 0);
    }
    if records.len() > 0 {
        Some(records[records.len() - 1])
    } else {
        None
    }
}

/// What one resolver round trip yields, given the reply the script holds
/// and the family preference.
pub open spec fn resolve_outcome(head: Option<DriverReply>, t: AddrType) -> Result<
    IpAddr,
    NbError,
> {
    match head {
        None => Err(NbError::Other(Error::NoAtResponse)),
        Some(DriverReply::Records(rs)) => match spec_select_address(rs@, t) {
            Some(ip) => Ok(ip),
            None => Err(NbError::Other(Error::AddressNotFound)),
        },
        Some(DriverReply::Done) => Err(NbError::Other(Error::AddressNotFound)),
        Some(DriverReply::Failed(DriverError::Nordic(_code, errno))) => Err(
            NbError::Other(Error::NrfSys(errno)),
        ),
        Some(DriverReply::Failed(e)) => Err(NbError::Other(Error::NrfModem(e))),
        Some(_) => Err(NbError::Other(Error::UnexpectedAtResponse)),
    }
}

impl Modem {
    /// Resolves a hostname with an address-family preference. A numeric
    /// address literal (dotted-quad or colon-grouped) is returned at
    /// once, with no driver interaction.
    /// Any other name must be ASCII and at most 256 bytes long; it is
    /// then handed to the resolver, and one candidate is selected by the
    /// policy of [`spec_select_address`].
    pub fn get_host_by_name(&mut self, hostname: &str, addr_type: AddrType) -> (r: Result<
        IpAddr,
        NbError,
    >)
        ensures
            final(self).state == old(self).state,
            ({
                match spec_ip_literal(hostname.spec_bytes()) {
                    Some(ip) => r == Ok::<IpAddr, NbError>(ip) && *final(self) == *old(self),
                    None => {
                        &&& !vstd::string::is_ascii(hostname) ==> r == Err::<IpAddr, NbError>(
                            NbError::Other(Error::HostnameNotAscii),
                        ) && *final(self) == *old(self)
                        &&& vstd::string::is_ascii(hostname) && hostname.spec_bytes().len() > 256
                            ==> r == Err::<IpAddr, NbError>(NbError::Other(Error::HostnameTooLong))
                            && *final(self) == *old(self)
                        &&& vstd::string::is_ascii(hostname) && hostname.spec_bytes().len() <= 256
                            ==> {
                            &&& final(self).driver.log@.len() == old(self).driver.log@.len() + 1
                            &&& final(self).driver.log@.take(old(self).driver.log@.len() as int)
                                == old(self).driver.log@
                            &&& (final(self).driver.log@.last() matches DriverCall::Resolve(h, t)
                                && h@ == hostname@ && t == addr_type)
                            &&& final(self).driver.script@ == script_tail(old(self).driver.script@)
                            &&& r == resolve_outcome(
                                script_head(old(self).driver.script@),
                                addr_type,
                            )
                        }
                    },
                }
            }),
    {
        if let Some(ip) = parse_ip_literal(hostname) {
            return Ok(ip);
        }
        if !hostname.is_ascii() {
            return Err(NbError::Other(Error::HostnameNotAscii));
        }
        if hostname.as_bytes().len() > 256 {
            return Err(NbError::Other(Error::HostnameTooLong));
        }
        let reply = self.driver.call(
            DriverCall::Resolve(hostname.to_owned(), addr_type),
        );
        proof {
            assert(self.driver.log@.take(old(self).driver.log@.len() as int) =~= old(
                self,
            ).driver.log@);
        }
        match reply {
            None => Err(NbError::Other(Error::NoAtResponse)),
            Some(DriverReply::Records(rs)) => match select_address(&rs, addr_type) {
                Some(ip) => Ok(ip),
                None => Err(NbError::Other(Error::AddressNotFound)),
            },
            Some(DriverReply::Done) => Err(NbError::Other(Error::AddressNotFound)),
            Some(DriverReply::Failed(e)) => {
                match e {
                    DriverError::Nordic(_code, errno) => Err(NbError::Other(Error::NrfSys(errno))),
                    _ => Err(NbError::Other(Error::NrfModem(e))),
                }
            },
            Some(_) => Err(NbError::Other(Error::UnexpectedAtResponse)),
        }
    }
}

} // verus!

//! Desk addresses and names: parsing a colon-delimited MAC, comparing
//! addresses, recognising desks by their advertised name.

use vstd::prelude::*;
use vstd::string::*;

use crate::protocol::DESK_NAME_PREFIX;

verus! {

/// The byte `:`.
pub const COLON: u8 = 0x3a;

/// The parts of `s` between colons, as `split(':')` yields them: there is
/// always at least one, and an empty part stands wherever two colons meet or a
/// colon starts or ends the text.
pub open spec fn split_colon(s: Seq<u8>) -> Seq<Seq<u8>>
    decreases s.len(),
{
    if s.len() == 0 {
        seq![Seq::<u8>::empty()]
    } else {
        let p = split_colon(s.drop_last());
        if s.last() == COLON {
            p.push(Seq::<u8>::empty())
        } else {
            p.update(p.len() - 1, p.last().push(s.last()))
        }
    }
}

/// Splitting never yields an empty list.
pub proof fn lemma_split_nonempty(s: Seq<u8>)
    ensures
        split_colon(s).len() >= 1,
    decreases s.len(),
{
    if s.len() > 0 {
        lemma_split_nonempty(s.drop_last());
    }
}

/// Whether `b` is an ASCII hexadecimal digit of either case.
pub open spec fn is_hex_digit(b: u8) -> bool {
    (0x30 <= b <= 0x39) || (0x61 <= b <= 0x66) || (0x41 <= b <= 0x46)
}

/// The value of a hexadecimal digit (0 for any other byte).
pub open spec fn hex_digit_value(b: u8) -> int {
    if 0x30 <= b <= 0x39 {
        b - 0x30
    } else if 0x61 <= b <= 0x66 {
        b - 0x61 + 10
    } else if 0x41 <= b <= 0x46 {
        b - 0x41 + 10
    } else {
        0
    }
}

/// Whether every byte of `d` is a hexadecimal digit.
pub open spec fn all_hex(d: Seq<u8>) -> bool {
    forall|i: int| 0 <= i < d.len() ==> is_hex_digit(#[trigger] d[i])
}

/// The number that a string of hexadecimal digits spells.
pub open spec fn hex_value(d: Seq<u8>) -> int
    decreases d.len(),
{
    if d.len() == 0 {
        0
    } else {
        hex_value(d.drop_last()) * 16 + hex_digit_value(d.last())
    }
}

/// The digits of a part once an optional leading `+` is taken off.
pub open spec fn unsigned_digits(part: Seq<u8>) -> Seq<u8> {
    if part.len() > 0 && part[0] == 0x2b {
        part.drop_first()
    } else {
        part
    }
}

/// The byte that `u8::from_str_radix(part, 16)` reads from `part`: an
/// optional `+`, then at least one hexadecimal digit of either case, spelling
/// a number below 256. `None` for anything else.
pub open spec fn octet_of(part: Seq<u8>) -> Option<int> {
    if unsigned_digits(part).len() > 0 && all_hex(unsigned_digits(part))
        && hex_value(unsigned_digits(part)) < 256 {
        Some(hex_value(unsigned_digits(part)))
    } else {
        None
    }
}

/// The big-endian number that a list of octets spells.
pub open spec fn octets_value(parts: Seq<Seq<u8>>) -> int
    decreases parts.len(),
{
    if parts.len() == 0 {
        0
    } else {
        octets_value(parts.drop_last()) * 256 + octet_of(parts.last()).unwrap()
    }
}

/// A well-formed address: exactly six colon-separated parts, each an octet.
pub open spec fn is_valid_address(s: Seq<u8>) -> bool {
    let parts = split_colon(s);
    &&& parts.len() == 6
    &&& forall|i: int| 0 <= i < 6 ==> (#[trigger] octet_of(parts[i])) is Some
}

/// The number a well-formed address spells.
pub open spec fn address_value(s: Seq<u8>) -> int {
    octets_value(split_colon(s))
}

/// A text that is not a Bluetooth address.
#[derive(Clone, Debug)]
pub struct InvalidAddress {
    pub address: String,
}

impl InvalidAddress {
    /// The error's message: `invalid Bluetooth address: <address>`.
    pub fn message(&self) -> (m: String)
        ensures
            m@ == "invalid Bluetooth address: "@ + self.address@,
    {
        String::from_str("invalid Bluetooth address: ").concat(self.address.as_str())
    }
}

/// Read one octet the way `u8::from_str_radix(part, 16)` does.
pub fn parse_octet(part: &Vec<u8>) -> (octet: Option<u8>)
    ensures
        match octet_of(part@) {
            Some(v) => 0 <= v < 256 && octet == Some(v as u8),
            None => octet is None,
        },
{
    let n = part.len();
    let start: usize = if n > 0 && part[0] == 0x2b {
        1
    } else {
        0
    };
    let ghost d = unsigned_digits(part@);
    assert(d == part@.subrange(start as int, n as int));
    if start >= n {
        return None;
    }
    // `acc` is the value read so far, held at 256 once it no longer fits.
    let mut acc: u32 = 0;
    let mut i: usize = start;
    while i < n
        invariant
            start <= i <= n,
            n == part@.len(),
            d == part@.subrange(start as int, n as int),
            d == unsigned_digits(part@),
            forall|j: int| 0 <= j < i - start ==> is_hex_digit(#[trigger] d[j]),
            hex_value(d.take(i - start)) >= 0,
            acc == if hex_value(d.take(i - start)) < 256 {
                hex_value(d.take(i - start))
            } else {
                256
            },
        decreases n - i,
    {
        let b = part[i];
        let v: u32 = if 0x30 <= b && b <= 0x39 {
            (b - 0x30) as u32
        } else if 0x61 <= b && b <= 0x66 {
            (b - 0x61 + 10) as u32
        } else if 0x41 <= b && b <= 0x46 {
            (b - 0x41 + 10) as u32
        } else {
            proof {
                assert(d[i - start] == b);
                assert(!is_hex_digit(d[i - start]));
                assert(!all_hex(d));
            }
            return None;
        };
        proof {
            let k = (i - start) as int;
            assert(d.take(k + 1).drop_last() == d.take(k));
            assert(d.take(k + 1).last() == b);
        }
        acc = if acc >= 256 {
            256
        } else {
            let next = acc * 16 + v;
            if next >= 256 {
                256
            } else {
                next
            }
        };
        i = i + 1;
    }
    proof {
        assert(d.take(n - start) == d);
    }
    if acc >= 256 {
        None
    } else {
        Some(acc as u8)
    }
}

/// Parse a colon-delimited MAC (`DF:EA:BA:E8:8E:44`) into the big-endian
/// `u64` it spells. Each of the six parts is read as `u8::from_str_radix(part,
/// 16)` reads it; any other text is an [`InvalidAddress`].
pub fn parse_address(address: &str) -> (r: Result<u64, InvalidAddress>)
    ensures
        match r {
            Ok(v) => is_valid_address(address.spec_bytes()) && v == address_value(address.spec_bytes()),
            Err(e) => !is_valid_address(address.spec_bytes()) && e.address@ == address@,
        },
{
    let bytes = address.as_bytes();
    let n = bytes.len();
    let ghost s = bytes@;
    let mut cur: Vec<u8> = Vec::new();
    let mut done: usize = 0;
    let mut value: u64 = 0;
    let mut i: usize = 0;
    proof {
        assert(s.take(0) == Seq::<u8>::empty());
    }
    while i < n
        invariant
            i <= n,
            n == s.len(),
            s == bytes@,
            s == address.spec_bytes(),
            done <= 5,
            split_colon(s.take(i as int)).len() == done + 1,
            split_colon(s.take(i as int)).last() == cur@,
            forall|j: int| 0 <= j < done ==> (#[trigger] octet_of(split_colon(s.take(i as int))[j])) is Some,
            value == octets_value(split_colon(s.take(i as int)).take(done as int)),
            0 <= value < pow256(done as nat),
        decreases n - i,
    {
        let b = bytes[i];
        let ghost before = split_colon(s.take(i as int));
        proof {
            assert(s.take(i + 1).drop_last() == s.take(i as int));
            assert(s.take(i + 1).last() == b);
        }
        if b == COLON {
            let o = match parse_octet(&cur) {
                Some(o) => o,
                None => {
                    proof {
                        lemma_invalid_part(s, i as int);
                    }
                    return Err(InvalidAddress { address: address.to_owned() });
                },
            };
            if done == 5 {
                proof {
                    lemma_too_many_parts(s, (i + 1) as int);
                }
                return Err(InvalidAddress { address: address.to_owned() });
            }
            proof {
                let after = split_colon(s.take(i + 1));
                assert(after == before.push(Seq::<u8>::empty()));
                assert(after.take(done + 1) == before);
                assert(before.take(done as int) == before.drop_last());
                assert(octets_value(before) == octets_value(before.take(done as int)) * 256 + octet_of(cur@).unwrap());
                lemma_pow256_step(done as nat);
            }
            value = value * 256 + o as u64;
            done = done + 1;
            cur = Vec::new();
        } else {
            cur.push(b);
            proof {
                let after = split_colon(s.take(i + 1));
                assert(after == before.update(before.len() - 1, before.last().push(b)));
                assert(after.take(done as int) == before.take(done as int));
            }
        }
        i = i + 1;
    }
    proof {
        assert(s.take(n as int) == s);
    }
    let ghost parts = split_colon(s);
    assert(split_colon(s.take(n as int)) == parts);
    match parse_octet(&cur) {
        Some(o) => {
            if done == 5 {
                proof {
                    assert(parts.take(5) == parts.drop_last());
                    assert forall|j: int| 0 <= j < 6 implies (#[trigger] octet_of(parts[j])) is Some by {
                        if j == 5 {
                            assert(parts[j] == cur@);
                        }
                    }
                    lemma_pow256_step(5);
                }
                Ok(value * 256 + o as u64)
            } else {
                Err(InvalidAddress { address: address.to_owned() })
            }
        },
        None => {
            proof {
                if parts.len() == 6 {
                    assert(parts[5] == cur@);
                }
            }
            Err(InvalidAddress { address: address.to_owned() })
        },
    }
}

/// `256^n`.
pub open spec fn pow256(n: nat) -> int
    decreases n,
{
    if n == 0 {
        1
    } else {
        256 * pow256((n - 1) as nat)
    }
}

proof fn lemma_pow256_step(n: nat)
    requires
        n <= 5,
    ensures
        pow256(n + 1) == 256 * pow256(n),
        pow256(n + 1) <= pow256(6),
        pow256(6) == 0x1000000000000,
{
    reveal_with_fuel(pow256, 7);
}

/// A part that is not an octet, closed by a colon, makes the whole text
/// invalid.
proof fn lemma_invalid_part(s: Seq<u8>, i: int)
    requires
        0 <= i < s.len(),
        s[i] == COLON,
        octet_of(split_colon(s.take(i)).last()) is None,
    ensures
        !is_valid_address(s),
{
    let before = split_colon(s.take(i));
    lemma_split_nonempty(s.take(i));
    assert(s.take(i + 1).drop_last() == s.take(i));
    let after = split_colon(s.take(i + 1));
    assert(after == before.push(Seq::<u8>::empty()));
    lemma_split_prefix(s, i + 1, s.len() as int);
    assert(s.take(s.len() as int) == s);
    let parts = split_colon(s);
    let k = before.len() - 1;
    assert(after[k] == before.last());
    assert(parts[k] == after[k]);
    if parts.len() == 6 {
        assert(octet_of(parts[k]) is None);
    }
}

/// Reading further never changes a part that a later colon has closed, and
/// never lowers the number of parts.
proof fn lemma_split_prefix(s: Seq<u8>, i: int, j: int)
    requires
        0 <= i <= j <= s.len(),
    ensures
        split_colon(s.take(i)).len() <= split_colon(s.take(j)).len(),
        forall|k: int| 0 <= k < split_colon(s.take(i)).len() - 1
            ==> #[trigger] split_colon(s.take(i))[k] == split_colon(s.take(j))[k],
    decreases j - i,
{
    if j > i {
        lemma_split_prefix(s, i, j - 1);
        assert(s.take(j).drop_last() == s.take(j - 1));
        lemma_split_nonempty(s.take(j - 1));
        lemma_split_nonempty(s.take(i));
    }
}

/// Once a sixth colon has been read the text has more than six parts.
proof fn lemma_too_many_parts(s: Seq<u8>, i: int)
    requires
        0 <= i <= s.len(),
        split_colon(s.take(i)).len() == 7,
    ensures
        !is_valid_address(s),
{
    lemma_split_prefix(s, i, s.len() as int);
    assert(s.take(s.len() as int) == s);
}

/// A byte with ASCII upper case folded to lower case.
pub open spec fn ascii_lower(b: u8) -> u8 {
    if 0x41 <= b <= 0x5a {
        (b + 0x20) as u8
    } else {
        b
    }
}

/// Two byte strings equal up to ASCII case, as `str::eq_ignore_ascii_case`
/// compares them.
pub open spec fn same_ignoring_ascii_case(a: Seq<u8>, b: Seq<u8>) -> bool {
    &&& a.len() == b.len()
    &&& forall|i: int| 0 <= i < a.len() ==> #[trigger] ascii_lower(a[i]) == ascii_lower(b[i])
}

/// Whether a peripheral's address names the desk that was asked for: the two
/// are equal up to ASCII case (`DF:EA:..` matches `df:ea:..`).
pub fn address_matches(found: &str, wanted: &str) -> (m: bool)
    ensures
        m == same_ignoring_ascii_case(found.spec_bytes(), wanted.spec_bytes()),
{
    let a = found.as_bytes();
    let b = wanted.as_bytes();
    if a.len() != b.len() {
        return false;
    }
    let mut i: usize = 0;
    while i < a.len()
        invariant
            a@ == found.spec_bytes(),
            b@ == wanted.spec_bytes(),
            a@.len() == b@.len(),
            i <= a@.len(),
            forall|j: int| 0 <= j < i ==> #[trigger] ascii_lower(a@[j]) == ascii_lower(b@[j]),
        decreases a@.len() - i,
    {
        let x = a[i];
        let y = b[i];
        let lx = if 0x41 <= x && x <= 0x5a {
            x + 0x20
        } else {
            x
        };
        let ly = if 0x41 <= y && y <= 0x5a {
            y + 0x20
        } else {
            y
        };
        if lx != ly {
            proof {
                assert(ascii_lower(a@[i as int]) != ascii_lower(b@[i as int]));
            }
            return false;
        }
        i = i + 1;
    }
    true
}

/// Address comparison is reflexive.
pub proof fn lemma_address_matches_itself(a: Seq<u8>)
    ensures
        same_ignoring_ascii_case(a, a),
{
}

/// Address comparison is symmetric.
pub proof fn lemma_address_matches_symmetric(a: Seq<u8>, b: Seq<u8>)
    ensures
        same_ignoring_ascii_case(a, b) == same_ignoring_ascii_case(b, a),
{
}

/// Address comparison is transitive.
pub proof fn lemma_address_matches_transitive(a: Seq<u8>, b: Seq<u8>, c: Seq<u8>)
    requires
        same_ignoring_ascii_case(a, b),
        same_ignoring_ascii_case(b, c),
    ensures
        same_ignoring_ascii_case(a, c),
{
    assert forall|i: int| 0 <= i < a.len() implies #[trigger] ascii_lower(a[i]) == ascii_lower(c[i]) by {
        assert(ascii_lower(a[i]) == ascii_lower(b[i]));
        assert(ascii_lower(b[i]) == ascii_lower(c[i]));
    }
}

/// Whether `s` begins with `prefix`, byte for byte, as `str::starts_with`
/// decides for a string prefix.
pub fn starts_with(s: &str, prefix: &str) -> (r: bool)
    ensures
        r == prefix.spec_bytes().is_prefix_of(s.spec_bytes()),
{
    let a = s.as_bytes();
    let p = prefix.as_bytes();
    if p.len() > a.len() {
        return false;
    }
    let mut i: usize = 0;
    while i < p.len()
        invariant
            a@ == s.spec_bytes(),
            p@ == prefix.spec_bytes(),
            p@.len() <= a@.len(),
            i <= p@.len(),
            forall|j: int| 0 <= j < i ==> p@[j] == a@[j],
        decreases p@.len() - i,
    {
        if p[i] != a[i] {
            return false;
        }
        i = i + 1;
    }
    true
}

/// Whether an advertised name is a LINAK desk's ("Desk XXXX").
pub fn is_desk_name(name: &str) -> (r: bool)
    ensures
        r == DESK_NAME_PREFIX.spec_bytes().is_prefix_of(name.spec_bytes()),
{
    starts_with(name, DESK_NAME_PREFIX)
}

/// A command that needs a desk address was given none.
#[derive(Clone, Copy, Debug)]
pub struct MissingAddress;

impl MissingAddress {
    /// The error's message, which points at `--address` and at `scan`.
    pub fn message(&self) -> (m: String)
        ensures
            m@ == "no desk address \u{2014} pass --address <MAC> (run `desk-cli scan` to find it)"@,
    {
        String::from_str("no desk address \u{2014} pass --address <MAC> (run `desk-cli scan` to find it)")
    }
}

/// The address a command needs: the one given, or [`MissingAddress`].
pub fn require_address(opt: Option<String>) -> (r: Result<String, MissingAddress>)
    ensures
        match opt {
            Some(a) => r == Ok::<String, MissingAddress>(a),
            None => r is Err,
        },
{
    match opt {
        Some(a) => Ok(a),
        None => Err(MissingAddress),
    }
}

/// Bytes equal up to ASCII case are both hexadecimal digits of the same
/// value, or both not digits; and one is a colon or a `+` exactly when the
/// other is.
proof fn lemma_byte_case(x: u8, y: u8)
    requires
        ascii_lower(x) == ascii_lower(y),
    ensures
        is_hex_digit(x) == is_hex_digit(y),
        hex_digit_value(x) == hex_digit_value(y),
        (x == COLON) == (y == COLON),
        (x == 0x2b) == (y == 0x2b),
{
}

/// Splitting texts equal up to ASCII case gives parts equal up to ASCII case.
proof fn lemma_split_case(a: Seq<u8>, b: Seq<u8>)
    requires
        same_ignoring_ascii_case(a, b),
    ensures
        split_colon(a).len() == split_colon(b).len(),
        forall|i: int| 0 <= i < split_colon(a).len()
            ==> same_ignoring_ascii_case(#[trigger] split_colon(a)[i], split_colon(b)[i]),
    decreases a.len(),
{
    if a.len() > 0 {
        let a0 = a.drop_last();
        let b0 = b.drop_last();
        assert(same_ignoring_ascii_case(a0, b0)) by {
            assert forall|i: int| 0 <= i < a0.len() implies #[trigger] ascii_lower(a0[i]) == ascii_lower(b0[i]) by {
                assert(ascii_lower(a[i]) == ascii_lower(b[i]));
            }
        }
        lemma_split_case(a0, b0);
        lemma_split_nonempty(a0);
        assert(ascii_lower(a[a.len() - 1]) == ascii_lower(b[b.len() - 1]));
        lemma_byte_case(a.last(), b.last());
        let pa = split_colon(a0);
        let pb = split_colon(b0);
        if a.last() == COLON {
            assert forall|i: int| 0 <= i < split_colon(a).len()
                implies same_ignoring_ascii_case(#[trigger] split_colon(a)[i], split_colon(b)[i]) by {
                if i < pa.len() {
                    assert(split_colon(a)[i] == pa[i]);
                    assert(split_colon(b)[i] == pb[i]);
                }
            }
        } else {
            let k = pa.len() - 1;
            assert(same_ignoring_ascii_case(pa[k], pb[k]));
            assert forall|i: int| 0 <= i < split_colon(a).len()
                implies same_ignoring_ascii_case(#[trigger] split_colon(a)[i], split_colon(b)[i]) by {
                if i < k {
                    assert(split_colon(a)[i] == pa[i]);
                    assert(split_colon(b)[i] == pb[i]);
                } else {
                    let x = split_colon(a)[i];
                    let y = split_colon(b)[i];
                    assert(x == pa[k].push(a.last()));
                    assert(y == pb[k].push(b.last()));
                    assert forall|j: int| 0 <= j < x.len() implies #[trigger] ascii_lower(x[j]) == ascii_lower(y[j]) by {
                        if j < pa[k].len() {
                            assert(ascii_lower(pa[k][j]) == ascii_lower(pb[k][j]));
                        }
                    }
                }
            }
        }
    }
}

/// Digit strings equal up to ASCII case spell the same number.
proof fn lemma_hex_value_case(a: Seq<u8>, b: Seq<u8>)
    requires
        same_ignoring_ascii_case(a, b),
    ensures
        hex_value(a) == hex_value(b),
        all_hex(a) == all_hex(b),
    decreases a.len(),
{
    if a.len() > 0 {
        let a0 = a.drop_last();
        let b0 = b.drop_last();
        assert(same_ignoring_ascii_case(a0, b0)) by {
            assert forall|i: int| 0 <= i < a0.len() implies #[trigger] ascii_lower(a0[i]) == ascii_lower(b0[i]) by {
                assert(ascii_lower(a[i]) == ascii_lower(b[i]));
            }
        }
        lemma_hex_value_case(a0, b0);
        assert(ascii_lower(a[a.len() - 1]) == ascii_lower(b[b.len() - 1]));
        lemma_byte_case(a.last(), b.last());
        assert forall|i: int| 0 <= i < a.len() implies is_hex_digit(#[trigger] a[i]) == is_hex_digit(b[i]) by {
            assert(ascii_lower(a[i]) == ascii_lower(b[i]));
            lemma_byte_case(a[i], b[i]);
        }
        if all_hex(a) {
            assert forall|i: int| 0 <= i < b.len() implies is_hex_digit(#[trigger] b[i]) by {
                assert(is_hex_digit(a[i]));
            }
        }
        if all_hex(b) {
            assert forall|i: int| 0 <= i < a.len() implies is_hex_digit(#[trigger] a[i]) by {
                assert(is_hex_digit(b[i]));
            }
        }
    }
}

/// Parts equal up to ASCII case are the same octet, or both not octets.
proof fn lemma_octet_case(a: Seq<u8>, b: Seq<u8>)
    requires
        same_ignoring_ascii_case(a, b),
    ensures
        octet_of(a) == octet_of(b),
{
    if a.len() > 0 {
        assert(ascii_lower(a[0]) == ascii_lower(b[0]));
        lemma_byte_case(a[0], b[0]);
    }
    let da = unsigned_digits(a);
    let db = unsigned_digits(b);
    assert(same_ignoring_ascii_case(da, db)) by {
        if a.len() > 0 && a[0] == 0x2b {
            assert forall|i: int| 0 <= i < da.len() implies #[trigger] ascii_lower(da[i]) == ascii_lower(db[i]) by {
                assert(ascii_lower(a[i + 1]) == ascii_lower(b[i + 1]));
            }
        }
    }
    lemma_hex_value_case(da, db);
}

/// Lists of parts equal up to ASCII case spell the same number.
proof fn lemma_octets_value_case(pa: Seq<Seq<u8>>, pb: Seq<Seq<u8>>)
    requires
        pa.len() == pb.len(),
        forall|i: int| 0 <= i < pa.len() ==> same_ignoring_ascii_case(#[trigger] pa[i], pb[i]),
    ensures
        octets_value(pa) == octets_value(pb),
    decreases pa.len(),
{
    if pa.len() > 0 {
        let qa = pa.drop_last();
        let qb = pb.drop_last();
        assert forall|i: int| 0 <= i < qa.len() implies same_ignoring_ascii_case(#[trigger] qa[i], qb[i]) by {
            assert(same_ignoring_ascii_case(pa[i], pb[i]));
        }
        lemma_octets_value_case(qa, qb);
        assert(same_ignoring_ascii_case(pa[pa.len() - 1], pb[pb.len() - 1]));
        lemma_octet_case(pa.last(), pb.last());
    }
}

/// Address parsing ignores ASCII case just as address comparison does: two
/// addresses that [`address_matches`] equates are both valid or both invalid,
/// and spell the same number.
pub proof fn lemma_parse_agrees_with_match(a: Seq<u8>, b: Seq<u8>)
    requires
        same_ignoring_ascii_case(a, b),
    ensures
        is_valid_address(a) == is_valid_address(b),
        is_valid_address(a) ==> address_value(a) == address_value(b),
{
    lemma_split_case(a, b);
    let pa = split_colon(a);
    let pb = split_colon(b);
    assert forall|i: int| 0 <= i < pa.len() implies #[trigger] octet_of(pa[i]) == octet_of(pb[i]) by {
        assert(same_ignoring_ascii_case(pa[i], pb[i]));
        lemma_octet_case(pa[i], pb[i]);
    }
    if pa.len() == 6 {
        assert((forall|i: int| 0 <= i < 6 ==> (#[trigger] octet_of(pa[i])) is Some) ==
            (forall|i: int| 0 <= i < 6 ==> (#[trigger] octet_of(pb[i])) is Some)) by {
            assert forall|i: int| 0 <= i < 6 implies (octet_of(pa[i]) is Some) == (#[trigger] octet_of(pb[i]) is Some) by {
                assert(octet_of(pa[i]) == octet_of(pb[i]));
            }
        }
    }
    lemma_octets_value_case(pa, pb);
}

/// The lower-case hexadecimal digit of a value `0..16`.
pub open spec fn lower_hex_digit(n: int) -> u8 {
    if n < 10 {
        (0x30 + n) as u8
    } else {
        (0x61 + n - 10) as u8
    }
}

/// Octet `i` (`0..6`, most significant first) of a 48-bit address value.
pub open spec fn address_octet(v: u64, i: int) -> int {
    if i == 0 {
        ((v >> 40u64) & 0xffu64) as int
    } else if i == 1 {
        ((v >> 32u64) & 0xffu64) as int
    } else if i == 2 {
        ((v >> 24u64) & 0xffu64) as int
    } else if i == 3 {
        ((v >> 16u64) & 0xffu64) as int
    } else if i == 4 {
        ((v >> 8u64) & 0xffu64) as int
    } else {
        (v & 0xffu64) as int
    }
}

/// The canonical text of a 48-bit address value: its six octets, most
/// significant first, each as two lower-case hexadecimal digits, joined by
/// colons (`df:ea:ba:e8:8e:44`).
pub open spec fn address_text(v: u64) -> Seq<u8> {
    Seq::new(17, |k: int| if k % 3 == 2 {
        COLON
    } else if k % 3 == 0 {
        lower_hex_digit(address_octet(v, k / 3) / 16)
    } else {
        lower_hex_digit(address_octet(v, k / 3) % 16)
    })
}

/// Splitting a prefix of a text with colons exactly at positions `3j + 2`
/// gives the two-byte groups read so far and the partial one after them.
proof fn lemma_split_grouped(s: Seq<u8>, i: int)
    requires
        s.len() == 17,
        forall|k: int| 0 <= k < 17 ==> ((#[trigger] s[k] == COLON) <==> k % 3 == 2),
        0 <= i <= 17,
    ensures
        split_colon(s.take(i)).len() == i / 3 + 1,
        forall|j: int| 0 <= j < i / 3 ==> #[trigger] split_colon(s.take(i))[j] == s.subrange(3 * j, 3 * j + 2),
        split_colon(s.take(i)).last() == s.subrange(3 * (i / 3), i),
    decreases i,
{
    if i == 0 {
        assert(s.take(0) == Seq::<u8>::empty());
        assert(s.subrange(0, 0) == Seq::<u8>::empty());
    } else {
        lemma_split_grouped(s, i - 1);
        assert(s.take(i).drop_last() == s.take(i - 1));
        assert(s.take(i).last() == s[i - 1]);
        let prev = split_colon(s.take(i - 1));
        if (i - 1) % 3 == 2 {
            assert(s[i - 1] == COLON);
            assert(split_colon(s.take(i)) == prev.push(Seq::<u8>::empty()));
            assert(s.subrange(3 * (i / 3), i) == Seq::<u8>::empty());
            assert forall|j: int| 0 <= j < i / 3 implies #[trigger] split_colon(s.take(i))[j] == s.subrange(3 * j, 3 * j + 2) by {
                if j < (i - 1) / 3 {
                    assert(split_colon(s.take(i))[j] == prev[j]);
                } else {
                    assert(j == (i - 1) / 3);
                    assert(split_colon(s.take(i))[j] == prev.last());
                }
            }
        } else {
            assert(s[i - 1] != COLON);
            assert(split_colon(s.take(i)) == prev.update(prev.len() - 1, prev.last().push(s[i - 1])));
            assert(s.subrange(3 * (i / 3), i) == s.subrange(3 * ((i - 1) / 3), i - 1).push(s[i - 1]));
            assert forall|j: int| 0 <= j < i / 3 implies #[trigger] split_colon(s.take(i))[j] == s.subrange(3 * j, 3 * j + 2) by {
                assert(split_colon(s.take(i))[j] == prev[j]);
            }
        }
    }
}

/// A lower-case hexadecimal digit reads back as its value.
proof fn lemma_lower_hex_digit(n: int)
    requires
        0 <= n < 16,
    ensures
        is_hex_digit(lower_hex_digit(n)),
        hex_digit_value(lower_hex_digit(n)) == n,
        lower_hex_digit(n) != COLON,
        lower_hex_digit(n) != 0x2b,
{
}

/// An octet written as two lower-case hexadecimal digits reads back as itself.
proof fn lemma_octet_text(o: int)
    requires
        0 <= o < 256,
    ensures
        octet_of(seq![lower_hex_digit(o / 16), lower_hex_digit(o % 16)]) == Some(o),
{
    let d = seq![lower_hex_digit(o / 16), lower_hex_digit(o % 16)];
    lemma_lower_hex_digit(o / 16);
    lemma_lower_hex_digit(o % 16);
    assert(unsigned_digits(d) == d);
    assert(all_hex(d));
    assert(d.drop_last() == seq![lower_hex_digit(o / 16)]);
    assert(d.drop_last().drop_last() == Seq::<u8>::empty());
    let e = seq![lower_hex_digit(o / 16)];
    assert(e.drop_last() == Seq::<u8>::empty());
    assert(e.last() == lower_hex_digit(o / 16));
    assert(hex_value(Seq::<u8>::empty()) == 0);
    assert(hex_value(e) == o / 16);
    assert(hex_value(d.drop_last()) == o / 16);
    assert(hex_value(d) == (o / 16) * 16 + o % 16);
}

/// Octets below 256, and a 48-bit value is the number its octets spell.
proof fn lemma_octets_recombine(v: u64)
    requires
        v < 0x1000000000000u64,
    ensures
        forall|i: int| 0 <= i < 6 ==> 0 <= #[trigger] address_octet(v, i) < 256,
        ((((address_octet(v, 0) * 256 + address_octet(v, 1)) * 256 + address_octet(v, 2)) * 256
            + address_octet(v, 3)) * 256 + address_octet(v, 4)) * 256 + address_octet(v, 5) == v,
{
    assert(((v >> 40u64) & 0xffu64) < 256 && ((v >> 32u64) & 0xffu64) < 256 && ((v >> 24u64) & 0xffu64) < 256
        && ((v >> 16u64) & 0xffu64) < 256 && ((v >> 8u64) & 0xffu64) < 256 && (v & 0xffu64) < 256) by (bit_vector);
    assert(((((((v >> 40u64) & 0xffu64) * 256 + ((v >> 32u64) & 0xffu64)) * 256 + ((v >> 24u64) & 0xffu64)) * 256
        + ((v >> 16u64) & 0xffu64)) * 256 + ((v >> 8u64) & 0xffu64)) * 256 + (v & 0xffu64) == v) by (bit_vector)
        requires
            v < 0x1000000000000u64,
    ;
}

/// Any 48-bit value written as six two-digit hexadecimal octets joined by
/// colons, in any mix of letter case, parses back to that value.
pub proof fn lemma_address_text_round_trip(v: u64, s: Seq<u8>)
    requires
        v < 0x1000000000000u64,
        same_ignoring_ascii_case(s, address_text(v)),
    ensures
        is_valid_address(s),
        address_value(s) == v,
{
    let t = address_text(v);
    lemma_octets_recombine(v);
    assert forall|k: int| 0 <= k < 17 implies ((#[trigger] t[k] == COLON) <==> k % 3 == 2) by {
        if k % 3 != 2 {
            let o = address_octet(v, k / 3);
            assert(0 <= o < 256);
            lemma_lower_hex_digit(o / 16);
            lemma_lower_hex_digit(o % 16);
        }
    }
    lemma_split_grouped(t, 17);
    assert(t.take(17) == t);
    let parts = split_colon(t);
    assert forall|j: int| 0 <= j < 6 implies #[trigger] parts[j] == seq![
        lower_hex_digit(address_octet(v, j) / 16),
        lower_hex_digit(address_octet(v, j) % 16),
    ] by {
        assert(parts[j] == t.subrange(3 * j, 3 * j + 2));
        assert((3 * j) / 3 == j);
        assert((3 * j + 1) / 3 == j);
        assert(t.subrange(3 * j, 3 * j + 2) =~= seq![t[3 * j], t[3 * j + 1]]);
    }
    assert forall|j: int| 0 <= j < 6 implies #[trigger] octet_of(parts[j]) == Some(address_octet(v, j)) by {
        lemma_octet_text(address_octet(v, j));
    }
    assert(is_valid_address(t));
    assert(parts.drop_last().len() == 5);
    let p5 = parts;
    let p4 = p5.drop_last();
    let p3 = p4.drop_last();
    let p2 = p3.drop_last();
    let p1 = p2.drop_last();
    let p0 = p1.drop_last();
    assert(octet_of(p5.last()) == Some(address_octet(v, 5)));
    assert(p4.last() == parts[4]);
    assert(p3.last() == parts[3]);
    assert(p2.last() == parts[2]);
    assert(p1.last() == parts[1]);
    assert(p0.last() == parts[0]);
    let a0 = address_octet(v, 0);
    let a1 = address_octet(v, 1);
    let a2 = address_octet(v, 2);
    let a3 = address_octet(v, 3);
    let a4 = address_octet(v, 4);
    let a5 = address_octet(v, 5);
    assert(octet_of(parts[0]) == Some(a0));
    assert(octet_of(parts[1]) == Some(a1));
    assert(octet_of(parts[2]) == Some(a2));
    assert(octet_of(parts[3]) == Some(a3));
    assert(octet_of(parts[4]) == Some(a4));
    assert(octet_of(parts[5]) == Some(a5));
    assert(p0.len() == 1);
    assert(p0.drop_last().len() == 0);
    assert(octets_value(p0.drop_last()) == 0);
    assert(octets_value(p0) == a0);
    assert(octets_value(p1) == a0 * 256 + a1);
    assert(octets_value(p2) == (a0 * 256 + a1) * 256 + a2);
    assert(octets_value(p3) == ((a0 * 256 + a1) * 256 + a2) * 256 + a3);
    assert(octets_value(p4) == (((a0 * 256 + a1) * 256 + a2) * 256 + a3) * 256 + a4);
    assert(octets_value(p5) == ((((a0 * 256 + a1) * 256 + a2) * 256 + a3) * 256 + a4) * 256 + a5);
    assert(address_value(t) == v);
    lemma_address_matches_symmetric(s, t);
    lemma_parse_agrees_with_match(t, s);
}

} // verus!

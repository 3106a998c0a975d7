//! Ethernet MAC addresses.

use vstd::prelude::*;
use crate::error::Error;
use rand::rngs::OsRng;
use rand::RngCore;
use crate::text::{chars_of, hex2, hex_digit, push_hex2, split, split_of, lemma_split_sep_concat, lemma_split_no_sep};

verus! {

/// A 48-bit Ethernet MAC address.
///
/// UTM uses QEMU's locally-administered range (`52:54:00:xx:xx:xx`) by convention.
#[derive(Debug, Clone, PartialEq, Eq)]
pub struct MacAddress([u8; 6]);

impl View for MacAddress {
    type V = Seq<u8>;

    closed spec fn view(&self) -> Seq<u8> {
        self.0@
    }
}

/// The colon-separated lowercase text of the six octets `o` (`52:54:00:ab:cd:ef`).
pub open spec fn mac_text(o: Seq<u8>) -> Seq<char> {
    hex2(o[0]) + seq![':'] + hex2(o[1]) + seq![':'] + hex2(o[2]) + seq![':'] + hex2(o[3])
        + seq![':'] + hex2(o[4]) + seq![':'] + hex2(o[5])
}

/// The value of a hexadecimal digit, either case.
pub open spec fn hex_digit_value(c: char) -> Option<nat> {
    if '0' <= c && c <= '9' {
        Some((c as int - 48) as nat)
    } else if 'a' <= c && c <= 'f' {
        Some((c as int - 87) as nat)
    } else if 'A' <= c && c <= 'F' {
        Some((c as int - 55) as nat)
    } else {
        None
    }
}

/// The value of the hexadecimal numeral `d`, if every character is a digit.
pub open spec fn hex_number(d: Seq<char>) -> Option<nat>
    decreases d.len(),
{
    if d.len() == 0 {
        Some(0)
    } else {
        match (hex_number(d.drop_last()), hex_digit_value(d.last())) {
            (Some(v), Some(x)) => Some(v * 16 + x),
            _ => None,
        }
    }
}

/// What `u8::from_str_radix(p, 16)` accepts: an optional `+`, then at least one
/// hexadecimal digit, with a value that fits in a byte.
pub open spec fn octet_of(p: Seq<char>) -> Option<u8> {
    let digits = if p.len() > 0 && p[0] == '+' { p.drop_first() } else { p };
    if digits.len() == 0 {
        None
    } else {
        match hex_number(digits) {
            Some(v) => if v <= 255 { Some(v as u8) } else { None },
            None => None,
        }
    }
}

/// The message for text that does not have six colon-separated parts.
pub open spec fn bad_mac_message(s: Seq<char>) -> Seq<char> {
    "invalid MAC address: "@ + s
}

/// The message for a part `part` of `s` that is not a hexadecimal octet.
pub open spec fn bad_octet_message(part: Seq<char>, s: Seq<char>) -> Seq<char> {
    "invalid MAC octet '"@ + part + "' in '"@ + s + "'"@
}

/// Whether `i` is the first of the six parts that is not an octet.
pub open spec fn first_bad_part(parts: Seq<Seq<char>>, i: int) -> bool {
    &&& 0 <= i < 6
    &&& octet_of(parts[i]) is None
    &&& forall|j: int| 0 <= j < i ==> octet_of(#[trigger] parts[j]) is Some
}

/// What parsing the text `s` as a MAC address gives: the six octets, or the error message.
pub open spec fn mac_parse(s: Seq<char>) -> Result<Seq<u8>, Seq<char>> {
    let parts = split(s, ':');
    if parts.len() != 6 {
        Err(bad_mac_message(s))
    } else if exists|i: int| first_bad_part(parts, i) {
        let i = choose|i: int| first_bad_part(parts, i);
        Err(bad_octet_message(parts[i], s))
    } else {
        Ok(Seq::new(6, |i: int| octet_of(parts[i]).unwrap()))
    }
}

/// Any character that is not a digit makes the numeral invalid.
proof fn lemma_hex_number_invalid(d: Seq<char>, i: int)
    requires
        0 <= i < d.len(),
        hex_digit_value(d[i]) is None,
    ensures
        hex_number(d) is None,
    decreases d.len(),
{
    if i < d.len() - 1 {
        assert(d.drop_last()[i] == d[i]);
        lemma_hex_number_invalid(d.drop_last(), i);
    }
}

/// The value of one hexadecimal digit.
fn hex_digit_of(c: char) -> (r: Option<u32>)
    ensures
        match r {
            Some(x) => hex_digit_value(c) == Some(x as nat),
            None => hex_digit_value(c) is None,
        },
{
    if '0' <= c && c <= '9' {
        Some((c as u32) - 48)
    } else if 'a' <= c && c <= 'f' {
        Some((c as u32) - 87)
    } else if 'A' <= c && c <= 'F' {
        Some((c as u32) - 55)
    } else {
        None
    }
}

/// Parses one octet as `u8::from_str_radix(p, 16)` does.
pub fn octet_value(p: &Vec<char>) -> (r: Option<u8>)
    ensures
        r == octet_of(p@),
{
    let len = p.len();
    let start: usize = if len > 0 && p[0] == '+' { 1 } else { 0 };
    let ghost digits = if p@.len() > 0 && p@[0] == '+' { p@.drop_first() } else { p@ };
    proof {
        if start == 1 {
            assert(p@.subrange(1, len as int) =~= p@.drop_first());
        } else {
            assert(p@.subrange(0, len as int) =~= p@);
        }
    }
    assert(digits == p@.subrange(start as int, len as int));
    if start == len {
        return None;
    }
    let mut acc: u32 = 0;
    let mut i: usize = start;
    assert(p@.subrange(start as int, start as int) =~= Seq::<char>::empty());
    while i < len
        invariant
            start <= i <= len == p@.len(),
            start < len,
            digits == p@.subrange(start as int, len as int),
            digits == (if p@.len() > 0 && p@[0] == '+' { p@.drop_first() } else { p@ }),
            hex_number(p@.subrange(start as int, i as int)) is Some,
            hex_number(p@.subrange(start as int, i as int)).unwrap() <= 255 ==> acc
                == hex_number(p@.subrange(start as int, i as int)).unwrap(),
            hex_number(p@.subrange(start as int, i as int)).unwrap() > 255 ==> acc == 256,
        decreases len - i,
    {
        let ghost d = p@.subrange(start as int, len as int);
        assert(p@.subrange(start as int, i + 1).drop_last() =~= p@.subrange(start as int, i as int));
        match hex_digit_of(p[i]) {
            None => {
                proof {
                    assert(d[i - start] == p@[i as int]);
                    lemma_hex_number_invalid(d, i - start);
                    assert(d == digits);
                }
                return None;
            },
            Some(x) => {
                if acc > 255 {
                    acc = 256;
                } else {
                    acc = acc * 16 + x;
                    if acc > 255 {
                        acc = 256;
                    }
                }
            },
        }
        i = i + 1;
    }
    if acc > 255 {
        None
    } else {
        Some(acc as u8)
    }
}

impl MacAddress {
    /// Create a MAC from raw octets.
    pub fn from_octets(octets: [u8; 6]) -> (r: Self)
        ensures
            r@ == octets@,
    {
        MacAddress(octets)
    }

    /// The MAC in QEMU's locally-administered range (`52:54:00:xx:xx:xx`) whose last three
    /// octets are `bytes`, in order (a random MAC when the bytes are random).
    pub fn qemu_mac_from(bytes: [u8; 3]) -> (r: Self)
        ensures
            r@ == seq![0x52u8, 0x54u8, 0x00u8, bytes[0], bytes[1], bytes[2]],
    {
        let r = MacAddress([0x52, 0x54, 0x00, bytes[0], bytes[1], bytes[2]]);
        assert(r@ =~= seq![0x52u8, 0x54u8, 0x00u8, bytes[0], bytes[1], bytes[2]]);
        r
    }

    /// Generate a random MAC in QEMU's locally-administered range (`52:54:00:xx:xx:xx`),
    /// its last three octets drawn from the operating system's random source; an
    /// [`Error::Other`] with the source's message when that source fails.
    pub fn random_qemu() -> (r: Result<Self, Error>)
        ensures
            r matches Ok(m) ==> m@.len() == 6 && m@.take(3) == seq![0x52u8, 0x54u8, 0x00u8],
            r matches Err(e) ==> e is Other,
    {
        Self::from_random_draw(random_bytes())
    }

    /// The MAC made from one draw of the random source: in QEMU's range with the three
    /// drawn bytes as its last octets, in order; the source's failure as an
    /// [`Error::Other`] with its message.
    pub fn from_random_draw(draw: Result<[u8; 3], String>) -> (r: Result<Self, Error>)
        ensures
            match draw {
                Ok(b) => r matches Ok(m) && m@ == qemu_octets(b@),
                Err(msg) => r matches Err(Error::Other(t)) && t@ == msg@,
            },
            r matches Ok(m) ==> m@.len() == 6 && m@.take(3) == seq![0x52u8, 0x54u8, 0x00u8],
            r matches Err(e) ==> e is Other,
    {
        match draw {
            Ok(bytes) => {
                let m = Self::qemu_mac_from(bytes);
                assert(m@.take(3) =~= seq![0x52u8, 0x54u8, 0x00u8]);
                assert(m@ =~= qemu_octets(bytes@));
                Ok(m)
            },
            Err(msg) => Err(Error::Other(msg)),
        }
    }

    /// Return the MAC as a colon-separated lowercase string (e.g. `52:54:00:ab:cd:ef`).
    pub fn as_str(&self) -> (r: String)
        ensures
            r@ == mac_text(self@),
    {
        let mut r = String::new();
        push_hex2(&mut r, self.0[0]);
        push_char_colon(&mut r);
        push_hex2(&mut r, self.0[1]);
        push_char_colon(&mut r);
        push_hex2(&mut r, self.0[2]);
        push_char_colon(&mut r);
        push_hex2(&mut r, self.0[3]);
        push_char_colon(&mut r);
        push_hex2(&mut r, self.0[4]);
        push_char_colon(&mut r);
        push_hex2(&mut r, self.0[5]);
        assert(r@ =~= mac_text(self@));
        r
    }
}

impl MacAddress {
    /// Parses colon-separated text such as `52:54:00:ab:cd:ef`: six parts, each an
    /// octet as `u8::from_str_radix(part, 16)` reads it.
    pub fn parse(s: &str) -> (r: Result<MacAddress, Error>)
        ensures
            match mac_parse(s@) {
                Ok(o) => r matches Ok(m) && m@ == o,
                Err(msg) => r matches Err(Error::Other(t)) && t@ == msg,
            },
    {
        let chars = chars_of(s);
        let parts = split_of(&chars, ':');
        if parts.len() != 6 {
            let mut msg = String::new();
            msg.append("invalid MAC address: ");
            msg.append(s);
            return Err(Error::Other(msg));
        }
        let ghost dv = parts.deep_view();
        let mut octets: [u8; 6] = [0u8; 6];
        let mut i: usize = 0;
        while i < 6
            invariant
                0 <= i <= 6,
                parts@.len() == 6,
                dv == parts.deep_view(),
                dv == split(s@, ':'),
                octets@.len() == 6,
                forall|j: int| 0 <= j < i ==> octet_of(#[trigger] dv[j]) == Some(octets@[j]),
            decreases 6 - i,
        {
            assert(dv[i as int] == parts@[i as int]@);
            match octet_value(&parts[i]) {
                Some(b) => {
                    octets[i] = b;
                },
                None => {
                    assert(first_bad_part(dv, i as int));
                    proof {
                        let k = choose|k: int| first_bad_part(dv, k);
                        if k < i {
                            assert(octet_of(dv[k]) is Some);
                        } else if k > i {
                            assert(octet_of(dv[i as int]) is Some);
                        }
                    }
                    let mut msg = String::new();
                    msg.append("invalid MAC octet '");
                    let part = crate::text::string_of(parts[i].as_slice());
                    msg.append(part.as_str());
                    msg.append("' in '");
                    msg.append(s);
                    msg.append("'");
                    return Err(Error::Other(msg));
                },
            }
            i = i + 1;
        }
        assert(!exists|k: int| first_bad_part(dv, k));
        assert(octets@ =~= Seq::new(6, |k: int| octet_of(dv[k]).unwrap()));
        Ok(MacAddress(octets))
    }
}

/// A hexadecimal digit reads back as the value it was written for.
proof fn lemma_hex_digit_value(d: int)
    requires
        0 <= d < 16,
    ensures
        hex_digit_value(hex_digit(d)) == Some(d as nat),
{
}

/// The two-digit text of a byte reads back as that byte.
proof fn lemma_octet_of_hex2(b: u8)
    ensures
        octet_of(hex2(b)) == Some(b),
        forall|i: int| 0 <= i < hex2(b).len() ==> hex2(b)[i] != ':',
{
    let h = hex2(b);
    lemma_hex_digit_value((b / 16) as int);
    lemma_hex_digit_value((b % 16) as int);
    let e = Seq::<char>::empty();
    assert(hex_number(e) == Some(0nat));
    assert(h.drop_last() =~= e.push(hex_digit((b / 16) as int)));
    assert(e.push(hex_digit((b / 16) as int)).drop_last() =~= e);
    assert(hex_number(h.drop_last()) == Some((b / 16) as nat));
    assert(hex_number(h) == Some(((b / 16) * 16 + b % 16) as nat));
}

/// Parsing the text of six octets gives back those octets.
pub proof fn lemma_mac_text_roundtrip(o: Seq<u8>)
    requires
        o.len() == 6,
    ensures
        mac_parse(mac_text(o)) == Ok::<Seq<u8>, Seq<char>>(o),
{
    let c = seq![':'];
    let h0 = hex2(o[0]);
    let h1 = hex2(o[1]);
    let h2 = hex2(o[2]);
    let h3 = hex2(o[3]);
    let h4 = hex2(o[4]);
    let h5 = hex2(o[5]);
    lemma_octet_of_hex2(o[0]);
    lemma_octet_of_hex2(o[1]);
    lemma_octet_of_hex2(o[2]);
    lemma_octet_of_hex2(o[3]);
    lemma_octet_of_hex2(o[4]);
    lemma_octet_of_hex2(o[5]);
    lemma_split_no_sep(h0, ':');
    lemma_split_no_sep(h1, ':');
    lemma_split_no_sep(h2, ':');
    lemma_split_no_sep(h3, ':');
    lemma_split_no_sep(h4, ':');
    lemma_split_no_sep(h5, ':');
    let a1 = h0 + c + h1;
    let a2 = a1 + c + h2;
    let a3 = a2 + c + h3;
    let a4 = a3 + c + h4;
    let a5 = a4 + c + h5;
    assert(h0 + c =~= h0.push(':'));
    assert(a1 + c =~= a1.push(':'));
    assert(a2 + c =~= a2.push(':'));
    assert(a3 + c =~= a3.push(':'));
    assert(a4 + c =~= a4.push(':'));
    lemma_split_sep_concat(h0, h1, ':');
    lemma_split_sep_concat(a1, h2, ':');
    lemma_split_sep_concat(a2, h3, ':');
    lemma_split_sep_concat(a3, h4, ':');
    lemma_split_sep_concat(a4, h5, ':');
    assert(a5 == mac_text(o));
    let parts = split(a5, ':');
    assert(parts =~= seq![h0, h1, h2, h3, h4, h5]);
    assert(!exists|i: int| first_bad_part(parts, i));
    assert(Seq::new(6, |i: int| octet_of(parts[i]).unwrap()) =~= o);
}

/// Law: reading back the text that [`MacAddress::as_str`] writes gives the same address.
pub proof fn law_parse_as_str(m: MacAddress)
    ensures
        mac_parse(mac_text(m@)) == Ok::<Seq<u8>, Seq<char>>(m@),
{
    assert(m@.len() == 6);
    lemma_mac_text_roundtrip(m@);
}

impl std::str::FromStr for MacAddress {
    type Err = Error;

    /// Parses colon-separated text as [`MacAddress::parse`] does.
    fn from_str(s: &str) -> (r: Result<MacAddress, Error>)
        ensures
            match mac_parse(s@) {
                Ok(o) => r matches Ok(m) && m@ == o,
                Err(msg) => r matches Err(Error::Other(t)) && t@ == msg,
            },
    {
        MacAddress::parse(s)
    }
}

fn push_char_colon(r: &mut String)
    ensures
        final(r)@ == old(r)@ + seq![':'],
{
    crate::text::push_char(r, ':');
    assert(old(r)@.push(':') =~= old(r)@ + seq![':']);
}

/// Three bytes from the operating system's random source: `rand::rngs::OsRng`'s
/// `RngCore::try_fill_bytes`, which returns the bytes or the source's error, here as its
/// text. Nothing is stated of the bytes: they are random.
#[verifier::external_body]
fn random_bytes() -> (r: Result<[u8; 3], String>) {
    let mut bytes = [0u8; 3];
    match OsRng.try_fill_bytes(&mut bytes) {
        Ok(()) => Ok(bytes),
        Err(e) => Err(e.to_string()),
    }
}

/// The octets of the QEMU-range MAC whose last three octets are `b`.
pub open spec fn qemu_octets(b: Seq<u8>) -> Seq<u8> {
    seq![0x52u8, 0x54u8, 0x00u8] + b
}

/// Law: a MAC made from a draw keeps the drawn bytes as its last three octets, so two
/// different draws give two different MACs, and the MAC gives its draw back.
pub proof fn law_draws_give_distinct_macs(b1: [u8; 3], b2: [u8; 3])
    ensures
        qemu_octets(b1@).subrange(3, 6) == b1@,
        b1@ != b2@ ==> qemu_octets(b1@) != qemu_octets(b2@),
{
    assert(qemu_octets(b1@).subrange(3, 6) =~= b1@);
    assert(qemu_octets(b2@).subrange(3, 6) =~= b2@);
}

} // verus!

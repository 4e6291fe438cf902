//! Wire formats of the protocol: the encrypted ratchet header and the inner
//! sealed-sender envelope are fixed-shape JSON objects.  Both the emitter
//! and the parser are verified against spec-level functions, and a proved
//! round-trip lemma connects them.

use vstd::prelude::*;

use crate::bytes::{bytes_extend, bytes_range, region_eq};
use vstd::string::StringSliceAdditionalSpecFns;

verus! {

/// A decrypted ratchet header: the sender's current ratchet public key in
/// Base64 (always 44 bytes for a 32-byte key), the message counter and the
/// previous-chain length.
pub struct Header {
    pub ratchet_key_b64: Vec<u8>,
    pub n: u32,
    pub pn: u32,
}

/// Whether `c` is an ASCII decimal digit.
pub open spec fn is_digit(c: u8) -> bool {
    48 <= c <= 57
}

/// Decimal digits of `n`, most significant first, without leading zeros.
pub open spec fn dec_of(n: nat) -> Seq<u8>
    decreases n,
{
    if n < 10 {
        seq![(48 + n) as u8]
    } else {
        dec_of(n / 10) + seq![(48 + (n % 10)) as u8]
    }
}

/// The number read from a sequence of decimal digits, most significant
/// first.
pub open spec fn dec_val(s: Seq<u8>) -> nat
    decreases s.len(),
{
    if s.len() == 0 {
        0
    } else {
        dec_val(s.drop_last()) * 10 + ((s.last() - 48) as nat)
    }
}

/// End of the run of decimal digits starting at `i`.
pub open spec fn digit_run_end(pt: Seq<u8>, i: int) -> int
    decreases pt.len() - i,
{
    if 0 <= i < pt.len() && is_digit(pt[i]) {
        digit_run_end(pt, i + 1)
    } else {
        i
    }
}

/// Render `n` in decimal.
pub fn u64_to_dec(n: u64) -> (r: Vec<u8>)
    ensures
        r@ == dec_of(n as nat),
    decreases n,
{
    if n < 10 {
        let mut out: Vec<u8> = Vec::new();
        out.push((48 + n) as u8);
        proof {
            assert(out@ =~= dec_of(n as nat));
        }
        out
    } else {
        let mut out = u64_to_dec(n / 10);
        out.push((48 + (n % 10)) as u8);
        proof {
            assert(out@ =~= dec_of(n as nat));
        }
        out
    }
}

/// Every byte of a decimal rendering is a digit.
pub proof fn lemma_dec_of_digits(n: nat)
    ensures
        forall|i: int| 0 <= i < dec_of(n).len() ==> is_digit(#[trigger] dec_of(n)[i]),
        dec_of(n).len() >= 1,
    decreases n,
{
    if n >= 10 {
        lemma_dec_of_digits(n / 10);
    }
}

/// Reading back a decimal rendering gives the number.
pub proof fn lemma_dec_val_of(n: nat)
    ensures
        dec_val(dec_of(n)) == n,
    decreases n,
{
    if n < 10 {
        assert(dec_of(n) =~= seq![(48 + n) as u8]);
        assert(dec_of(n).drop_last() =~= Seq::<u8>::empty());
        assert(dec_val(Seq::<u8>::empty()) == 0);
        assert(dec_val(dec_of(n)) == dec_val(dec_of(n).drop_last()) * 10 + ((dec_of(n).last()
            - 48) as nat));
    } else {
        lemma_dec_val_of(n / 10);
        assert(dec_of(n).drop_last() =~= dec_of(n / 10));
        assert(dec_of(n).last() == (48 + (n % 10)) as u8);
        assert(dec_val(dec_of(n)) == dec_val(dec_of(n).drop_last()) * 10 + ((dec_of(n).last()
            - 48) as nat));
    }
}

/// Powers of ten.
pub open spec fn pow10(k: nat) -> nat
    decreases k,
{
    if k == 0 {
        1
    } else {
        10 * pow10((k - 1) as nat)
    }
}

/// Powers of ten do not decrease.
pub proof fn lemma_pow10_le(a: nat, b: nat)
    requires
        a <= b,
    ensures
        pow10(a) <= pow10(b),
        pow10(a) >= 1,
    decreases b,
{
    if a == b {
        if a > 0 {
            lemma_pow10_le((a - 1) as nat, (b - 1) as nat);
        }
    } else {
        lemma_pow10_le(a, (b - 1) as nat);
    }
}

/// A number below `pow10(k)` renders in at most `k` digits.
pub proof fn lemma_dec_of_len(n: nat, k: nat)
    requires
        k >= 1,
        n < pow10(k),
    ensures
        dec_of(n).len() <= k,
    decreases k,
{
    if n >= 10 {
        assert(k >= 2) by {
            if k == 1 {
                assert(pow10(1) == 10) by {
                    reveal_with_fuel(pow10, 2);
                };
            }
        };
        lemma_dec_of_len(n / 10, (k - 1) as nat);
    }
}

/// `u32` values render in at most ten digits.
pub proof fn lemma_dec_of_u32_len(n: u32)
    ensures
        1 <= dec_of(n as nat).len() <= 10,
{
    lemma_dec_of_digits(n as nat);
    assert(pow10(10) == 10000000000) by {
        reveal_with_fuel(pow10, 11);
    };
    lemma_dec_of_len(n as nat, 10);
}

/// A digit run covers exactly a block of digits bounded by a non-digit.
pub proof fn lemma_digit_run(pt: Seq<u8>, i: int, m: int)
    requires
        0 <= i,
        0 <= m,
        i + m < pt.len(),
        forall|j: int| i <= j < i + m ==> is_digit(#[trigger] pt[j]),
        !is_digit(pt[i + m]),
    ensures
        digit_run_end(pt, i) == i + m,
    decreases m,
{
    if m > 0 {
        lemma_digit_run(pt, i + 1, m - 1);
    }
}

/// A run of digits reads to a value below ten to its length.
pub proof fn lemma_dec_val_bound(s: Seq<u8>)
    requires
        forall|i: int| 0 <= i < s.len() ==> is_digit(#[trigger] s[i]),
    ensures
        dec_val(s) < pow10(s.len()),
    decreases s.len(),
{
    if s.len() > 0 {
        lemma_dec_val_bound(s.drop_last());
    }
}

/// Parse the run of digits starting at `from` and return its value and end
/// position.  Fails when the run is empty, longer than ten digits, or reads
/// above `u32::MAX`.
pub fn parse_u32_at(pt: &[u8], from: usize) -> (r: Option<(u32, usize)>)
    requires
        from <= pt@.len(),
    ensures
        r matches Some(p) ==> {
            &&& p.1 == digit_run_end(pt@, from as int)
            &&& from < p.1 <= pt@.len()
            &&& p.1 - from <= 10
            &&& p.0 as nat == dec_val(pt@.subrange(from as int, p.1 as int))
        },
        r is None ==> ({
            let e = digit_run_end(pt@, from as int);
            e == from || e - from > 10 || dec_val(pt@.subrange(from as int, e)) > u32::MAX
        }),
{
    let mut j: usize = from;
    while j < pt.len() && pt[j] >= 48 && pt[j] <= 57
        invariant
            from <= j <= pt@.len(),
            digit_run_end(pt@, from as int) == digit_run_end(pt@, j as int),
            forall|t: int| from <= t < j ==> is_digit(#[trigger] pt@[t]),
        decreases pt@.len() - j,
    {
        j = j + 1;
    }
    proof {
        assert(digit_run_end(pt@, j as int) == j as int);
    }
    if j == from {
        return None;
    }
    if j - from > 10 {
        return None;
    }
    let mut acc: u64 = 0;
    let mut t: usize = from;
    while t < j
        invariant
            from <= t <= j <= pt@.len(),
            j - from <= 10,
            forall|q: int| from <= q < j ==> is_digit(#[trigger] pt@[q]),
            acc as nat == dec_val(pt@.subrange(from as int, t as int)),
            (acc as nat) < pow10((t - from) as nat),
        decreases j - t,
    {
        proof {
            assert(pt@.subrange(from as int, t + 1 as int).drop_last() =~= pt@.subrange(
                from as int,
                t as int,
            ));
            assert(pow10(10) == 10000000000) by {
                reveal_with_fuel(pow10, 11);
            };
            lemma_pow10_le(((t - from) + 1) as nat, 10);
        }
        acc = acc * 10 + ((pt[t] - 48) as u64);
        t = t + 1;
    }
    if acc > 0xFFFF_FFFFu64 {
        return None;
    }
    Some((acc as u32, j))
}

/// The bytes of `{"ratchet_key":"`, opening the header object.
pub open spec fn header_prefix() -> Seq<u8> {
    seq![123u8, 34u8, 114u8, 97u8, 116u8, 99u8, 104u8, 101u8, 116u8, 95u8, 107u8, 101u8, 121u8, 34u8, 58u8, 34u8]
}

/// The bytes of `","n":`, between the ratchet key and the counter.
pub open spec fn header_mid_n() -> Seq<u8> {
    seq![34u8, 44u8, 34u8, 110u8, 34u8, 58u8]
}

/// The bytes of `,"pn":`, between the counter and the previous-chain count.
pub open spec fn header_mid_pn() -> Seq<u8> {
    seq![44u8, 34u8, 112u8, 110u8, 34u8, 58u8]
}

/// The header plaintext: the JSON object holding the Base64 ratchet key and
/// the two counters, exactly as the emitter renders it.
pub open spec fn header_plain_of(rk_b64: Seq<u8>, n: u32, pn: u32) -> Seq<u8> {
    header_prefix() + rk_b64 + header_mid_n() + dec_of(n as nat) + header_mid_pn() + dec_of(
        pn as nat,
    ) + seq![125u8]
}

/// Bytes of `header_prefix`.
pub fn header_prefix_bytes() -> (r: Vec<u8>)
    ensures
        r@ == header_prefix(),
{
    let mut o: Vec<u8> = Vec::new();
    o.push(123u8);
    o.push(34u8);
    o.push(114u8);
    o.push(97u8);
    o.push(116u8);
    o.push(99u8);
    o.push(104u8);
    o.push(101u8);
    o.push(116u8);
    o.push(95u8);
    o.push(107u8);
    o.push(101u8);
    o.push(121u8);
    o.push(34u8);
    o.push(58u8);
    o.push(34u8);
    proof {
        assert(o@ =~= header_prefix());
    }
    o
}

/// Bytes of `header_mid_n`.
pub fn header_mid_n_bytes() -> (r: Vec<u8>)
    ensures
        r@ == header_mid_n(),
{
    let mut o: Vec<u8> = Vec::new();
    o.push(34u8);
    o.push(44u8);
    o.push(34u8);
    o.push(110u8);
    o.push(34u8);
    o.push(58u8);
    proof {
        assert(o@ =~= header_mid_n());
    }
    o
}

/// Bytes of `header_mid_pn`.
pub fn header_mid_pn_bytes() -> (r: Vec<u8>)
    ensures
        r@ == header_mid_pn(),
{
    let mut o: Vec<u8> = Vec::new();
    o.push(44u8);
    o.push(34u8);
    o.push(112u8);
    o.push(110u8);
    o.push(34u8);
    o.push(58u8);
    proof {
        assert(o@ =~= header_mid_pn());
    }
    o
}

/// Render a ratchet header as its JSON plaintext.
pub fn encode_header(rk_b64: &[u8], n: u32, pn: u32) -> (r: Vec<u8>)
    requires
        rk_b64@.len() == 44,
    ensures
        r@ == header_plain_of(rk_b64@, n, pn),
{
    let mut out = header_prefix_bytes();
    bytes_extend(&mut out, rk_b64);
    let mid_n = header_mid_n_bytes();
    bytes_extend(&mut out, mid_n.as_slice());
    let n_dec = u64_to_dec(n as u64);
    bytes_extend(&mut out, n_dec.as_slice());
    let mid_pn = header_mid_pn_bytes();
    bytes_extend(&mut out, mid_pn.as_slice());
    let pn_dec = u64_to_dec(pn as u64);
    bytes_extend(&mut out, pn_dec.as_slice());
    out.push(125u8);
    proof {
        assert(out@ =~= header_plain_of(rk_b64@, n, pn));
    }
    out
}

/// What the header parser accepts: the exact shape the emitter produces,
/// with the counters read from their decimal digit runs.
pub open spec fn parse_header_spec(pt: Seq<u8>) -> Option<(Seq<u8>, u32, u32)> {
    let p = header_prefix().len() as int;
    let m1 = header_mid_n().len() as int;
    let m2 = header_mid_pn().len() as int;
    let i0 = p + 44 + m1;
    if pt.len() < i0 {
        None
    } else if pt.subrange(0, p) != header_prefix() {
        None
    } else if pt.subrange(p + 44, i0) != header_mid_n() {
        None
    } else {
        let j = digit_run_end(pt, i0);
        let n_val = dec_val(pt.subrange(i0, j));
        if j == i0 || j - i0 > 10 || n_val > u32::MAX {
            None
        } else if pt.len() < j + m2 {
            None
        } else if pt.subrange(j, j + m2) != header_mid_pn() {
            None
        } else {
            let i1 = j + m2;
            let k = digit_run_end(pt, i1);
            let pn_val = dec_val(pt.subrange(i1, k));
            if k == i1 || k - i1 > 10 || pn_val > u32::MAX {
                None
            } else if pt.len() != k + 1 || pt[k] != 125u8 {
                None
            } else {
                Some((pt.subrange(p, p + 44), n_val as u32, pn_val as u32))
            }
        }
    }
}

/// Parse a header plaintext.  The result is exactly what `parse_header_spec`
/// reads from the bytes.
pub fn parse_header(pt: &[u8]) -> (r: Option<Header>)
    ensures
        r matches Some(h) ==> parse_header_spec(pt@) == Some((h.ratchet_key_b64@, h.n, h.pn))
            && h.ratchet_key_b64@.len() == 44,
        r is None ==> parse_header_spec(pt@) is None,
{
    let prefix = header_prefix_bytes();
    let mid_n = header_mid_n_bytes();
    let mid_pn = header_mid_pn_bytes();
    if pt.len() < prefix.len() + 44 + mid_n.len() {
        return None;
    }
    if !region_eq(pt, 0, prefix.as_slice()) {
        return None;
    }
    if !region_eq(pt, prefix.len() + 44, mid_n.as_slice()) {
        return None;
    }
    let i0 = prefix.len() + 44 + mid_n.len();
    let n_parsed = parse_u32_at(pt, i0);
    let (n, j) = match n_parsed {
        Some(p) => p,
        None => {
            return None;
        },
    };
    if pt.len() - j < mid_pn.len() {
        return None;
    }
    if !region_eq(pt, j, mid_pn.as_slice()) {
        return None;
    }
    let i1 = j + mid_pn.len();
    let pn_parsed = parse_u32_at(pt, i1);
    let (pn, k) = match pn_parsed {
        Some(p) => p,
        None => {
            return None;
        },
    };
    if pt.len() - k != 1 || pt[k] != 125u8 {
        return None;
    }
    let rk = bytes_range(pt, prefix.len(), prefix.len() + 44);
    Some(Header { ratchet_key_b64: rk, n, pn })
}

/// Round trip of the header codec: parsing an emitted header returns its
/// fields.
pub proof fn lemma_header_round_trip(rk_b64: Seq<u8>, n: u32, pn: u32)
    requires
        rk_b64.len() == 44,
    ensures
        parse_header_spec(header_plain_of(rk_b64, n, pn)) == Some((rk_b64, n, pn)),
{
    let pt = header_plain_of(rk_b64, n, pn);
    let p = header_prefix().len() as int;
    let m1 = header_mid_n().len() as int;
    let m2 = header_mid_pn().len() as int;
    let dn = dec_of(n as nat);
    let dpn = dec_of(pn as nat);
    lemma_dec_of_digits(n as nat);
    lemma_dec_of_digits(pn as nat);
    lemma_dec_of_u32_len(n);
    lemma_dec_of_u32_len(pn);
    lemma_dec_val_of(n as nat);
    lemma_dec_val_of(pn as nat);
    let i0 = p + 44 + m1;
    let j = i0 + dn.len() as int;
    let i1 = j + m2;
    let k = i1 + dpn.len() as int;
    assert(pt.len() == k + 1);
    assert(pt.subrange(0, p) =~= header_prefix());
    assert(pt.subrange(p, p + 44) =~= rk_b64);
    assert(pt.subrange(p + 44, i0) =~= header_mid_n());
    assert(pt.subrange(i0, j) =~= dn);
    assert(pt.subrange(j, i1) =~= header_mid_pn());
    assert(pt.subrange(i1, k) =~= dpn);
    assert(pt[k] == 125u8);
    assert(!is_digit(pt[j]));
    assert(!is_digit(pt[k]));
    lemma_digit_run(pt, i0, dn.len() as int);
    lemma_digit_run(pt, i1, dpn.len() as int);
    assert(parse_header_spec(pt) == Some((rk_b64, n, pn)));
}

/// The bytes of `{"sender":"`, opening the sealed inner envelope.
pub open spec fn sealed_prefix() -> Seq<u8> {
    seq![123u8, 34u8, 115u8, 101u8, 110u8, 100u8, 101u8, 114u8, 34u8, 58u8, 34u8]
}

/// The bytes of `","message":`, between the sender key and the payload.
pub open spec fn sealed_mid() -> Seq<u8> {
    seq![34u8, 44u8, 34u8, 109u8, 101u8, 115u8, 115u8, 97u8, 103u8, 101u8, 34u8, 58u8]
}

/// The sealed inner plaintext: a JSON object with the sender's Base64
/// identity key and the raw message payload.
pub open spec fn sealed_plain_of(sender_b64: Seq<u8>, msg: Seq<u8>) -> Seq<u8> {
    sealed_prefix() + sender_b64 + sealed_mid() + msg + seq![125u8]
}

/// Bytes of `sealed_prefix`.
pub fn sealed_prefix_bytes() -> (r: Vec<u8>)
    ensures
        r@ == sealed_prefix(),
{
    let mut o: Vec<u8> = Vec::new();
    o.push(123u8);
    o.push(34u8);
    o.push(115u8);
    o.push(101u8);
    o.push(110u8);
    o.push(100u8);
    o.push(101u8);
    o.push(114u8);
    o.push(34u8);
    o.push(58u8);
    o.push(34u8);
    proof {
        assert(o@ =~= sealed_prefix());
    }
    o
}

/// Bytes of `sealed_mid`.
pub fn sealed_mid_bytes() -> (r: Vec<u8>)
    ensures
        r@ == sealed_mid(),
{
    let mut o: Vec<u8> = Vec::new();
    o.push(34u8);
    o.push(44u8);
    o.push(34u8);
    o.push(109u8);
    o.push(101u8);
    o.push(115u8);
    o.push(115u8);
    o.push(97u8);
    o.push(103u8);
    o.push(101u8);
    o.push(34u8);
    o.push(58u8);
    proof {
        assert(o@ =~= sealed_mid());
    }
    o
}

/// Render a sealed inner envelope.
pub fn encode_sealed(sender_b64: &[u8], msg: &[u8]) -> (r: Vec<u8>)
    requires
        sender_b64@.len() == 44,
    ensures
        r@ == sealed_plain_of(sender_b64@, msg@),
{
    let mut out = sealed_prefix_bytes();
    bytes_extend(&mut out, sender_b64);
    let mid = sealed_mid_bytes();
    bytes_extend(&mut out, mid.as_slice());
    bytes_extend(&mut out, msg);
    out.push(125u8);
    proof {
        assert(out@ =~= sealed_plain_of(sender_b64@, msg@));
    }
    out
}

/// What the sealed parser accepts: the exact shape the emitter produces.
pub open spec fn parse_sealed_spec(pt: Seq<u8>) -> Option<(Seq<u8>, Seq<u8>)> {
    let p = sealed_prefix().len() as int;
    let m = sealed_mid().len() as int;
    if pt.len() < p + 44 + m + 1 {
        None
    } else if pt.subrange(0, p) != sealed_prefix() {
        None
    } else if pt.subrange(p + 44, p + 44 + m) != sealed_mid() {
        None
    } else if pt[pt.len() - 1] != 125u8 {
        None
    } else {
        Some((pt.subrange(p, p + 44), pt.subrange(p + 44 + m, pt.len() - 1)))
    }
}

/// Parse a sealed inner envelope into the sender's Base64 identity key and
/// the payload.
pub fn parse_sealed(pt: &[u8]) -> (r: Option<(Vec<u8>, Vec<u8>)>)
    ensures
        r matches Some(t) ==> parse_sealed_spec(pt@) == Some((t.0@, t.1@)) && t.0@.len() == 44,
        r is None ==> parse_sealed_spec(pt@) is None,
{
    let prefix = sealed_prefix_bytes();
    let mid = sealed_mid_bytes();
    if pt.len() < prefix.len() + 44 + mid.len() + 1 {
        return None;
    }
    if !region_eq(pt, 0, prefix.as_slice()) {
        return None;
    }
    if !region_eq(pt, prefix.len() + 44, mid.as_slice()) {
        return None;
    }
    if pt[pt.len() - 1] != 125u8 {
        return None;
    }
    let sender = bytes_range(pt, prefix.len(), prefix.len() + 44);
    let msg = bytes_range(pt, prefix.len() + 44 + mid.len(), pt.len() - 1);
    Some((sender, msg))
}

/// Round trip of the sealed codec: parsing an emitted envelope returns its
/// fields.
pub proof fn lemma_sealed_round_trip(sender_b64: Seq<u8>, msg: Seq<u8>)
    requires
        sender_b64.len() == 44,
    ensures
        parse_sealed_spec(sealed_plain_of(sender_b64, msg)) == Some((sender_b64, msg)),
{
    let pt = sealed_plain_of(sender_b64, msg);
    let p = sealed_prefix().len() as int;
    let m = sealed_mid().len() as int;
    assert(pt.len() == p + 44 + m + msg.len() + 1);
    assert(pt.subrange(0, p) =~= sealed_prefix());
    assert(pt.subrange(p, p + 44) =~= sender_b64);
    assert(pt.subrange(p + 44, p + 44 + m) =~= sealed_mid());
    assert(pt.subrange(p + 44 + m, pt.len() - 1) =~= msg);
    assert(pt[pt.len() - 1] == 125u8);
}

} // verus!

//! The wire codec: a deterministic binary encoding of `DaemonMessage` and
//! `DaemonReply` — one tag byte per variant, two tag bytes per item, and
//! length-prefixed UTF-8 for strings and lists. Encoding and decoding are
//! verified inverses of each other.
use vstd::prelude::*;
use vstd::string::*;
use vstd::utf8::*;

use crate::daemon::{
    groups_view, pairs_view, DaemonItem, DaemonMessage, DaemonReply, MessageModel, ReplyModel,
};

verus! {

/// 256 to the `k`-th power: the number of values `k` bytes can hold.
pub open spec fn pow256(k: nat) -> int
    decreases k,
{
    if k == 0 {
        1
    } else {
        256 * pow256((k - 1) as nat)
    }
}

/// The `k` little-endian bytes of `n`.
pub open spec fn le_bytes(n: int, k: nat) -> Seq<u8>
    decreases k,
{
    if k == 0 {
        Seq::empty()
    } else {
        seq![(n % 256) as u8] + le_bytes(n / 256, (k - 1) as nat)
    }
}

/// The number a little-endian byte string denotes.
pub open spec fn le_val(b: Seq<u8>) -> int
    decreases b.len(),
{
    if b.len() == 0 {
        0
    } else {
        b[0] + 256 * le_val(b.skip(1))
    }
}

/// The eight-byte little-endian encoding of a length or count.
pub open spec fn le64(n: int) -> Seq<u8> {
    le_bytes(n, 8)
}

pub proof fn lemma_pow256_64()
    ensures
        pow256(8) == 0x1_0000_0000_0000_0000,
{
    assert(pow256(0) == 1);
    assert(pow256(1) == 256);
    assert(pow256(2) == 0x1_0000);
    assert(pow256(3) == 0x100_0000);
    assert(pow256(4) == 0x1_0000_0000);
    assert(pow256(5) == 0x100_0000_0000);
    assert(pow256(6) == 0x1_0000_0000_0000);
    assert(pow256(7) == 0x100_0000_0000_0000);
    assert(pow256(8) == 0x1_0000_0000_0000_0000);
}

pub proof fn lemma_le_bytes_len(n: int, k: nat)
    ensures
        le_bytes(n, k).len() == k,
    decreases k,
{
    if k > 0 {
        lemma_le_bytes_len(n / 256, (k - 1) as nat);
    }
}

/// Reading back the little-endian bytes of `n` gives `n`.
pub proof fn lemma_le_bytes_val(n: int, k: nat)
    requires
        0 <= n < pow256(k),
    ensures
        le_val(le_bytes(n, k)) == n,
    decreases k,
{
    if k == 0 {
    } else {
        assert(n / 256 < pow256((k - 1) as nat)) by {
            assert(pow256(k) == 256 * pow256((k - 1) as nat));
            if n / 256 >= pow256((k - 1) as nat) {
                assert(n >= 256 * (n / 256));
                assert(256 * (n / 256) >= 256 * pow256((k - 1) as nat)) by (nonlinear_arith)
                    requires
                        n / 256 >= pow256((k - 1) as nat),
                ;
            }
        }
        lemma_le_bytes_val(n / 256, (k - 1) as nat);
        let b = le_bytes(n, k);
        assert(b.skip(1) =~= le_bytes(n / 256, (k - 1) as nat));
        assert(le_val(b) == n % 256 + 256 * (n / 256));
    }
}

/// The little-endian bytes of the number `b` denotes are `b` itself.
pub proof fn lemma_le_bytes_inv(b: Seq<u8>)
    ensures
        0 <= le_val(b) < pow256(b.len()),
        le_bytes(le_val(b), b.len()) =~= b,
    decreases b.len(),
{
    if b.len() == 0 {
    } else {
        lemma_le_bytes_inv(b.skip(1));
        let r = le_val(b.skip(1));
        let n = le_val(b);
        assert(n == b[0] + 256 * r);
        assert(n < pow256(b.len())) by {
            assert(pow256(b.len()) == 256 * pow256((b.len() - 1) as nat));
            assert(256 * r <= 256 * (pow256((b.len() - 1) as nat) - 1)) by (nonlinear_arith)
                requires
                    r <= pow256((b.len() - 1) as nat) - 1,
            ;
        }
        assert(n % 256 == b[0] && n / 256 == r) by {
            assert(n == 256 * r + b[0]);
            assert(0 <= b[0] < 256);
            assert((256 * r + b[0]) % 256 == b[0] && (256 * r + b[0]) / 256 == r)
                by (nonlinear_arith)
                requires
                    0 <= b[0] < 256,
                    r >= 0,
            ;
        }
        assert(le_bytes(n, b.len()) =~= seq![(n % 256) as u8] + le_bytes(
            n / 256,
            (b.len() - 1) as nat,
        ));
        assert(le_bytes(n / 256, (b.len() - 1) as nat) =~= b.skip(1));
        assert(le_bytes(n, b.len()) =~= b);
    }
}

/// Two length prefixes read from the same place agree.
pub proof fn lemma_le64_prefix_det(a: int, b: int, c: Seq<u8>)
    requires
        0 <= a < pow256(8),
        0 <= b < pow256(8),
        le64(a).is_prefix_of(c),
        le64(b).is_prefix_of(c),
    ensures
        a == b,
{
    lemma_le_bytes_len(a, 8);
    lemma_le_bytes_len(b, 8);
    assert(le64(a) =~= c.take(8));
    assert(le64(b) =~= c.take(8));
    lemma_le_bytes_val(a, 8);
    lemma_le_bytes_val(b, 8);
}

/// Appends the eight little-endian bytes of `n`.
pub fn encode_u64(out: &mut Vec<u8>, n: u64)
    ensures
        final(out)@ == old(out)@ + le64(n as int),
{
    let b0: u8 = (n % 256) as u8;
    let n1: u64 = n / 256;
    let b1: u8 = (n1 % 256) as u8;
    let n2: u64 = n1 / 256;
    let b2: u8 = (n2 % 256) as u8;
    let n3: u64 = n2 / 256;
    let b3: u8 = (n3 % 256) as u8;
    let n4: u64 = n3 / 256;
    let b4: u8 = (n4 % 256) as u8;
    let n5: u64 = n4 / 256;
    let b5: u8 = (n5 % 256) as u8;
    let n6: u64 = n5 / 256;
    let b6: u8 = (n6 % 256) as u8;
    let n7: u64 = n6 / 256;
    let b7: u8 = (n7 % 256) as u8;
    proof {
        assert(n7 / 256 == 0);
        assert(le_bytes(0, 0) =~= Seq::<u8>::empty());
        assert(le_bytes(n7 as int, 1) =~= seq![b7]);
        assert(le_bytes(n6 as int, 2) =~= seq![b6, b7]);
        assert(le_bytes(n5 as int, 3) =~= seq![b5, b6, b7]);
        assert(le_bytes(n4 as int, 4) =~= seq![b4, b5, b6, b7]);
        assert(le_bytes(n3 as int, 5) =~= seq![b3, b4, b5, b6, b7]);
        assert(le_bytes(n2 as int, 6) =~= seq![b2, b3, b4, b5, b6, b7]);
        assert(le_bytes(n1 as int, 7) =~= seq![b1, b2, b3, b4, b5, b6, b7]);
        assert(le64(n as int) =~= seq![b0, b1, b2, b3, b4, b5, b6, b7]);
    }
    out.push(b0);
    out.push(b1);
    out.push(b2);
    out.push(b3);
    out.push(b4);
    out.push(b5);
    out.push(b6);
    out.push(b7);
    proof {
        assert(out@ =~= old(out)@ + le64(n as int));
    }
}

/// Reads the eight-byte little-endian number at `pos`.
pub fn decode_u64(bytes: &Vec<u8>, pos: usize) -> (r: Option<(u64, usize)>)
    ensures
        r matches Some((v, end)) ==> {
            &&& end == pos + 8
            &&& end <= bytes@.len()
            &&& bytes@.subrange(pos as int, end as int) == le64(v as int)
        },
        bytes@.len() >= pos + 8 ==> r is Some,
{
    if bytes.len() < 8 || pos > bytes.len() - 8 {
        return None;
    }
    let b0 = bytes[pos] as u64;
    let b1 = bytes[pos + 1] as u64;
    let b2 = bytes[pos + 2] as u64;
    let b3 = bytes[pos + 3] as u64;
    let b4 = bytes[pos + 4] as u64;
    let b5 = bytes[pos + 5] as u64;
    let b6 = bytes[pos + 6] as u64;
    let b7 = bytes[pos + 7] as u64;
    let ghost seg = bytes@.subrange(pos as int, pos + 8);
    let ghost s1 = bytes@.subrange(pos + 1, pos + 8);
    let ghost s2 = bytes@.subrange(pos + 2, pos + 8);
    let ghost s3 = bytes@.subrange(pos + 3, pos + 8);
    let ghost s4 = bytes@.subrange(pos + 4, pos + 8);
    let ghost s5 = bytes@.subrange(pos + 5, pos + 8);
    let ghost s6 = bytes@.subrange(pos + 6, pos + 8);
    let ghost s7 = bytes@.subrange(pos + 7, pos + 8);
    let v: u64 = b0 + 256 * (b1 + 256 * (b2 + 256 * (b3 + 256 * (b4 + 256 * (b5 + 256 * (b6 + 256
        * b7))))));
    proof {
        assert(s7.skip(1) =~= Seq::<u8>::empty());
        assert(le_val(Seq::<u8>::empty()) == 0);
        assert(le_val(s7) == b7);
        assert(s6.skip(1) =~= s7);
        assert(le_val(s6) == b6 + 256 * le_val(s7));
        assert(s5.skip(1) =~= s6);
        assert(le_val(s5) == b5 + 256 * le_val(s6));
        assert(s4.skip(1) =~= s5);
        assert(le_val(s4) == b4 + 256 * le_val(s5));
        assert(s3.skip(1) =~= s4);
        assert(le_val(s3) == b3 + 256 * le_val(s4));
        assert(s2.skip(1) =~= s3);
        assert(le_val(s2) == b2 + 256 * le_val(s3));
        assert(s1.skip(1) =~= s2);
        assert(le_val(s1) == b1 + 256 * le_val(s2));
        assert(seg.skip(1) =~= s1);
        assert(le_val(seg) == b0 + 256 * le_val(s1));
        assert(le_val(seg) == v);
        lemma_le_bytes_inv(seg);
        assert(le_bytes(le_val(seg), 8) =~= seg);
    }
    Some((v, pos + 8))
}

/// The wire form of a string: its UTF-8 byte length, then its UTF-8 bytes.
pub open spec fn enc_str(s: Seq<char>) -> Seq<u8> {
    le64(encode_utf8(s).len() as int) + encode_utf8(s)
}


/// Where a string encoding sits when it prefixes `c`: its length field in the
/// first eight bytes, its UTF-8 body right after.
pub proof fn lemma_enc_str_parts(s: Seq<char>, c: Seq<u8>)
    requires
        enc_str(s).is_prefix_of(c),
        c.len() < pow256(8),
    ensures
        encode_utf8(s).len() < pow256(8),
        le64(encode_utf8(s).len() as int).is_prefix_of(c),
        encode_utf8(s) =~= c.subrange(8, 8 + encode_utf8(s).len() as int),
        c.len() >= 8 + encode_utf8(s).len(),
{
    let l = encode_utf8(s).len() as int;
    lemma_le_bytes_len(l, 8);
    assert(enc_str(s).len() == 8 + l);
    assert(enc_str(s) =~= c.subrange(0, 8 + l));
    assert forall|i: int| 0 <= i < 8 implies le64(l)[i] == c[i] by {
        assert(enc_str(s)[i] == le64(l)[i]);
        assert(c.subrange(0, 8 + l)[i] == c[i]);
    }
    assert(le64(l) =~= c.subrange(0, 8));
    assert(c.subrange(0, 8).is_prefix_of(c));
    assert forall|i: int| 0 <= i < l implies encode_utf8(s)[i] == c[8 + i] by {
        assert(enc_str(s)[8 + i] == encode_utf8(s)[i]);
        assert(c.subrange(0, 8 + l)[8 + i] == c[8 + i]);
    }
}

/// Two string encodings read from the same place agree.
pub proof fn lemma_enc_str_prefix_det(s1: Seq<char>, s2: Seq<char>, c: Seq<u8>)
    requires
        enc_str(s1).is_prefix_of(c),
        enc_str(s2).is_prefix_of(c),
        c.len() < pow256(8),
    ensures
        s1 == s2,
        enc_str(s1) == enc_str(s2),
{
    broadcast use encode_utf8_decode_utf8, encode_utf8_valid_utf8;

    let l1 = encode_utf8(s1).len() as int;
    let l2 = encode_utf8(s2).len() as int;
    lemma_enc_str_parts(s1, c);
    lemma_enc_str_parts(s2, c);
    lemma_le64_prefix_det(l1, l2, c);
    assert(encode_utf8(s1) =~= encode_utf8(s2));
    assert(decode_utf8(encode_utf8(s1)) == s1);
    assert(decode_utf8(encode_utf8(s2)) == s2);
    assert(enc_str(s1) =~= enc_str(s2));
}

/// Relies on `String::from_utf8`: it returns `Ok` exactly on valid UTF-8,
/// and then the string the bytes decode to.
#[verifier::external_body]
fn bytes_to_string(v: Vec<u8>) -> (r: Option<String>)
    ensures
        r matches Some(s) ==> valid_utf8(v@) && s@ == decode_utf8(v@),
        valid_utf8(v@) ==> r is Some,
{
    String::from_utf8(v).ok()
}

/// Appends the length-prefixed UTF-8 bytes of `s`.
pub fn encode_string(out: &mut Vec<u8>, s: &str)
    ensures
        final(out)@ == old(out)@ + enc_str(s@),
{
    let mut bv = s.as_bytes_vec();
    encode_u64(out, bv.len() as u64);
    out.append(&mut bv);
    proof {
        assert(out@ =~= old(out)@ + enc_str(s@));
    }
}

/// Reads the length-prefixed string at `pos`.
pub fn decode_string(bytes: &Vec<u8>, pos: usize) -> (r: Option<(String, usize)>)
    requires
        pos <= bytes@.len(),
    ensures
        r matches Some(p) ==> {
            &&& pos <= p.1 <= bytes@.len()
            &&& bytes@.subrange(pos as int, p.1 as int) == enc_str(p.0@)
            &&& p.1 - pos == enc_str(p.0@).len()
        },
        forall|s: Seq<char>|
            enc_str(s).is_prefix_of(bytes@.skip(pos as int)) ==> (r matches Some(p) && p.0@ == s
                && p.1 == pos + enc_str(s).len()),
{
    broadcast use encode_utf8_valid_utf8, encode_utf8_decode_utf8, decode_utf8_encode_utf8;

    let blen: usize = bytes.len();
    let ghost whole = bytes@.skip(pos as int);
    proof {
        lemma_pow256_64();
        assert(usize::MAX as int <= 0xFFFF_FFFF_FFFF_FFFF);
        assert(whole.len() == bytes@.len() - pos);
        assert(whole.len() < pow256(8));
    }
    match decode_u64(bytes, pos) {
        None => {
            proof {
                assert(bytes@.len() < pos + 8);
                assert forall|s: Seq<char>| !enc_str(s).is_prefix_of(whole) by {
                    lemma_le_bytes_len(encode_utf8(s).len() as int, 8);
                    if enc_str(s).is_prefix_of(whole) {
                        assert(whole.len() >= 8);
                    }
                }
            }
            None
        },
        Some((len64, body_start)) => {
            proof {
                lemma_le_bytes_len(len64 as int, 8);
                assert(le64(len64 as int).is_prefix_of(whole)) by {
                    assert(le64(len64 as int) =~= whole.take(8));
                }
            }
            let have: usize = blen - body_start;
            if len64 > have as u64 {
                proof {
                    assert forall|s: Seq<char>| !enc_str(s).is_prefix_of(whole) by {
                        if enc_str(s).is_prefix_of(whole) {
                            lemma_enc_str_parts(s, whole);
                            lemma_le64_prefix_det(
                                encode_utf8(s).len() as int,
                                len64 as int,
                                whole,
                            );
                            assert(whole.len() >= 8 + len64);
                        }
                    }
                }
                return None;
            }
            let len = len64 as usize;
            let mut body: Vec<u8> = Vec::new();
            let mut i: usize = 0;
            while i < len
                invariant
                    i <= len,
                    body_start == pos + 8,
                    blen == bytes@.len(),
                    body_start + len <= blen,
                    body@ =~= bytes@.subrange(body_start as int, body_start + i),
                decreases len - i,
            {
                body.push(bytes[body_start + i]);
                proof {
                    assert(body@ =~= bytes@.subrange(body_start as int, body_start + i + 1));
                }
                i += 1;
            }
            let ghost body_seq = body@;
            proof {
                assert(body_seq =~= whole.subrange(8, 8 + len as int));
            }
            match bytes_to_string(body) {
                None => {
                    proof {
                        assert forall|s: Seq<char>| !enc_str(s).is_prefix_of(whole) by {
                            if enc_str(s).is_prefix_of(whole) {
                                lemma_enc_str_parts(s, whole);
                                lemma_le64_prefix_det(
                                    encode_utf8(s).len() as int,
                                    len64 as int,
                                    whole,
                                );
                                assert(encode_utf8(s) =~= body_seq);
                                assert(valid_utf8(body_seq));
                            }
                        }
                    }
                    None
                },
                Some(s) => {
                    let end = body_start + len;
                    proof {
                        assert(valid_utf8(body_seq) && s@ == decode_utf8(body_seq));
                        assert(encode_utf8(s@) =~= body_seq);
                        assert(bytes@.subrange(pos as int, end as int) =~= le64(len64 as int)
                            + body_seq);
                        assert(bytes@.subrange(pos as int, end as int) =~= enc_str(s@));
                        assert(enc_str(s@).is_prefix_of(whole)) by {
                            assert(enc_str(s@) =~= whole.take(8 + len as int));
                        }
                        assert forall|t: Seq<char>|
                            enc_str(t).is_prefix_of(whole) implies (s@ == t && end == pos
                            + enc_str(t).len()) by {
                            lemma_enc_str_prefix_det(s@, t, whole);
                        }
                    }
                    Some((s, end))
                },
            }
        },
    }
}

/// Splitting a concatenated prefix: each part prefixes at its own offset.
pub proof fn lemma_prefix_parts(a: Seq<u8>, b: Seq<u8>, c: Seq<u8>)
    requires
        (a + b).is_prefix_of(c),
    ensures
        a.is_prefix_of(c),
        b.is_prefix_of(c.skip(a.len() as int)),
{
    assert(a =~= c.subrange(0, a.len() as int)) by {
        assert forall|i: int| 0 <= i < a.len() implies a[i] == c[i] by {
            assert((a + b)[i] == a[i]);
        }
    }
    assert(b =~= c.skip(a.len() as int).subrange(0, b.len() as int)) by {
        assert forall|i: int| 0 <= i < b.len() implies b[i] == c.skip(a.len() as int)[i] by {
            assert((a + b)[a.len() + i] == b[i]);
        }
    }
}

/// Joining prefixes: parts that prefix at consecutive offsets concatenate.
pub proof fn lemma_parts_prefix(a: Seq<u8>, b: Seq<u8>, c: Seq<u8>)
    requires
        a.is_prefix_of(c),
        b.is_prefix_of(c.skip(a.len() as int)),
    ensures
        (a + b).is_prefix_of(c),
{
    assert((a + b) =~= c.subrange(0, a.len() + b.len() as int));
}

/// The two tag bytes of an addressable item.
pub open spec fn enc_item(item: DaemonItem) -> Seq<u8> {
    match item {
        DaemonItem::Volume(l) => seq![
            0u8,
            match l {
                crate::volume::VolumeItem::Percent => 0u8,
                crate::volume::VolumeItem::Mute => 1u8,
                crate::volume::VolumeItem::Icon => 2u8,
                crate::volume::VolumeItem::All => 3u8,
            },
        ],
        DaemonItem::Brightness(l) => seq![
            1u8,
            match l {
                crate::brightness::BrightnessItem::Monitor => 0u8,
                crate::brightness::BrightnessItem::Keyboard => 1u8,
                crate::brightness::BrightnessItem::Icon => 2u8,
                crate::brightness::BrightnessItem::All => 3u8,
            },
        ],
        DaemonItem::Bluetooth(l) => seq![
            2u8,
            match l {
                crate::bluetooth::BluetoothItem::State => 0u8,
                crate::bluetooth::BluetoothItem::Icon => 1u8,
                crate::bluetooth::BluetoothItem::All => 2u8,
            },
        ],
        DaemonItem::Battery(l) => seq![
            3u8,
            match l {
                crate::battery::BatteryItem::State => 0u8,
                crate::battery::BatteryItem::Percent => 1u8,
                crate::battery::BatteryItem::Time => 2u8,
                crate::battery::BatteryItem::Icon => 3u8,
                crate::battery::BatteryItem::All => 4u8,
            },
        ],
        DaemonItem::Ram(l) => seq![
            4u8,
            match l {
                crate::ram::RamItem::Total => 0u8,
                crate::ram::RamItem::Used => 1u8,
                crate::ram::RamItem::Percent => 2u8,
                crate::ram::RamItem::Icon => 3u8,
                crate::ram::RamItem::All => 4u8,
            },
        ],
        DaemonItem::FanProfile(l) => seq![
            5u8,
            match l {
                crate::fan_profile::FanProfileItem::Profile => 0u8,
                crate::fan_profile::FanProfileItem::Icon => 1u8,
            },
        ],
        DaemonItem::All => seq![6u8, 0u8],
    }
}

/// Appends the two tag bytes of `item`.
pub fn encode_item(out: &mut Vec<u8>, item: &DaemonItem)
    ensures
        final(out)@ == old(out)@ + enc_item(*item),
{
    let (t, l): (u8, u8) = match item {
        DaemonItem::Volume(l) => (
            0,
            match l {
                crate::volume::VolumeItem::Percent => 0,
                crate::volume::VolumeItem::Mute => 1,
                crate::volume::VolumeItem::Icon => 2,
                crate::volume::VolumeItem::All => 3,
            },
        ),
        DaemonItem::Brightness(l) => (
            1,
            match l {
                crate::brightness::BrightnessItem::Monitor => 0,
                crate::brightness::BrightnessItem::Keyboard => 1,
                crate::brightness::BrightnessItem::Icon => 2,
                crate::brightness::BrightnessItem::All => 3,
            },
        ),
        DaemonItem::Bluetooth(l) => (
            2,
            match l {
                crate::bluetooth::BluetoothItem::State => 0,
                crate::bluetooth::BluetoothItem::Icon => 1,
                crate::bluetooth::BluetoothItem::All => 2,
            },
        ),
        DaemonItem::Battery(l) => (
            3,
            match l {
                crate::battery::BatteryItem::State => 0,
                crate::battery::BatteryItem::Percent => 1,
                crate::battery::BatteryItem::Time => 2,
                crate::battery::BatteryItem::Icon => 3,
                crate::battery::BatteryItem::All => 4,
            },
        ),
        DaemonItem::Ram(l) => (
            4,
            match l {
                crate::ram::RamItem::Total => 0,
                crate::ram::RamItem::Used => 1,
                crate::ram::RamItem::Percent => 2,
                crate::ram::RamItem::Icon => 3,
                crate::ram::RamItem::All => 4,
            },
        ),
        DaemonItem::FanProfile(l) => (
            5,
            match l {
                crate::fan_profile::FanProfileItem::Profile => 0,
                crate::fan_profile::FanProfileItem::Icon => 1,
            },
        ),
        DaemonItem::All => (6, 0),
    };
    out.push(t);
    out.push(l);
    proof {
        assert(out@ =~= old(out)@ + enc_item(*item));
    }
}

/// Reads the two item tag bytes at `pos`.
pub fn decode_item(bytes: &Vec<u8>, pos: usize) -> (r: Option<(DaemonItem, usize)>)
    requires
        pos <= bytes@.len(),
    ensures
        r matches Some(p) ==> {
            &&& p.1 == pos + 2
            &&& p.1 <= bytes@.len()
            &&& bytes@.subrange(pos as int, p.1 as int) == enc_item(p.0)
        },
        forall|it: DaemonItem|
            enc_item(it).is_prefix_of(bytes@.skip(pos as int)) ==> (r matches Some(p) && p.0 == it
                && p.1 == pos + 2),
{
    let ghost whole = bytes@.skip(pos as int);
    if bytes.len() - pos < 2 {
        proof {
            assert forall|it: DaemonItem| !enc_item(it).is_prefix_of(whole) by {
                assert(enc_item(it).len() == 2);
                assert(whole.len() < 2);
            }
        }
        return None;
    }
    let t = bytes[pos];
    let l = bytes[pos + 1];
    proof {
        assert(whole[0] == bytes@[pos as int]);
        assert(whole[1] == bytes@[pos + 1]);
    }
    let item: DaemonItem = match (t, l) {
        (0, 0) => DaemonItem::Volume(crate::volume::VolumeItem::Percent),
        (0, 1) => DaemonItem::Volume(crate::volume::VolumeItem::Mute),
        (0, 2) => DaemonItem::Volume(crate::volume::VolumeItem::Icon),
        (0, 3) => DaemonItem::Volume(crate::volume::VolumeItem::All),
        (1, 0) => DaemonItem::Brightness(crate::brightness::BrightnessItem::Monitor),
        (1, 1) => DaemonItem::Brightness(crate::brightness::BrightnessItem::Keyboard),
        (1, 2) => DaemonItem::Brightness(crate::brightness::BrightnessItem::Icon),
        (1, 3) => DaemonItem::Brightness(crate::brightness::BrightnessItem::All),
        (2, 0) => DaemonItem::Bluetooth(crate::bluetooth::BluetoothItem::State),
        (2, 1) => DaemonItem::Bluetooth(crate::bluetooth::BluetoothItem::Icon),
        (2, 2) => DaemonItem::Bluetooth(crate::bluetooth::BluetoothItem::All),
        (3, 0) => DaemonItem::Battery(crate::battery::BatteryItem::State),
        (3, 1) => DaemonItem::Battery(crate::battery::BatteryItem::Percent),
        (3, 2) => DaemonItem::Battery(crate::battery::BatteryItem::Time),
        (3, 3) => DaemonItem::Battery(crate::battery::BatteryItem::Icon),
        (3, 4) => DaemonItem::Battery(crate::battery::BatteryItem::All),
        (4, 0) => DaemonItem::Ram(crate::ram::RamItem::Total),
        (4, 1) => DaemonItem::Ram(crate::ram::RamItem::Used),
        (4, 2) => DaemonItem::Ram(crate::ram::RamItem::Percent),
        (4, 3) => DaemonItem::Ram(crate::ram::RamItem::Icon),
        (4, 4) => DaemonItem::Ram(crate::ram::RamItem::All),
        (5, 0) => DaemonItem::FanProfile(crate::fan_profile::FanProfileItem::Profile),
        (5, 1) => DaemonItem::FanProfile(crate::fan_profile::FanProfileItem::Icon),
        (6, 0) => DaemonItem::All,
        _ => {
            proof {
                assert forall|it: DaemonItem| !enc_item(it).is_prefix_of(whole) by {
                    if enc_item(it).is_prefix_of(whole) {
                        assert(enc_item(it)[0] == whole[0]);
                        assert(enc_item(it)[1] == whole[1]);
                    }
                }
            }
            return None;
        },
    };
    proof {
        assert(bytes@.subrange(pos as int, pos + 2) =~= enc_item(item));
        assert forall|it: DaemonItem| enc_item(it).is_prefix_of(whole) implies it == item by {
            assert(enc_item(it)[0] == whole[0]);
            assert(enc_item(it)[1] == whole[1]);
        }
    }
    Some((item, pos + 2))
}

/// The wire form of a request.
pub open spec fn enc_msg(m: MessageModel) -> Seq<u8> {
    match m {
        MessageModel::SetValue { item, value } => seq![0u8] + enc_item(item) + enc_str(value),
        MessageModel::Get { item } => seq![1u8] + enc_item(item),
        MessageModel::Listen => seq![2u8],
    }
}

/// Encodes a request for the wire.
pub fn encode_message(m: &DaemonMessage) -> (r: Vec<u8>)
    ensures
        r@ == enc_msg(m@),
{
    let mut out: Vec<u8> = Vec::new();
    match m {
        DaemonMessage::SetValue { item, value } => {
            out.push(0);
            encode_item(&mut out, item);
            encode_string(&mut out, value.as_str());
            proof {
                assert(out@ =~= enc_msg(m@));
            }
        },
        DaemonMessage::Get { item } => {
            out.push(1);
            encode_item(&mut out, item);
            proof {
                assert(out@ =~= enc_msg(m@));
            }
        },
        DaemonMessage::Listen => {
            out.push(2);
            proof {
                assert(out@ =~= enc_msg(m@));
            }
        },
    }
    out
}

/// Reads a `SetValue` request; the tag byte has already been seen.
#[verifier::rlimit(60)]
fn decode_message_set(bytes: &Vec<u8>) -> (r: Option<DaemonMessage>)
    requires
        bytes@.len() >= 1,
        bytes@[0] == 0,
    ensures
        r matches Some(m) ==> enc_msg(m@).is_prefix_of(bytes@),
        forall|m: MessageModel| enc_msg(m).is_prefix_of(bytes@) ==> (r matches Some(d) && d@ == m),
{
    match decode_item(bytes, 1) {
        None => {
            proof {
                assert forall|m: MessageModel| !enc_msg(m).is_prefix_of(bytes@) by {
                    if enc_msg(m).is_prefix_of(bytes@) {
                        assert(enc_msg(m)[0] == bytes@[0]);
                        match m {
                            MessageModel::SetValue { item, value } => {
                                lemma_prefix_parts(
                                    seq![0u8] + enc_item(item),
                                    enc_str(value),
                                    bytes@,
                                );
                                lemma_prefix_parts(seq![0u8], enc_item(item), bytes@);
                            },
                            _ => {},
                        }
                    }
                }
            }
            None
        },
        Some((item, after_item)) => {
            match decode_string(bytes, after_item) {
                None => {
                    proof {
                        assert forall|m: MessageModel| !enc_msg(m).is_prefix_of(bytes@) by {
                            if enc_msg(m).is_prefix_of(bytes@) {
                                assert(enc_msg(m)[0] == bytes@[0]);
                                match m {
                                    MessageModel::SetValue { item: it2, value } => {
                                        lemma_prefix_parts(
                                            seq![0u8] + enc_item(it2),
                                            enc_str(value),
                                            bytes@,
                                        );
                                        lemma_prefix_parts(seq![0u8], enc_item(it2), bytes@);
                                        assert(bytes@.skip(1).skip(2) =~= bytes@.skip(3));
                                        assert(enc_str(value).is_prefix_of(bytes@.skip(3)));
                                    },
                                    _ => {},
                                }
                            }
                        }
                    }
                    None
                },
                Some((value, end)) => {
                    let d = DaemonMessage::SetValue { item, value };
                    proof {
                        assert(seq![0u8].is_prefix_of(bytes@)) by {
                            assert(seq![0u8] =~= bytes@.take(1));
                        }
                        assert(enc_item(item).is_prefix_of(bytes@.skip(1))) by {
                            assert(enc_item(item) =~= bytes@.skip(1).take(2));
                        }
                        lemma_parts_prefix(seq![0u8], enc_item(item), bytes@);
                        assert(enc_str(d@->SetValue_value).is_prefix_of(bytes@.skip(3))) by {
                            assert(bytes@.subrange(3, end as int) =~= bytes@.skip(3).take(
                                end - 3,
                            ));
                        }
                        lemma_parts_prefix(
                            seq![0u8] + enc_item(item),
                            enc_str(d@->SetValue_value),
                            bytes@,
                        );
                        assert(enc_msg(d@).is_prefix_of(bytes@));
                        assert forall|m: MessageModel|
                            enc_msg(m).is_prefix_of(bytes@) implies m == d@ by {
                            assert(enc_msg(m)[0] == bytes@[0]);
                            match m {
                                MessageModel::SetValue { item: it2, value: v2 } => {
                                    lemma_prefix_parts(
                                        seq![0u8] + enc_item(it2),
                                        enc_str(v2),
                                        bytes@,
                                    );
                                    lemma_prefix_parts(seq![0u8], enc_item(it2), bytes@);
                                    assert(it2 == item);
                                    assert(bytes@.skip(1).skip(2) =~= bytes@.skip(3));
                                    assert(enc_str(v2).is_prefix_of(bytes@.skip(3)));
                                    assert(v2 == value@);
                                },
                                _ => {},
                            }
                        }
                    }
                    Some(d)
                },
            }
        },
    }
}

/// Reads a `Get` request; the tag byte has already been seen.
#[verifier::rlimit(60)]
fn decode_message_get(bytes: &Vec<u8>) -> (r: Option<DaemonMessage>)
    requires
        bytes@.len() >= 1,
        bytes@[0] == 1,
    ensures
        r matches Some(m) ==> enc_msg(m@).is_prefix_of(bytes@),
        forall|m: MessageModel| enc_msg(m).is_prefix_of(bytes@) ==> (r matches Some(d) && d@ == m),
{
    match decode_item(bytes, 1) {
        None => {
            proof {
                assert forall|m: MessageModel| !enc_msg(m).is_prefix_of(bytes@) by {
                    if enc_msg(m).is_prefix_of(bytes@) {
                        assert(enc_msg(m)[0] == bytes@[0]);
                        match m {
                            MessageModel::Get { item } => {
                                lemma_prefix_parts(seq![1u8], enc_item(item), bytes@);
                            },
                            _ => {},
                        }
                    }
                }
            }
            None
        },
        Some((item, _end)) => {
            let d = DaemonMessage::Get { item };
            proof {
                assert(seq![1u8].is_prefix_of(bytes@)) by {
                    assert(seq![1u8] =~= bytes@.take(1));
                }
                assert(enc_item(item).is_prefix_of(bytes@.skip(1))) by {
                    assert(enc_item(item) =~= bytes@.skip(1).take(2));
                }
                lemma_parts_prefix(seq![1u8], enc_item(item), bytes@);
                assert(enc_msg(d@).is_prefix_of(bytes@));
                assert forall|m: MessageModel|
                    enc_msg(m).is_prefix_of(bytes@) implies m == d@ by {
                    assert(enc_msg(m)[0] == bytes@[0]);
                    match m {
                        MessageModel::Get { item: it2 } => {
                            lemma_prefix_parts(seq![1u8], enc_item(it2), bytes@);
                            assert(it2 == item);
                        },
                        _ => {},
                    }
                }
            }
            Some(d)
        },
    }
}

/// Decodes the request that the start of `bytes` holds; trailing bytes are
/// ignored, as one socket read may carry padding after the message.
pub fn decode_message(bytes: &Vec<u8>) -> (r: Option<DaemonMessage>)
    ensures
        r matches Some(m) ==> enc_msg(m@).is_prefix_of(bytes@),
        forall|m: MessageModel| enc_msg(m).is_prefix_of(bytes@) ==> (r matches Some(d) && d@ == m),
{
    if bytes.len() == 0 {
        proof {
            assert forall|m: MessageModel| !enc_msg(m).is_prefix_of(bytes@) by {
                assert(enc_msg(m).len() >= 1);
            }
        }
        return None;
    }
    let tag = bytes[0];
    if tag == 0 {
        decode_message_set(bytes)
    } else if tag == 1 {
        decode_message_get(bytes)
    } else if tag == 2 {
        let d = DaemonMessage::Listen;
        proof {
            assert(enc_msg(d@).is_prefix_of(bytes@)) by {
                assert(enc_msg(d@) =~= bytes@.take(1));
            }
            assert forall|m: MessageModel| enc_msg(m).is_prefix_of(bytes@) implies m == d@ by {
                assert(enc_msg(m)[0] == bytes@[0]);
            }
        }
        Some(d)
    } else {
        proof {
            assert forall|m: MessageModel| !enc_msg(m).is_prefix_of(bytes@) by {
                if enc_msg(m).is_prefix_of(bytes@) {
                    assert(enc_msg(m)[0] == bytes@[0]);
                }
            }
        }
        None
    }
}

/// The wire form of one name/value pair.
pub open spec fn enc_pair(p: (Seq<char>, Seq<char>)) -> Seq<u8> {
    enc_str(p.0) + enc_str(p.1)
}

/// The concatenated wire forms of a list of pairs, without the count.
pub open spec fn enc_pairs_body(ts: Seq<(Seq<char>, Seq<char>)>) -> Seq<u8>
    decreases ts.len(),
{
    if ts.len() == 0 {
        Seq::empty()
    } else {
        enc_pair(ts[0]) + enc_pairs_body(ts.skip(1))
    }
}

/// The wire form of a list of pairs: its count, then the pairs.
pub open spec fn enc_pairs(ts: Seq<(Seq<char>, Seq<char>)>) -> Seq<u8> {
    le64(ts.len() as int) + enc_pairs_body(ts)
}

/// A pair body splits at any index.
pub proof fn lemma_pairs_body_split(ts: Seq<(Seq<char>, Seq<char>)>, j: int)
    requires
        0 <= j <= ts.len(),
    ensures
        enc_pairs_body(ts) =~= enc_pairs_body(ts.take(j)) + enc_pairs_body(ts.skip(j)),
    decreases j,
{
    if j == 0 {
        assert(ts.take(0) =~= Seq::<(Seq<char>, Seq<char>)>::empty());
        assert(ts.skip(0) =~= ts);
    } else {
        lemma_pairs_body_split(ts.skip(1), j - 1);
        assert(ts.skip(1).take(j - 1) =~= ts.take(j).skip(1));
        assert(ts.skip(1).skip(j - 1) =~= ts.skip(j));
        assert(ts.take(j)[0] == ts[0]);
        assert(enc_pairs_body(ts.take(j)) =~= enc_pair(ts[0]) + enc_pairs_body(
            ts.take(j).skip(1),
        ));
        assert(enc_pairs_body(ts) =~= enc_pair(ts[0]) + (enc_pairs_body(ts.take(j).skip(1))
            + enc_pairs_body(ts.skip(j))));
    }
}

/// Every pair takes at least sixteen bytes on the wire.
pub proof fn lemma_pairs_body_min(ts: Seq<(Seq<char>, Seq<char>)>)
    ensures
        enc_pairs_body(ts).len() >= 16 * ts.len(),
    decreases ts.len(),
{
    if ts.len() > 0 {
        lemma_pairs_body_min(ts.skip(1));
        lemma_le_bytes_len(encode_utf8(ts[0].0).len() as int, 8);
        lemma_le_bytes_len(encode_utf8(ts[0].1).len() as int, 8);
    }
}

/// Two pair encodings read from the same place agree.
pub proof fn lemma_enc_pair_prefix_det(
    p: (Seq<char>, Seq<char>),
    q: (Seq<char>, Seq<char>),
    c: Seq<u8>,
)
    requires
        enc_pair(p).is_prefix_of(c),
        enc_pair(q).is_prefix_of(c),
        c.len() < pow256(8),
    ensures
        p == q,
        enc_pair(p) == enc_pair(q),
{
    lemma_prefix_parts(enc_str(p.0), enc_str(p.1), c);
    lemma_prefix_parts(enc_str(q.0), enc_str(q.1), c);
    lemma_enc_str_prefix_det(p.0, q.0, c);
    lemma_enc_str_prefix_det(p.1, q.1, c.skip(enc_str(p.0).len() as int));
    assert(p =~~= q) by {
        assert(p.0 == q.0 && p.1 == q.1);
    }
    assert(enc_pair(p) =~= enc_pair(q));
}

/// The shorter of two pair-list bodies read from the same place is a prefix
/// of the longer, pair for pair.
pub proof fn lemma_pairs_body_prefix_det(
    u: Seq<(Seq<char>, Seq<char>)>,
    w: Seq<(Seq<char>, Seq<char>)>,
    c: Seq<u8>,
)
    requires
        u.len() <= w.len(),
        enc_pairs_body(u).is_prefix_of(c),
        enc_pairs_body(w).is_prefix_of(c),
        c.len() < pow256(8),
    ensures
        u =~~= w.take(u.len() as int),
    decreases u.len(),
{
    if u.len() > 0 {
        assert(enc_pair(u[0]).is_prefix_of(c)) by {
            lemma_prefix_parts(enc_pair(u[0]), enc_pairs_body(u.skip(1)), c);
        }
        assert(enc_pair(w[0]).is_prefix_of(c)) by {
            lemma_prefix_parts(enc_pair(w[0]), enc_pairs_body(w.skip(1)), c);
        }
        lemma_enc_pair_prefix_det(u[0], w[0], c);
        let step = enc_pair(u[0]).len() as int;
        lemma_prefix_parts(enc_pair(u[0]), enc_pairs_body(u.skip(1)), c);
        lemma_prefix_parts(enc_pair(w[0]), enc_pairs_body(w.skip(1)), c);
        lemma_pairs_body_prefix_det(u.skip(1), w.skip(1), c.skip(step));
        assert(w.take(u.len() as int)[0] == w[0]);
        assert(w.skip(1).take(u.len() - 1) =~= w.take(u.len() as int).skip(1));
        assert(u =~~= w.take(u.len() as int)) by {
            assert(u.skip(1) =~~= w.skip(1).take(u.len() - 1));
            assert(u[0] == w.take(u.len() as int)[0]);
            assert forall|i: int| 0 <= i < u.len() implies u[i] =~~= w.take(u.len() as int)[i] by {
                if i > 0 {
                    assert(u[i] == u.skip(1)[i - 1]);
                    assert(w.take(u.len() as int)[i] == w.skip(1).take(u.len() - 1)[i - 1]);
                }
            }
        }
    }
}

/// Appends the count-prefixed wire form of the pairs.
pub fn encode_pairs(out: &mut Vec<u8>, ts: &Vec<(String, String)>)
    ensures
        final(out)@ == old(out)@ + enc_pairs(pairs_view(ts@)),
{
    let ghost view = pairs_view(ts@);
    encode_u64(out, ts.len() as u64);
    let mut i: usize = 0;
    while i < ts.len()
        invariant
            i <= ts@.len(),
            view == pairs_view(ts@),
            view.len() == ts@.len(),
            out@ =~= old(out)@ + le64(ts@.len() as int) + enc_pairs_body(view.take(i as int)),
        decreases ts@.len() - i,
    {
        let pair = &ts[i];
        encode_string(out, pair.0.as_str());
        encode_string(out, pair.1.as_str());
        proof {
            assert(view[i as int] == (ts@[i as int].0@, ts@[i as int].1@));
            lemma_pairs_body_split(view.take(i + 1), i as int);
            assert(view.take(i + 1).take(i as int) =~= view.take(i as int));
            assert(view.take(i + 1).skip(i as int) =~= seq![view[i as int]]);
            assert(enc_pairs_body(seq![view[i as int]]) =~= enc_pair(view[i as int])) by {
                assert(seq![view[i as int]].skip(1) =~= Seq::<(Seq<char>, Seq<char>)>::empty());
                assert(enc_pairs_body(Seq::<(Seq<char>, Seq<char>)>::empty())
                    =~= Seq::<u8>::empty());
            }
            assert(out@ =~= old(out)@ + le64(ts@.len() as int) + enc_pairs_body(
                view.take(i + 1),
            ));
        }
        i += 1;
    }
    proof {
        assert(view.take(view.len() as int) =~= view);
        assert(out@ =~= old(out)@ + enc_pairs(view));
    }
}

/// What holds mid-way through reading a pair list: the pairs read so far are
/// the first pairs of any list encoded here, and the next pair's strings sit
/// right after them.
proof fn lemma_pairs_at(
    ts: Seq<(Seq<char>, Seq<char>)>,
    prev: Seq<(Seq<char>, Seq<char>)>,
    whole: Seq<u8>,
    count: int,
)
    requires
        enc_pairs(ts).is_prefix_of(whole),
        le64(count).is_prefix_of(whole),
        0 <= count < pow256(8),
        prev.len() < count,
        enc_pairs_body(prev).is_prefix_of(whole.skip(8)),
        whole.len() < pow256(8),
    ensures
        ts.len() == count,
        prev =~~= ts.take(prev.len() as int),
        enc_pair(ts[prev.len() as int]).is_prefix_of(
            whole.skip(8).skip(enc_pairs_body(prev).len() as int),
        ),
        enc_str(ts[prev.len() as int].0).is_prefix_of(
            whole.skip(8).skip(enc_pairs_body(prev).len() as int),
        ),
        enc_str(ts[prev.len() as int].1).is_prefix_of(
            whole.skip(8).skip(enc_pairs_body(prev).len() as int).skip(
                enc_str(ts[prev.len() as int].0).len() as int,
            ),
        ),
{
    lemma_le_bytes_len(ts.len() as int, 8);
    lemma_prefix_parts(le64(ts.len() as int), enc_pairs_body(ts), whole);
    lemma_pairs_body_min(ts);
    assert(ts.len() < pow256(8));
    lemma_le64_prefix_det(ts.len() as int, count, whole);
    lemma_pairs_body_prefix_det(prev, ts, whole.skip(8));
    let j = prev.len() as int;
    lemma_pairs_body_split(ts, j);
    lemma_prefix_parts(enc_pairs_body(ts.take(j)), enc_pairs_body(ts.skip(j)), whole.skip(8));
    assert(enc_pairs_body(ts.take(j)) == enc_pairs_body(prev));
    let rest = whole.skip(8).skip(enc_pairs_body(prev).len() as int);
    assert(ts.skip(j).len() > 0);
    assert(enc_pairs_body(ts.skip(j)) =~= enc_pair(ts[j]) + enc_pairs_body(ts.skip(j).skip(1)));
    lemma_prefix_parts(enc_pair(ts[j]), enc_pairs_body(ts.skip(j).skip(1)), rest);
    lemma_prefix_parts(enc_str(ts[j].0), enc_str(ts[j].1), rest);
}

/// Reads the count-prefixed pair list at `pos`.
#[verifier::rlimit(60)]
pub fn decode_pairs(bytes: &Vec<u8>, pos: usize) -> (r: Option<(Vec<(String, String)>, usize)>)
    requires
        pos <= bytes@.len(),
    ensures
        r matches Some(p) ==> {
            &&& pos <= p.1 <= bytes@.len()
            &&& bytes@.subrange(pos as int, p.1 as int) == enc_pairs(pairs_view(p.0@))
        },
        forall|ts: Seq<(Seq<char>, Seq<char>)>|
            enc_pairs(ts).is_prefix_of(bytes@.skip(pos as int)) ==> (r matches Some(p)
                && pairs_view(p.0@) == ts && p.1 == pos + enc_pairs(ts).len()),
{
    let blen: usize = bytes.len();
    let ghost whole = bytes@.skip(pos as int);
    proof {
        lemma_pow256_64();
        assert(whole.len() == bytes@.len() - pos);
        assert(usize::MAX as int <= 0xFFFF_FFFF_FFFF_FFFF);
        assert(whole.len() < pow256(8));
    }
    match decode_u64(bytes, pos) {
        None => {
            proof {
                assert(bytes@.len() < pos + 8);
                assert forall|ts: Seq<(Seq<char>, Seq<char>)>|
                    !enc_pairs(ts).is_prefix_of(whole) by {
                    lemma_le_bytes_len(ts.len() as int, 8);
                    if enc_pairs(ts).is_prefix_of(whole) {
                        assert(whole.len() >= 8);
                    }
                }
            }
            None
        },
        Some((count64, body_start)) => {
            proof {
                lemma_le_bytes_len(count64 as int, 8);
                assert(le64(count64 as int).is_prefix_of(whole)) by {
                    assert(le64(count64 as int) =~= whole.take(8));
                }
            }
            let have: usize = blen - body_start;
            if count64 > (have / 16) as u64 {
                proof {
                    assert forall|ts: Seq<(Seq<char>, Seq<char>)>|
                        !enc_pairs(ts).is_prefix_of(whole) by {
                        if enc_pairs(ts).is_prefix_of(whole) {
                            lemma_le_bytes_len(ts.len() as int, 8);
                            lemma_prefix_parts(le64(ts.len() as int), enc_pairs_body(ts), whole);
                            lemma_pairs_body_min(ts);
                            lemma_le64_prefix_det(ts.len() as int, count64 as int, whole);
                            assert(whole.skip(8).len() >= enc_pairs_body(ts).len());
                            assert(16 * count64 <= have);
                            assert(count64 <= have / 16) by (nonlinear_arith)
                                requires
                                    16 * count64 <= have,
                                    count64 >= 0,
                                    have >= 0,
                            ;
                        }
                    }
                }
                return None;
            }
            let count = count64 as usize;
            let mut acc: Vec<(String, String)> = Vec::new();
            let mut cur: usize = body_start;
            let mut j: usize = 0;
            while j < count
                invariant
                    j <= count,
                    count == count64,
                    blen == bytes@.len(),
                    body_start == pos + 8,
                    body_start <= cur <= blen,
                    whole == bytes@.skip(pos as int),
                    whole.len() == bytes@.len() - pos,
                    whole.len() < pow256(8),
                    le64(count64 as int).is_prefix_of(whole),
                    acc@.len() == j,
                    bytes@.subrange(body_start as int, cur as int) == enc_pairs_body(
                        pairs_view(acc@),
                    ),
                decreases count - j,
            {
                let ghost prev_acc = pairs_view(acc@);
                proof {
                    lemma_pow256_64();
                    assert(enc_pairs_body(prev_acc).is_prefix_of(whole.skip(8))) by {
                        assert(enc_pairs_body(prev_acc) =~= whole.skip(8).take(cur - body_start));
                    }
                    assert(whole.skip(8).skip(cur - body_start) =~= bytes@.skip(cur as int));
                }
                let name = match decode_string(bytes, cur) {
                    None => {
                        proof {
                            assert forall|ts: Seq<(Seq<char>, Seq<char>)>|
                                !enc_pairs(ts).is_prefix_of(whole) by {
                                if enc_pairs(ts).is_prefix_of(whole) {
                                    lemma_pairs_at(ts, prev_acc, whole, count64 as int);
                                }
                            }
                        }
                        return None;
                    },
                    Some(p) => p,
                };
                let value = match decode_string(bytes, name.1) {
                    None => {
                        proof {
                            assert forall|ts: Seq<(Seq<char>, Seq<char>)>|
                                !enc_pairs(ts).is_prefix_of(whole) by {
                                if enc_pairs(ts).is_prefix_of(whole) {
                                    lemma_pairs_at(ts, prev_acc, whole, count64 as int);
                                    assert(name.0@ == ts[j as int].0);
                                    assert(bytes@.skip(cur as int).skip(
                                        enc_str(ts[j as int].0).len() as int,
                                    ) =~= bytes@.skip(name.1 as int));
                                }
                            }
                        }
                        return None;
                    },
                    Some(p) => p,
                };
                let ghost name_view = name.0@;
                let ghost value_view = value.0@;
                let end_of_pair = value.1;
                acc.push((name.0, value.0));
                proof {
                    let new_acc = pairs_view(acc@);
                    assert(new_acc =~~= prev_acc.push((name_view, value_view)));
                    lemma_pairs_body_split(new_acc, j as int);
                    assert(new_acc.take(j as int) =~= prev_acc);
                    assert(new_acc.skip(j as int) =~= seq![(name_view, value_view)]);
                    assert(enc_pairs_body(seq![(name_view, value_view)]) =~= enc_pair(
                        (name_view, value_view),
                    )) by {
                        assert(seq![(name_view, value_view)].skip(1) =~= Seq::<
                            (Seq<char>, Seq<char>),
                        >::empty());
                        assert(enc_pairs_body(Seq::<(Seq<char>, Seq<char>)>::empty()) =~= Seq::<
                            u8,
                        >::empty());
                    }
                    assert(bytes@.subrange(body_start as int, end_of_pair as int)
                        =~= enc_pairs_body(new_acc));
                }
                cur = end_of_pair;
                j += 1;
            }
            proof {
                assert(bytes@.subrange(pos as int, cur as int) =~= le64(count64 as int)
                    + enc_pairs_body(pairs_view(acc@)));
                assert(bytes@.subrange(pos as int, cur as int) =~= enc_pairs(pairs_view(acc@)));
                assert forall|ts: Seq<(Seq<char>, Seq<char>)>|
                    enc_pairs(ts).is_prefix_of(whole) implies (pairs_view(acc@) == ts && cur
                    == pos + enc_pairs(ts).len()) by {
                    lemma_le_bytes_len(ts.len() as int, 8);
                    lemma_prefix_parts(le64(ts.len() as int), enc_pairs_body(ts), whole);
                    lemma_pairs_body_min(ts);
                    lemma_le64_prefix_det(ts.len() as int, count64 as int, whole);
                    assert(enc_pairs_body(pairs_view(acc@)).is_prefix_of(whole.skip(8))) by {
                        assert(enc_pairs_body(pairs_view(acc@)) =~= whole.skip(8).take(
                            cur - body_start,
                        ));
                    }
                    lemma_pairs_body_prefix_det(pairs_view(acc@), ts, whole.skip(8));
                    assert(ts.take(ts.len() as int) =~= ts);
                    assert(pairs_view(acc@) =~~= ts);
                }
            }
            Some((acc, cur))
        },
    }
}

/// Two pair-list encodings read from the same place agree.
pub proof fn lemma_enc_pairs_prefix_det(
    ts1: Seq<(Seq<char>, Seq<char>)>,
    ts2: Seq<(Seq<char>, Seq<char>)>,
    c: Seq<u8>,
)
    requires
        enc_pairs(ts1).is_prefix_of(c),
        enc_pairs(ts2).is_prefix_of(c),
        c.len() < pow256(8),
    ensures
        ts1 =~~= ts2,
        enc_pairs(ts1) == enc_pairs(ts2),
{
    lemma_le_bytes_len(ts1.len() as int, 8);
    lemma_le_bytes_len(ts2.len() as int, 8);
    lemma_prefix_parts(le64(ts1.len() as int), enc_pairs_body(ts1), c);
    lemma_prefix_parts(le64(ts2.len() as int), enc_pairs_body(ts2), c);
    lemma_pairs_body_min(ts1);
    lemma_pairs_body_min(ts2);
    lemma_le64_prefix_det(ts1.len() as int, ts2.len() as int, c);
    lemma_pairs_body_prefix_det(ts1, ts2, c.skip(8));
    assert(ts2.take(ts2.len() as int) =~= ts2);
    assert(enc_pairs(ts1) =~= enc_pairs(ts2));
}

/// The wire form of one named group of a snapshot.
pub open spec fn enc_group(g: (Seq<char>, Seq<(Seq<char>, Seq<char>)>)) -> Seq<u8> {
    enc_str(g.0) + enc_pairs(g.1)
}

/// The concatenated wire forms of the groups, without the count.
pub open spec fn enc_groups_body(gs: Seq<(Seq<char>, Seq<(Seq<char>, Seq<char>)>)>) -> Seq<u8>
    decreases gs.len(),
{
    if gs.len() == 0 {
        Seq::empty()
    } else {
        enc_group(gs[0]) + enc_groups_body(gs.skip(1))
    }
}

/// The wire form of a snapshot: its group count, then the groups.
pub open spec fn enc_groups(gs: Seq<(Seq<char>, Seq<(Seq<char>, Seq<char>)>)>) -> Seq<u8> {
    le64(gs.len() as int) + enc_groups_body(gs)
}

/// A group body splits at any index.
pub proof fn lemma_groups_body_split(gs: Seq<(Seq<char>, Seq<(Seq<char>, Seq<char>)>)>, j: int)
    requires
        0 <= j <= gs.len(),
    ensures
        enc_groups_body(gs) =~= enc_groups_body(gs.take(j)) + enc_groups_body(gs.skip(j)),
    decreases j,
{
    if j == 0 {
        assert(gs.take(0) =~= Seq::<(Seq<char>, Seq<(Seq<char>, Seq<char>)>)>::empty());
        assert(gs.skip(0) =~= gs);
    } else {
        lemma_groups_body_split(gs.skip(1), j - 1);
        assert(gs.skip(1).take(j - 1) =~= gs.take(j).skip(1));
        assert(gs.skip(1).skip(j - 1) =~= gs.skip(j));
        assert(gs.take(j)[0] == gs[0]);
        assert(enc_groups_body(gs.take(j)) =~= enc_group(gs[0]) + enc_groups_body(
            gs.take(j).skip(1),
        ));
        assert(enc_groups_body(gs) =~= enc_group(gs[0]) + (enc_groups_body(gs.take(j).skip(1))
            + enc_groups_body(gs.skip(j))));
    }
}

/// Every group takes at least sixteen bytes on the wire.
pub proof fn lemma_groups_body_min(gs: Seq<(Seq<char>, Seq<(Seq<char>, Seq<char>)>)>)
    ensures
        enc_groups_body(gs).len() >= 16 * gs.len(),
    decreases gs.len(),
{
    if gs.len() > 0 {
        lemma_groups_body_min(gs.skip(1));
        lemma_le_bytes_len(encode_utf8(gs[0].0).len() as int, 8);
        lemma_le_bytes_len(gs[0].1.len() as int, 8);
    }
}

/// Two group encodings read from the same place agree.
pub proof fn lemma_enc_group_prefix_det(
    g1: (Seq<char>, Seq<(Seq<char>, Seq<char>)>),
    g2: (Seq<char>, Seq<(Seq<char>, Seq<char>)>),
    c: Seq<u8>,
)
    requires
        enc_group(g1).is_prefix_of(c),
        enc_group(g2).is_prefix_of(c),
        c.len() < pow256(8),
    ensures
        g1 =~~= g2,
        enc_group(g1) == enc_group(g2),
{
    lemma_prefix_parts(enc_str(g1.0), enc_pairs(g1.1), c);
    lemma_prefix_parts(enc_str(g2.0), enc_pairs(g2.1), c);
    lemma_enc_str_prefix_det(g1.0, g2.0, c);
    lemma_enc_pairs_prefix_det(g1.1, g2.1, c.skip(enc_str(g1.0).len() as int));
    assert(g1 =~~= g2) by {
        assert(g1.0 == g2.0 && g1.1 =~~= g2.1);
    }
    assert(enc_group(g1) =~= enc_group(g2));
}

/// The shorter of two group bodies read from the same place is a prefix of
/// the longer, group for group.
pub proof fn lemma_groups_body_prefix_det(
    u: Seq<(Seq<char>, Seq<(Seq<char>, Seq<char>)>)>,
    w: Seq<(Seq<char>, Seq<(Seq<char>, Seq<char>)>)>,
    c: Seq<u8>,
)
    requires
        u.len() <= w.len(),
        enc_groups_body(u).is_prefix_of(c),
        enc_groups_body(w).is_prefix_of(c),
        c.len() < pow256(8),
    ensures
        u =~~= w.take(u.len() as int),
    decreases u.len(),
{
    if u.len() > 0 {
        assert(enc_group(u[0]).is_prefix_of(c)) by {
            lemma_prefix_parts(enc_group(u[0]), enc_groups_body(u.skip(1)), c);
        }
        assert(enc_group(w[0]).is_prefix_of(c)) by {
            lemma_prefix_parts(enc_group(w[0]), enc_groups_body(w.skip(1)), c);
        }
        lemma_enc_group_prefix_det(u[0], w[0], c);
        let step = enc_group(u[0]).len() as int;
        lemma_prefix_parts(enc_group(u[0]), enc_groups_body(u.skip(1)), c);
        lemma_prefix_parts(enc_group(w[0]), enc_groups_body(w.skip(1)), c);
        lemma_groups_body_prefix_det(u.skip(1), w.skip(1), c.skip(step));
        assert(w.take(u.len() as int)[0] == w[0]);
        assert(w.skip(1).take(u.len() - 1) =~= w.take(u.len() as int).skip(1));
        assert(u =~~= w.take(u.len() as int)) by {
            assert(u.skip(1) =~~= w.skip(1).take(u.len() - 1));
            assert forall|i: int| 0 <= i < u.len() implies u[i] =~~= w.take(u.len() as int)[i] by {
                if i > 0 {
                    assert(u[i] == u.skip(1)[i - 1]);
                    assert(w.take(u.len() as int)[i] == w.skip(1).take(u.len() - 1)[i - 1]);
                }
            }
        }
    }
}

/// Two snapshot encodings read from the same place agree.
pub proof fn lemma_enc_groups_prefix_det(
    gs1: Seq<(Seq<char>, Seq<(Seq<char>, Seq<char>)>)>,
    gs2: Seq<(Seq<char>, Seq<(Seq<char>, Seq<char>)>)>,
    c: Seq<u8>,
)
    requires
        enc_groups(gs1).is_prefix_of(c),
        enc_groups(gs2).is_prefix_of(c),
        c.len() < pow256(8),
    ensures
        gs1 =~~= gs2,
        enc_groups(gs1) == enc_groups(gs2),
{
    lemma_le_bytes_len(gs1.len() as int, 8);
    lemma_le_bytes_len(gs2.len() as int, 8);
    lemma_prefix_parts(le64(gs1.len() as int), enc_groups_body(gs1), c);
    lemma_prefix_parts(le64(gs2.len() as int), enc_groups_body(gs2), c);
    lemma_groups_body_min(gs1);
    lemma_groups_body_min(gs2);
    lemma_le64_prefix_det(gs1.len() as int, gs2.len() as int, c);
    lemma_groups_body_prefix_det(gs1, gs2, c.skip(8));
    assert(gs2.take(gs2.len() as int) =~= gs2);
    assert(enc_groups(gs1) =~= enc_groups(gs2));
}

/// What holds mid-way through reading a snapshot: the groups read so far are
/// the first groups of any snapshot encoded here, and the next group's name
/// and pairs sit right after them.
proof fn lemma_groups_at(
    gs: Seq<(Seq<char>, Seq<(Seq<char>, Seq<char>)>)>,
    prev: Seq<(Seq<char>, Seq<(Seq<char>, Seq<char>)>)>,
    whole: Seq<u8>,
    count: int,
)
    requires
        enc_groups(gs).is_prefix_of(whole),
        le64(count).is_prefix_of(whole),
        0 <= count < pow256(8),
        prev.len() < count,
        enc_groups_body(prev).is_prefix_of(whole.skip(8)),
        whole.len() < pow256(8),
    ensures
        gs.len() == count,
        prev =~~= gs.take(prev.len() as int),
        enc_group(gs[prev.len() as int]).is_prefix_of(
            whole.skip(8).skip(enc_groups_body(prev).len() as int),
        ),
        enc_str(gs[prev.len() as int].0).is_prefix_of(
            whole.skip(8).skip(enc_groups_body(prev).len() as int),
        ),
        enc_pairs(gs[prev.len() as int].1).is_prefix_of(
            whole.skip(8).skip(enc_groups_body(prev).len() as int).skip(
                enc_str(gs[prev.len() as int].0).len() as int,
            ),
        ),
{
    lemma_le_bytes_len(gs.len() as int, 8);
    lemma_prefix_parts(le64(gs.len() as int), enc_groups_body(gs), whole);
    lemma_groups_body_min(gs);
    assert(gs.len() < pow256(8));
    lemma_le64_prefix_det(gs.len() as int, count, whole);
    lemma_groups_body_prefix_det(prev, gs, whole.skip(8));
    let j = prev.len() as int;
    lemma_groups_body_split(gs, j);
    lemma_prefix_parts(enc_groups_body(gs.take(j)), enc_groups_body(gs.skip(j)), whole.skip(8));
    assert(enc_groups_body(gs.take(j)) == enc_groups_body(prev));
    let rest = whole.skip(8).skip(enc_groups_body(prev).len() as int);
    assert(gs.skip(j).len() > 0);
    assert(enc_groups_body(gs.skip(j)) =~= enc_group(gs[j]) + enc_groups_body(
        gs.skip(j).skip(1),
    ));
    lemma_prefix_parts(enc_group(gs[j]), enc_groups_body(gs.skip(j).skip(1)), rest);
    lemma_prefix_parts(enc_str(gs[j].0), enc_pairs(gs[j].1), rest);
}

/// Appends the count-prefixed wire form of the snapshot groups.
pub fn encode_groups(out: &mut Vec<u8>, gs: &Vec<(String, Vec<(String, String)>)>)
    ensures
        final(out)@ == old(out)@ + enc_groups(groups_view(gs@)),
{
    let ghost view = groups_view(gs@);
    encode_u64(out, gs.len() as u64);
    let mut i: usize = 0;
    while i < gs.len()
        invariant
            i <= gs@.len(),
            view == groups_view(gs@),
            view.len() == gs@.len(),
            out@ =~= old(out)@ + le64(gs@.len() as int) + enc_groups_body(view.take(i as int)),
        decreases gs@.len() - i,
    {
        let group = &gs[i];
        encode_string(out, group.0.as_str());
        encode_pairs(out, &group.1);
        proof {
            assert(view[i as int] == (gs@[i as int].0@, pairs_view(gs@[i as int].1@)));
            lemma_groups_body_split(view.take(i + 1), i as int);
            assert(view.take(i + 1).take(i as int) =~= view.take(i as int));
            assert(view.take(i + 1).skip(i as int) =~= seq![view[i as int]]);
            assert(enc_groups_body(seq![view[i as int]]) =~= enc_group(view[i as int])) by {
                assert(seq![view[i as int]].skip(1) =~= Seq::<
                    (Seq<char>, Seq<(Seq<char>, Seq<char>)>),
                >::empty());
                assert(enc_groups_body(
                    Seq::<(Seq<char>, Seq<(Seq<char>, Seq<char>)>)>::empty(),
                ) =~= Seq::<u8>::empty());
            }
            assert(out@ =~= old(out)@ + le64(gs@.len() as int) + enc_groups_body(
                view.take(i + 1),
            ));
        }
        i += 1;
    }
    proof {
        assert(view.take(view.len() as int) =~= view);
        assert(out@ =~= old(out)@ + enc_groups(view));
    }
}

/// Reads the count-prefixed snapshot groups at `pos`.
#[verifier::rlimit(60)]
pub fn decode_groups(bytes: &Vec<u8>, pos: usize) -> (r: Option<
    (Vec<(String, Vec<(String, String)>)>, usize),
>)
    requires
        pos <= bytes@.len(),
    ensures
        r matches Some(p) ==> {
            &&& pos <= p.1 <= bytes@.len()
            &&& bytes@.subrange(pos as int, p.1 as int) == enc_groups(groups_view(p.0@))
        },
        forall|gs: Seq<(Seq<char>, Seq<(Seq<char>, Seq<char>)>)>|
            enc_groups(gs).is_prefix_of(bytes@.skip(pos as int)) ==> (r matches Some(p)
                && groups_view(p.0@) == gs && p.1 == pos + enc_groups(gs).len()),
{
    let blen: usize = bytes.len();
    let ghost whole = bytes@.skip(pos as int);
    proof {
        lemma_pow256_64();
        assert(whole.len() == bytes@.len() - pos);
        assert(usize::MAX as int <= 0xFFFF_FFFF_FFFF_FFFF);
        assert(whole.len() < pow256(8));
    }
    match decode_u64(bytes, pos) {
        None => {
            proof {
                assert(bytes@.len() < pos + 8);
                assert forall|gs: Seq<(Seq<char>, Seq<(Seq<char>, Seq<char>)>)>|
                    !enc_groups(gs).is_prefix_of(whole) by {
                    lemma_le_bytes_len(gs.len() as int, 8);
                    if enc_groups(gs).is_prefix_of(whole) {
                        assert(whole.len() >= 8);
                    }
                }
            }
            None
        },
        Some((count64, body_start)) => {
            proof {
                lemma_le_bytes_len(count64 as int, 8);
                assert(le64(count64 as int).is_prefix_of(whole)) by {
                    assert(le64(count64 as int) =~= whole.take(8));
                }
            }
            let have: usize = blen - body_start;
            if count64 > (have / 16) as u64 {
                proof {
                    assert forall|gs: Seq<(Seq<char>, Seq<(Seq<char>, Seq<char>)>)>|
                        !enc_groups(gs).is_prefix_of(whole) by {
                        if enc_groups(gs).is_prefix_of(whole) {
                            lemma_le_bytes_len(gs.len() as int, 8);
                            lemma_prefix_parts(le64(gs.len() as int), enc_groups_body(gs), whole);
                            lemma_groups_body_min(gs);
                            lemma_le64_prefix_det(gs.len() as int, count64 as int, whole);
                            assert(whole.skip(8).len() >= enc_groups_body(gs).len());
                            assert(16 * count64 <= have);
                            assert(count64 <= have / 16) by (nonlinear_arith)
                                requires
                                    16 * count64 <= have,
                                    count64 >= 0,
                                    have >= 0,
                            ;
                        }
                    }
                }
                return None;
            }
            let count = count64 as usize;
            let mut acc: Vec<(String, Vec<(String, String)>)> = Vec::new();
            let mut cur: usize = body_start;
            let mut j: usize = 0;
            while j < count
                invariant
                    j <= count,
                    count == count64,
                    blen == bytes@.len(),
                    body_start == pos + 8,
                    body_start <= cur <= blen,
                    whole == bytes@.skip(pos as int),
                    whole.len() == bytes@.len() - pos,
                    whole.len() < pow256(8),
                    le64(count64 as int).is_prefix_of(whole),
                    acc@.len() == j,
                    bytes@.subrange(body_start as int, cur as int) == enc_groups_body(
                        groups_view(acc@),
                    ),
                decreases count - j,
            {
                let ghost prev_acc = groups_view(acc@);
                proof {
                    lemma_pow256_64();
                    assert(enc_groups_body(prev_acc).is_prefix_of(whole.skip(8))) by {
                        assert(enc_groups_body(prev_acc) =~= whole.skip(8).take(
                            cur - body_start,
                        ));
                    }
                    assert(whole.skip(8).skip(cur - body_start) =~= bytes@.skip(cur as int));
                }
                let name = match decode_string(bytes, cur) {
                    None => {
                        proof {
                            assert forall|gs: Seq<(Seq<char>, Seq<(Seq<char>, Seq<char>)>)>|
                                !enc_groups(gs).is_prefix_of(whole) by {
                                if enc_groups(gs).is_prefix_of(whole) {
                                    lemma_groups_at(gs, prev_acc, whole, count64 as int);
                                }
                            }
                        }
                        return None;
                    },
                    Some(p) => p,
                };
                let tuples = match decode_pairs(bytes, name.1) {
                    None => {
                        proof {
                            assert forall|gs: Seq<(Seq<char>, Seq<(Seq<char>, Seq<char>)>)>|
                                !enc_groups(gs).is_prefix_of(whole) by {
                                if enc_groups(gs).is_prefix_of(whole) {
                                    lemma_groups_at(gs, prev_acc, whole, count64 as int);
                                    assert(name.0@ == gs[j as int].0);
                                    assert(bytes@.skip(cur as int).skip(
                                        enc_str(gs[j as int].0).len() as int,
                                    ) =~= bytes@.skip(name.1 as int));
                                }
                            }
                        }
                        return None;
                    },
                    Some(p) => p,
                };
                let ghost name_view = name.0@;
                let ghost tuples_view = pairs_view(tuples.0@);
                let end_of_group = tuples.1;
                acc.push((name.0, tuples.0));
                proof {
                    let new_acc = groups_view(acc@);
                    assert(new_acc =~~= prev_acc.push((name_view, tuples_view)));
                    lemma_groups_body_split(new_acc, j as int);
                    assert(new_acc.take(j as int) =~= prev_acc);
                    assert(new_acc.skip(j as int) =~= seq![(name_view, tuples_view)]);
                    assert(enc_groups_body(seq![(name_view, tuples_view)]) =~= enc_group(
                        (name_view, tuples_view),
                    )) by {
                        assert(seq![(name_view, tuples_view)].skip(1) =~= Seq::<
                            (Seq<char>, Seq<(Seq<char>, Seq<char>)>),
                        >::empty());
                        assert(enc_groups_body(
                            Seq::<(Seq<char>, Seq<(Seq<char>, Seq<char>)>)>::empty(),
                        ) =~= Seq::<u8>::empty());
                    }
                    assert(bytes@.subrange(body_start as int, end_of_group as int)
                        =~= enc_groups_body(new_acc));
                }
                cur = end_of_group;
                j += 1;
            }
            proof {
                assert(bytes@.subrange(pos as int, cur as int) =~= le64(count64 as int)
                    + enc_groups_body(groups_view(acc@)));
                assert(bytes@.subrange(pos as int, cur as int) =~= enc_groups(groups_view(acc@)));
                assert forall|gs: Seq<(Seq<char>, Seq<(Seq<char>, Seq<char>)>)>|
                    enc_groups(gs).is_prefix_of(whole) implies (groups_view(acc@) == gs && cur
                    == pos + enc_groups(gs).len()) by {
                    lemma_le_bytes_len(gs.len() as int, 8);
                    lemma_prefix_parts(le64(gs.len() as int), enc_groups_body(gs), whole);
                    lemma_groups_body_min(gs);
                    lemma_le64_prefix_det(gs.len() as int, count64 as int, whole);
                    assert(enc_groups_body(groups_view(acc@)).is_prefix_of(whole.skip(8))) by {
                        assert(enc_groups_body(groups_view(acc@)) =~= whole.skip(8).take(
                            cur - body_start,
                        ));
                    }
                    lemma_groups_body_prefix_det(groups_view(acc@), gs, whole.skip(8));
                    assert(gs.take(gs.len() as int) =~= gs);
                    assert(groups_view(acc@) =~~= gs);
                }
            }
            Some((acc, cur))
        },
    }
}

/// The wire form of a reply.
pub open spec fn enc_reply(r: ReplyModel) -> Seq<u8> {
    match r {
        ReplyModel::Value { item, value } => seq![0u8] + enc_item(item) + enc_str(value),
        ReplyModel::Tuples { item, tuples } => seq![1u8] + enc_item(item) + enc_pairs(tuples),
        ReplyModel::AllTuples { tuples } => seq![2u8] + enc_groups(tuples),
        ReplyModel::Error(m) => seq![3u8] + enc_str(m),
    }
}

/// Encodes a reply for the wire.
pub fn encode_reply(r: &DaemonReply) -> (out: Vec<u8>)
    ensures
        out@ == enc_reply(r@),
{
    let mut out: Vec<u8> = Vec::new();
    match r {
        DaemonReply::Value { item, value } => {
            out.push(0);
            encode_item(&mut out, item);
            encode_string(&mut out, value.as_str());
            proof {
                assert(out@ =~= enc_reply(r@));
            }
        },
        DaemonReply::Tuples { item, tuples } => {
            out.push(1);
            encode_item(&mut out, item);
            encode_pairs(&mut out, tuples);
            proof {
                assert(out@ =~= enc_reply(r@));
            }
        },
        DaemonReply::AllTuples { tuples } => {
            out.push(2);
            encode_groups(&mut out, tuples);
            proof {
                assert(out@ =~= enc_reply(r@));
            }
        },
        DaemonReply::Error(m) => {
            out.push(3);
            encode_string(&mut out, m.as_str());
            proof {
                assert(out@ =~= enc_reply(r@));
            }
        },
    }
    out
}

/// Reads a `Value` reply; the tag byte has already been seen.
#[verifier::rlimit(60)]
fn decode_reply_value(bytes: &Vec<u8>) -> (r: Option<DaemonReply>)
    requires
        bytes@.len() >= 1,
        bytes@[0] == 0,
    ensures
        r matches Some(d) ==> enc_reply(d@).is_prefix_of(bytes@),
        forall|m: ReplyModel| enc_reply(m).is_prefix_of(bytes@) ==> (r matches Some(d) && d@ == m),
{
    match decode_item(bytes, 1) {
        None => {
            proof {
                assert forall|m: ReplyModel| !enc_reply(m).is_prefix_of(bytes@) by {
                    if enc_reply(m).is_prefix_of(bytes@) {
                        assert(enc_reply(m)[0] == bytes@[0]);
                        match m {
                            ReplyModel::Value { item, value } => {
                                lemma_prefix_parts(
                                    seq![0u8] + enc_item(item),
                                    enc_str(value),
                                    bytes@,
                                );
                                lemma_prefix_parts(seq![0u8], enc_item(item), bytes@);
                            },
                            _ => {},
                        }
                    }
                }
            }
            None
        },
        Some((item, after_item)) => {
            match decode_string(bytes, after_item) {
                None => {
                    proof {
                        assert forall|m: ReplyModel| !enc_reply(m).is_prefix_of(bytes@) by {
                            if enc_reply(m).is_prefix_of(bytes@) {
                                assert(enc_reply(m)[0] == bytes@[0]);
                                match m {
                                    ReplyModel::Value { item: it2, value } => {
                                        lemma_prefix_parts(
                                            seq![0u8] + enc_item(it2),
                                            enc_str(value),
                                            bytes@,
                                        );
                                        lemma_prefix_parts(seq![0u8], enc_item(it2), bytes@);
                                        assert(bytes@.skip(1).skip(2) =~= bytes@.skip(3));
                                        assert(enc_str(value).is_prefix_of(bytes@.skip(3)));
                                    },
                                    _ => {},
                                }
                            }
                        }
                    }
                    None
                },
                Some((value, end)) => {
                    let d = DaemonReply::Value { item, value };
                    proof {
                        assert(seq![0u8].is_prefix_of(bytes@)) by {
                            assert(seq![0u8] =~= bytes@.take(1));
                        }
                        assert(enc_item(item).is_prefix_of(bytes@.skip(1))) by {
                            assert(enc_item(item) =~= bytes@.skip(1).take(2));
                        }
                        lemma_parts_prefix(seq![0u8], enc_item(item), bytes@);
                        assert(enc_str(d@->Value_value).is_prefix_of(bytes@.skip(3))) by {
                            assert(bytes@.subrange(3, end as int) =~= bytes@.skip(3).take(
                                end - 3,
                            ));
                        }
                        lemma_parts_prefix(
                            seq![0u8] + enc_item(item),
                            enc_str(d@->Value_value),
                            bytes@,
                        );
                        assert(enc_reply(d@).is_prefix_of(bytes@));
                        assert forall|m: ReplyModel|
                            enc_reply(m).is_prefix_of(bytes@) implies m == d@ by {
                            assert(enc_reply(m)[0] == bytes@[0]);
                            match m {
                                ReplyModel::Value { item: it2, value: v2 } => {
                                    lemma_prefix_parts(
                                        seq![0u8] + enc_item(it2),
                                        enc_str(v2),
                                        bytes@,
                                    );
                                    lemma_prefix_parts(seq![0u8], enc_item(it2), bytes@);
                                    assert(it2 == item);
                                    assert(bytes@.skip(1).skip(2) =~= bytes@.skip(3));
                                    assert(enc_str(v2).is_prefix_of(bytes@.skip(3)));
                                    assert(v2 == value@);
                                },
                                _ => {},
                            }
                        }
                    }
                    Some(d)
                },
            }
        },
    }
}

/// Reads a `Tuples` reply; the tag byte has already been seen.
#[verifier::rlimit(60)]
fn decode_reply_tuples(bytes: &Vec<u8>) -> (r: Option<DaemonReply>)
    requires
        bytes@.len() >= 1,
        bytes@[0] == 1,
    ensures
        r matches Some(d) ==> enc_reply(d@).is_prefix_of(bytes@),
        forall|m: ReplyModel| enc_reply(m).is_prefix_of(bytes@) ==> (r matches Some(d) && d@ == m),
{
    let blen: usize = bytes.len();
    proof {
        lemma_pow256_64();
        assert(usize::MAX as int <= 0xFFFF_FFFF_FFFF_FFFF);
        assert(blen == bytes@.len());
        assert(bytes@.len() < pow256(8));
    }
    match decode_item(bytes, 1) {
        None => {
            proof {
                assert forall|m: ReplyModel| !enc_reply(m).is_prefix_of(bytes@) by {
                    if enc_reply(m).is_prefix_of(bytes@) {
                        assert(enc_reply(m)[0] == bytes@[0]);
                        match m {
                            ReplyModel::Tuples { item, tuples } => {
                                lemma_prefix_parts(
                                    seq![1u8] + enc_item(item),
                                    enc_pairs(tuples),
                                    bytes@,
                                );
                                lemma_prefix_parts(seq![1u8], enc_item(item), bytes@);
                            },
                            _ => {},
                        }
                    }
                }
            }
            None
        },
        Some((item, after_item)) => {
            match decode_pairs(bytes, after_item) {
                None => {
                    proof {
                        assert forall|m: ReplyModel| !enc_reply(m).is_prefix_of(bytes@) by {
                            if enc_reply(m).is_prefix_of(bytes@) {
                                assert(enc_reply(m)[0] == bytes@[0]);
                                match m {
                                    ReplyModel::Tuples { item: it2, tuples } => {
                                        lemma_prefix_parts(
                                            seq![1u8] + enc_item(it2),
                                            enc_pairs(tuples),
                                            bytes@,
                                        );
                                        lemma_prefix_parts(seq![1u8], enc_item(it2), bytes@);
                                        assert(bytes@.skip(1).skip(2) =~= bytes@.skip(3));
                                        assert(enc_pairs(tuples).is_prefix_of(bytes@.skip(3)));
                                    },
                                    _ => {},
                                }
                            }
                        }
                    }
                    None
                },
                Some((tuples, end)) => {
                    let d = DaemonReply::Tuples { item, tuples };
                    proof {
                        assert(seq![1u8].is_prefix_of(bytes@)) by {
                            assert(seq![1u8] =~= bytes@.take(1));
                        }
                        assert(enc_item(item).is_prefix_of(bytes@.skip(1))) by {
                            assert(enc_item(item) =~= bytes@.skip(1).take(2));
                        }
                        lemma_parts_prefix(seq![1u8], enc_item(item), bytes@);
                        assert(enc_pairs(d@->Tuples_tuples).is_prefix_of(bytes@.skip(3))) by {
                            assert(bytes@.subrange(3, end as int) =~= bytes@.skip(3).take(
                                end - 3,
                            ));
                        }
                        lemma_parts_prefix(
                            seq![1u8] + enc_item(item),
                            enc_pairs(d@->Tuples_tuples),
                            bytes@,
                        );
                        assert(enc_reply(d@).is_prefix_of(bytes@));
                        assert forall|m: ReplyModel|
                            enc_reply(m).is_prefix_of(bytes@) implies m == d@ by {
                            assert(enc_reply(m)[0] == bytes@[0]);
                            match m {
                                ReplyModel::Tuples { item: it2, tuples: t2 } => {
                                    lemma_prefix_parts(
                                        seq![1u8] + enc_item(it2),
                                        enc_pairs(t2),
                                        bytes@,
                                    );
                                    lemma_prefix_parts(seq![1u8], enc_item(it2), bytes@);
                                    assert(it2 == item);
                                    assert(bytes@.skip(1).skip(2) =~= bytes@.skip(3));
                                    assert(enc_pairs(t2).is_prefix_of(bytes@.skip(3)));
                                    lemma_enc_pairs_prefix_det(
                                        t2,
                                        d@->Tuples_tuples,
                                        bytes@.skip(3),
                                    );
                                },
                                _ => {},
                            }
                        }
                    }
                    Some(d)
                },
            }
        },
    }
}

/// Reads an `AllTuples` reply; the tag byte has already been seen.
#[verifier::rlimit(60)]
fn decode_reply_all(bytes: &Vec<u8>) -> (r: Option<DaemonReply>)
    requires
        bytes@.len() >= 1,
        bytes@[0] == 2,
    ensures
        r matches Some(d) ==> enc_reply(d@).is_prefix_of(bytes@),
        forall|m: ReplyModel| enc_reply(m).is_prefix_of(bytes@) ==> (r matches Some(d) && d@ == m),
{
    let blen: usize = bytes.len();
    proof {
        lemma_pow256_64();
        assert(usize::MAX as int <= 0xFFFF_FFFF_FFFF_FFFF);
        assert(blen == bytes@.len());
        assert(bytes@.len() < pow256(8));
    }
    match decode_groups(bytes, 1) {
        None => {
            proof {
                assert forall|m: ReplyModel| !enc_reply(m).is_prefix_of(bytes@) by {
                    if enc_reply(m).is_prefix_of(bytes@) {
                        assert(enc_reply(m)[0] == bytes@[0]);
                        match m {
                            ReplyModel::AllTuples { tuples } => {
                                lemma_prefix_parts(seq![2u8], enc_groups(tuples), bytes@);
                            },
                            _ => {},
                        }
                    }
                }
            }
            None
        },
        Some((tuples, end)) => {
            let d = DaemonReply::AllTuples { tuples };
            proof {
                assert(seq![2u8].is_prefix_of(bytes@)) by {
                    assert(seq![2u8] =~= bytes@.take(1));
                }
                assert(enc_groups(d@->AllTuples_tuples).is_prefix_of(bytes@.skip(1))) by {
                    assert(bytes@.subrange(1, end as int) =~= bytes@.skip(1).take(end - 1));
                }
                lemma_parts_prefix(seq![2u8], enc_groups(d@->AllTuples_tuples), bytes@);
                assert(enc_reply(d@).is_prefix_of(bytes@));
                assert forall|m: ReplyModel|
                    enc_reply(m).is_prefix_of(bytes@) implies m == d@ by {
                    assert(enc_reply(m)[0] == bytes@[0]);
                    match m {
                        ReplyModel::AllTuples { tuples: t2 } => {
                            lemma_prefix_parts(seq![2u8], enc_groups(t2), bytes@);
                            lemma_enc_groups_prefix_det(
                                t2,
                                d@->AllTuples_tuples,
                                bytes@.skip(1),
                            );
                        },
                        _ => {},
                    }
                }
            }
            Some(d)
        },
    }
}

/// Decodes the reply that the start of `bytes` holds; trailing bytes are
/// ignored, as one socket read may carry padding after the reply.
pub fn decode_reply(bytes: &Vec<u8>) -> (r: Option<DaemonReply>)
    ensures
        r matches Some(d) ==> enc_reply(d@).is_prefix_of(bytes@),
        forall|m: ReplyModel| enc_reply(m).is_prefix_of(bytes@) ==> (r matches Some(d) && d@ == m),
{
    if bytes.len() == 0 {
        proof {
            assert forall|m: ReplyModel| !enc_reply(m).is_prefix_of(bytes@) by {
                assert(enc_reply(m).len() >= 1);
            }
        }
        return None;
    }
    let tag = bytes[0];
    if tag == 0 {
        decode_reply_value(bytes)
    } else if tag == 1 {
        decode_reply_tuples(bytes)
    } else if tag == 2 {
        decode_reply_all(bytes)
    } else if tag == 3 {
        match decode_string(bytes, 1) {
            None => {
                proof {
                    assert forall|m: ReplyModel| !enc_reply(m).is_prefix_of(bytes@) by {
                        if enc_reply(m).is_prefix_of(bytes@) {
                            assert(enc_reply(m)[0] == bytes@[0]);
                            match m {
                                ReplyModel::Error(msg) => {
                                    lemma_prefix_parts(seq![3u8], enc_str(msg), bytes@);
                                },
                                _ => {},
                            }
                        }
                    }
                }
                None
            },
            Some((msg, end)) => {
                let d = DaemonReply::Error(msg);
                proof {
                    lemma_pow256_64();
                    assert(usize::MAX as int <= 0xFFFF_FFFF_FFFF_FFFF);
                    assert(seq![3u8].is_prefix_of(bytes@)) by {
                        assert(seq![3u8] =~= bytes@.take(1));
                    }
                    assert(enc_str(d@->Error_0).is_prefix_of(bytes@.skip(1))) by {
                        assert(bytes@.subrange(1, end as int) =~= bytes@.skip(1).take(end - 1));
                    }
                    lemma_parts_prefix(seq![3u8], enc_str(d@->Error_0), bytes@);
                    assert(enc_reply(d@).is_prefix_of(bytes@));
                    assert forall|m: ReplyModel|
                        enc_reply(m).is_prefix_of(bytes@) implies m == d@ by {
                        assert(enc_reply(m)[0] == bytes@[0]);
                        match m {
                            ReplyModel::Error(m2) => {
                                lemma_prefix_parts(seq![3u8], enc_str(m2), bytes@);
                                lemma_enc_str_prefix_det(m2, d@->Error_0, bytes@.skip(1));
                            },
                            _ => {},
                        }
                    }
                }
                Some(d)
            },
        }
    } else {
        proof {
            assert forall|m: ReplyModel| !enc_reply(m).is_prefix_of(bytes@) by {
                if enc_reply(m).is_prefix_of(bytes@) {
                    assert(enc_reply(m)[0] == bytes@[0]);
                }
            }
        }
        None
    }
}

/// Law: encoding a request and decoding the bytes gives the request back
/// unchanged, for every constructible request.
pub fn message_round_trip(m: &DaemonMessage) -> (r: DaemonMessage)
    ensures
        r@ == m@,
{
    let encoded = encode_message(m);
    match decode_message(&encoded) {
        Some(d) => d,
        None => {
            proof {
                assert(enc_msg(m@).is_prefix_of(encoded@));
                assert(false);
            }
            m.clone()
        },
    }
}

/// Law: encoding a reply and decoding the bytes gives the reply back
/// unchanged, for every constructible reply.
pub fn reply_round_trip(r: &DaemonReply) -> (d: DaemonReply)
    ensures
        d@ == r@,
{
    let encoded = encode_reply(r);
    match decode_reply(&encoded) {
        Some(d) => d,
        None => {
            proof {
                assert(enc_reply(r@).is_prefix_of(encoded@));
                assert(false);
            }
            r.clone()
        },
    }
}

} // verus!

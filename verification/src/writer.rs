//! The encoder: an append-only byte accumulator with typed write
//! operations, each of which appends exactly the encoding defined in
//! [`crate::encoding`].

use vstd::prelude::*;
use vstd::utf8::encode_utf8;

use crate::encoding::bytes_enc;
use crate::encoding::lemma_string_map_take_succ;
use crate::encoding::lemma_string_map_total_mono;
use crate::encoding::lemma_string_map_total_nonneg;
use crate::encoding::lemma_string_seq_take_succ;
use crate::encoding::lemma_string_seq_total_mono;
use crate::encoding::lemma_string_seq_total_nonneg;
use crate::encoding::mpint_body;
use crate::encoding::mpint_enc;
use crate::encoding::string_enc;
use crate::encoding::string_map_cat;
use crate::encoding::string_map_enc;
use crate::encoding::string_map_total;
use crate::encoding::string_seq_cat;
use crate::encoding::string_seq_enc;
use crate::encoding::string_seq_total;
use crate::encoding::u32_be;
use crate::encoding::u64_be;
use crate::pubkey::pub_key_enc;
use crate::pubkey::pub_key_fits;
use crate::pubkey::PublicKey;
use crate::pubkey::PublicKeyKind;
use crate::strmap::StringMap;

verus! {

/// Encodes values into an OpenSSH-compatible byte sequence.
///
/// The accumulator is append-only: every write operation appends the wire
/// encoding of its argument and changes nothing that was written before.
pub struct Writer {
    inner: Vec<u8>,
}

impl View for Writer {
    type V = Seq<u8>;

    closed spec fn view(&self) -> Seq<u8> {
        self.inner@
    }
}

impl Writer {
    /// Creates an empty encoder.
    pub fn new() -> (w: Writer)
        ensures
            w@ == Seq::<u8>::empty(),
    {
        Writer { inner: Vec::new() }
    }

    /// Appends a `u32` as 4 big-endian bytes.
    pub fn write_u32(&mut self, val: u32)
        ensures
            final (self)@ == old(self)@ + u32_be(val),
    {
        proof {
            assert(((val >> 24) & 0xff) < 256 && ((val >> 16) & 0xff) < 256 && ((val >> 8) & 0xff)
                < 256 && (val & 0xff) < 256) by (bit_vector);
        }
        self.inner.push(((val >> 24) & 0xff) as u8);
        self.inner.push(((val >> 16) & 0xff) as u8);
        self.inner.push(((val >> 8) & 0xff) as u8);
        self.inner.push((val & 0xff) as u8);
        proof {
            assert(self@ =~= old(self)@ + u32_be(val));
        }
    }

    /// Appends a `u64` as 8 big-endian bytes.
    pub fn write_u64(&mut self, val: u64)
        ensures
            final (self)@ == old(self)@ + u64_be(val),
    {
        proof {
            assert(((val >> 56) & 0xff) < 256 && ((val >> 48) & 0xff) < 256 && ((val >> 40) & 0xff)
                < 256 && ((val >> 32) & 0xff) < 256 && ((val >> 24) & 0xff) < 256 && ((val >> 16)
                & 0xff) < 256 && ((val >> 8) & 0xff) < 256 && (val & 0xff) < 256) by (bit_vector);
        }
        self.inner.push(((val >> 56) & 0xff) as u8);
        self.inner.push(((val >> 48) & 0xff) as u8);
        self.inner.push(((val >> 40) & 0xff) as u8);
        self.inner.push(((val >> 32) & 0xff) as u8);
        self.inner.push(((val >> 24) & 0xff) as u8);
        self.inner.push(((val >> 16) & 0xff) as u8);
        self.inner.push(((val >> 8) & 0xff) as u8);
        self.inner.push((val & 0xff) as u8);
        proof {
            assert(self@ =~= old(self)@ + u64_be(val));
        }
    }

    /// Appends a byte block as its 4-byte big-endian length, then the bytes
    /// verbatim. The length must fit the 4-byte field.
    pub fn write_bytes(&mut self, val: &[u8])
        requires
            val@.len() <= u32::MAX,
        ensures
            final (self)@ == old(self)@ + bytes_enc(val@),
    {
        let size: u32 = val.len() as u32;
        self.write_u32(size);
        self.inner.extend_from_slice(val);
        proof {
            assert(self@ =~= old(self)@ + bytes_enc(val@));
        }
    }

    /// Appends a `string`: the length-prefixed UTF-8 bytes of `val`.
    pub fn write_string(&mut self, val: &str)
        requires
            encode_utf8(val@).len() <= u32::MAX,
        ensures
            final (self)@ == old(self)@ + string_enc(val@),
    {
        self.write_bytes(val.as_bytes());
    }

    /// Appends an `mpint`: when the top bit of the first magnitude byte is
    /// set, a zero byte is prepended so the positive magnitude is not
    /// misread as negative (RFC 4251, section 5); the result is written
    /// length-prefixed.
    pub fn write_mpint(&mut self, val: &[u8])
        requires
            mpint_body(val@).len() <= u32::MAX,
        ensures
            final (self)@ == old(self)@ + mpint_enc(val@),
    {
        let mut bytes: Vec<u8> = Vec::new();
        if val.len() > 0 && val[0] >= 0x80 {
            bytes.push(0);
        }
        bytes.extend_from_slice(val);
        proof {
            assert(bytes@ =~= mpint_body(val@));
        }
        self.write_bytes(bytes.as_slice());
    }

    /// Appends a string sequence: one outer 4-byte field holding the
    /// combined size of the per-item prefixes and payloads, then each item
    /// as a `string`, in input order.
    pub fn write_string_vec(&mut self, vec: &[String])
        requires
            string_seq_total(vec.deep_view()) <= u32::MAX,
        ensures
            final (self)@ == old(self)@ + string_seq_enc(vec.deep_view()),
    {
        let ghost items = vec.deep_view();
        let n = vec.len();
        let mut total: usize = 0;
        let mut i: usize = 0;
        while i < n
            invariant
                items == vec.deep_view(),
                n == vec@.len(),
                0 <= i <= n,
                string_seq_total(items) <= u32::MAX,
                total == string_seq_total(items.take(i as int)),
            decreases n - i,
        {
            proof {
                lemma_string_seq_take_succ(items, i as int);
                lemma_string_seq_total_mono(items, i + 1);
                assert(items[i as int] == vec@[i as int]@);
            }
            total = total + 4 + vec[i].as_str().len();
            i = i + 1;
        }
        proof {
            assert(items.take(n as int) =~= items);
        }
        self.write_u32(total as u32);
        let mut j: usize = 0;
        while j < n
            invariant
                items == vec.deep_view(),
                n == vec@.len(),
                0 <= j <= n,
                string_seq_total(items) <= u32::MAX,
                self@ == old(self)@ + u32_be(string_seq_total(items) as u32) + string_seq_cat(
                    items.take(j as int),
                ),
            decreases n - j,
        {
            proof {
                lemma_string_seq_take_succ(items, j as int);
                lemma_string_seq_total_mono(items, j + 1);
                lemma_string_seq_total_nonneg(items.take(j as int));
                assert(items[j as int] == vec@[j as int]@);
            }
            self.write_string(vec[j].as_str());
            proof {
                assert(self@ =~= old(self)@ + u32_be(string_seq_total(items) as u32)
                    + string_seq_cat(items.take(j + 1)));
            }
            j = j + 1;
        }
        proof {
            assert(items.take(n as int) =~= items);
            assert(self@ =~= old(self)@ + string_seq_enc(items));
        }
    }

    /// Appends a string map: one outer 4-byte combined-length field, then
    /// per entry the key as a `string` followed by a bare zero field for an
    /// empty value, or the value's encoded size and the value itself.
    /// Entries are written in the map's insertion order.
    pub fn write_string_map(&mut self, map: &StringMap)
        requires
            string_map_total(map@) <= u32::MAX,
        ensures
            final (self)@ == old(self)@ + string_map_enc(map@),
    {
        let ghost entries = map@;
        let n = map.len();
        let mut total: usize = 0;
        let mut i: usize = 0;
        while i < n
            invariant
                entries == map@,
                n == map@.len(),
                0 <= i <= n,
                string_map_total(entries) <= u32::MAX,
                total == string_map_total(entries.take(i as int)),
            decreases n - i,
        {
            proof {
                lemma_string_map_take_succ(entries, i as int);
                lemma_string_map_total_mono(entries, i + 1);
            }
            let e = map.entry_at(i);
            let extra: usize = if e.1.as_str().is_empty() {
                0
            } else {
                4
            };
            total = total + 8 + e.0.as_str().len() + e.1.as_str().len() + extra;
            i = i + 1;
        }
        proof {
            assert(entries.take(n as int) =~= entries);
        }
        self.write_u32(total as u32);
        let mut j: usize = 0;
        while j < n
            invariant
                entries == map@,
                n == map@.len(),
                0 <= j <= n,
                string_map_total(entries) <= u32::MAX,
                self@ == old(self)@ + u32_be(string_map_total(entries) as u32) + string_map_cat(
                    entries.take(j as int),
                ),
            decreases n - j,
        {
            proof {
                lemma_string_map_take_succ(entries, j as int);
                lemma_string_map_total_mono(entries, j + 1);
                lemma_string_map_total_nonneg(entries.take(j as int));
            }
            let e = map.entry_at(j);
            self.write_string(e.0.as_str());
            if e.1.as_str().is_empty() {
                self.write_u32(0);
            } else {
                let marker: usize = e.1.as_str().len() + 4;
                self.write_u32(marker as u32);
                self.write_string(e.1.as_str());
            }
            proof {
                assert(self@ =~= old(self)@ + u32_be(string_map_total(entries) as u32)
                    + string_map_cat(entries.take(j + 1)));
            }
            j = j + 1;
        }
        proof {
            assert(entries.take(n as int) =~= entries);
            assert(self@ =~= old(self)@ + string_map_enc(entries));
        }
    }

    /// Appends a public-key record with no outer envelope: the curve
    /// identifier then the point for an EC key, `n` then `e` verbatim for
    /// an RSA key, the raw key bytes for an Ed25519 key.
    pub fn write_pub_key(&mut self, key: &PublicKey)
        requires
            pub_key_fits(*key),
        ensures
            final (self)@ == old(self)@ + pub_key_enc(*key),
    {
        match &key.kind {
            PublicKeyKind::Ecdsa(k) => {
                self.write_string(k.curve.as_str());
                self.write_bytes(k.key.as_slice());
            },
            PublicKeyKind::Rsa(k) => {
                self.write_bytes(k.n.as_slice());
                self.write_bytes(k.e.as_slice());
            },
            PublicKeyKind::Ed25519(k) => {
                self.write_bytes(k.key.as_slice());
            },
        }
        proof {
            assert(self@ =~= old(self)@ + pub_key_enc(*key));
        }
    }

    /// Consumes the encoder and hands over the accumulated bytes, exactly
    /// as written and in write order.
    pub fn into_bytes(self) -> (r: Vec<u8>)
        ensures
            r@ == self@,
    {
        self.inner
    }

    /// Lends a read-only view of the bytes written so far, exactly as
    /// written and in write order. Reading does not change the encoder, so
    /// repeated calls without intervening writes yield the same bytes.
    pub fn as_bytes(&self) -> (r: &[u8])
        ensures
            r@ == self@,
    {
        self.inner.as_slice()
    }
}

impl Default for Writer {
    /// The default encoder is empty, like [`Writer::new`].
    fn default() -> (w: Writer)
        ensures
            w@ == Seq::<u8>::empty(),
    {
        Writer::new()
    }
}

} // verus!

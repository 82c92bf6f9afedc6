//! Specification of the wire format: what each write operation appends.
//!
//! Every encoder method of [`crate::writer::Writer`] promises in its
//! `ensures` clause that it appends exactly one of the byte sequences
//! defined here.

use vstd::prelude::*;
use vstd::utf8::encode_utf8;

verus! {

/// The four bytes of a 32-bit value, most significant first.
pub open spec fn u32_be(v: u32) -> Seq<u8> {
    seq![
        ((v >> 24) & 0xff) as u8,
        ((v >> 16) & 0xff) as u8,
        ((v >> 8) & 0xff) as u8,
        (v & 0xff) as u8,
    ]
}

/// The eight bytes of a 64-bit value, most significant first.
pub open spec fn u64_be(v: u64) -> Seq<u8> {
    seq![
        ((v >> 56) & 0xff) as u8,
        ((v >> 48) & 0xff) as u8,
        ((v >> 40) & 0xff) as u8,
        ((v >> 32) & 0xff) as u8,
        ((v >> 24) & 0xff) as u8,
        ((v >> 16) & 0xff) as u8,
        ((v >> 8) & 0xff) as u8,
        (v & 0xff) as u8,
    ]
}

/// Law: the four bytes of [`u32_be`] are the base-256 digits of the value,
/// most significant first, so a big-endian reader recovers the value.
pub proof fn lemma_u32_be_value(v: u32)
    ensures
        u32_be(v)[0] * 0x1000000 + u32_be(v)[1] * 0x10000 + u32_be(v)[2] * 0x100 + u32_be(v)[3]
            == v,
{
    assert(((v >> 24) & 0xff) < 256 && ((v >> 16) & 0xff) < 256 && ((v >> 8) & 0xff) < 256 && (v
        & 0xff) < 256) by (bit_vector);
    assert(((v >> 24) & 0xff) * 0x1000000 + ((v >> 16) & 0xff) * 0x10000 + ((v >> 8) & 0xff)
        * 0x100 + (v & 0xff) == v) by (bit_vector);
}

/// Law: the eight bytes of [`u64_be`] are the base-256 digits of the value,
/// most significant first, so a big-endian reader recovers the value.
pub proof fn lemma_u64_be_value(v: u64)
    ensures
        u64_be(v)[0] * 0x100000000000000 + u64_be(v)[1] * 0x1000000000000 + u64_be(v)[2]
            * 0x10000000000 + u64_be(v)[3] * 0x100000000 + u64_be(v)[4] * 0x1000000 + u64_be(v)[5]
            * 0x10000 + u64_be(v)[6] * 0x100 + u64_be(v)[7] == v,
{
    assert(((v >> 56) & 0xff) < 256 && ((v >> 48) & 0xff) < 256 && ((v >> 40) & 0xff) < 256 && ((v
        >> 32) & 0xff) < 256 && ((v >> 24) & 0xff) < 256 && ((v >> 16) & 0xff) < 256 && ((v >> 8)
        & 0xff) < 256 && (v & 0xff) < 256) by (bit_vector);
    assert(((v >> 56) & 0xff) * 0x100000000000000 + ((v >> 48) & 0xff) * 0x1000000000000 + ((v
        >> 40) & 0xff) * 0x10000000000 + ((v >> 32) & 0xff) * 0x100000000 + ((v >> 24) & 0xff)
        * 0x1000000 + ((v >> 16) & 0xff) * 0x10000 + ((v >> 8) & 0xff) * 0x100 + (v & 0xff) == v)
        by (bit_vector);
}

/// RFC 4251 `byte[]`: a 4-byte big-endian length, then the bytes verbatim.
pub open spec fn bytes_enc(data: Seq<u8>) -> Seq<u8> {
    u32_be(data.len() as u32) + data
}

/// RFC 4251 `string`: the length-prefixed UTF-8 bytes of the text.
pub open spec fn string_enc(s: Seq<char>) -> Seq<u8> {
    bytes_enc(encode_utf8(s))
}

/// Body of an `mpint`: a zero byte is prepended when the top bit of the
/// first byte is set, so that a positive magnitude is not misread as a
/// negative two's-complement number (RFC 4251, section 5).
pub open spec fn mpint_body(data: Seq<u8>) -> Seq<u8> {
    if data.len() > 0 && data[0] >= 0x80 {
        seq![0u8] + data
    } else {
        data
    }
}

/// RFC 4251 `mpint`: the length-prefixed, sign-canonicalized magnitude.
pub open spec fn mpint_enc(data: Seq<u8>) -> Seq<u8> {
    bytes_enc(mpint_body(data))
}

/// Combined byte count of a run of encoded strings: a 4-byte length prefix
/// plus the UTF-8 payload for each item.
pub open spec fn string_seq_total(items: Seq<Seq<char>>) -> int
    decreases items.len(),
{
    if items.len() == 0 {
        0
    } else {
        string_seq_total(items.drop_last()) + 4 + encode_utf8(items.last()).len()
    }
}

/// The concatenated encodings of a run of strings, in order.
pub open spec fn string_seq_cat(items: Seq<Seq<char>>) -> Seq<u8>
    decreases items.len(),
{
    if items.len() == 0 {
        Seq::<u8>::empty()
    } else {
        string_seq_cat(items.drop_last()) + string_enc(items.last())
    }
}

/// String-sequence envelope: one outer 4-byte combined-length field, then
/// each item as a `string`.
pub open spec fn string_seq_enc(items: Seq<Seq<char>>) -> Seq<u8> {
    u32_be(string_seq_total(items) as u32) + string_seq_cat(items)
}

/// The value marker of one map entry: a bare zero field for an empty value,
/// otherwise the value's own encoded size (payload plus its prefix) followed
/// by the value as a `string`.
pub open spec fn map_value_marker(v: Seq<char>) -> Seq<u8> {
    if v.len() == 0 {
        u32_be(0)
    } else {
        u32_be((encode_utf8(v).len() + 4) as u32) + string_enc(v)
    }
}

/// One map entry on the wire: the key as a `string`, then the value marker.
pub open spec fn map_entry_enc(k: Seq<char>, v: Seq<char>) -> Seq<u8> {
    string_enc(k) + map_value_marker(v)
}

/// Combined byte count of the encoded map entries.
pub open spec fn string_map_total(entries: Seq<(Seq<char>, Seq<char>)>) -> int
    decreases entries.len(),
{
    if entries.len() == 0 {
        0
    } else {
        string_map_total(entries.drop_last()) + 8
            + encode_utf8(entries.last().0).len()
            + encode_utf8(entries.last().1).len()
            + if entries.last().1.len() == 0 { 0int } else { 4int }
    }
}

/// The concatenated entry encodings, in order.
pub open spec fn string_map_cat(entries: Seq<(Seq<char>, Seq<char>)>) -> Seq<u8>
    decreases entries.len(),
{
    if entries.len() == 0 {
        Seq::<u8>::empty()
    } else {
        string_map_cat(entries.drop_last()) + map_entry_enc(entries.last().0, entries.last().1)
    }
}

/// String-map envelope: one outer 4-byte combined-length field, then each
/// entry as in [`map_entry_enc`].
pub open spec fn string_map_enc(entries: Seq<(Seq<char>, Seq<char>)>) -> Seq<u8> {
    u32_be(string_map_total(entries) as u32) + string_map_cat(entries)
}

/// Law: a length-prefixed block is exactly 4 bytes longer than its data; the
/// first four bytes are the big-endian encoding of the data length and the
/// rest is the data verbatim.
pub proof fn lemma_bytes_enc_shape(data: Seq<u8>)
    requires
        data.len() <= u32::MAX,
    ensures
        bytes_enc(data).len() == 4 + data.len(),
        bytes_enc(data).subrange(0, 4) == u32_be(data.len() as u32),
        bytes_enc(data).skip(4) == data,
{
    assert(bytes_enc(data).subrange(0, 4) =~= u32_be(data.len() as u32));
    assert(bytes_enc(data).skip(4) =~= data);
}

/// Law: when the top bit of the first magnitude byte is set, the `mpint`
/// encoding carries a length field of one more than the magnitude length,
/// then a zero byte, then the magnitude verbatim; otherwise it coincides
/// with the plain length-prefixed encoding of the magnitude.
pub proof fn lemma_mpint_enc_shape(data: Seq<u8>)
    requires
        data.len() + 1 <= u32::MAX,
    ensures
        data.len() > 0 && data[0] >= 0x80 ==> {
            &&& mpint_enc(data).len() == 5 + data.len()
            &&& mpint_enc(data).subrange(0, 4) == u32_be((data.len() + 1) as u32)
            &&& mpint_enc(data)[4] == 0u8
            &&& mpint_enc(data).skip(5) == data
        },
        !(data.len() > 0 && data[0] >= 0x80) ==> mpint_enc(data) == bytes_enc(data),
{
    if data.len() > 0 && data[0] >= 0x80 {
        let body = seq![0u8] + data;
        lemma_bytes_enc_shape(body);
        assert(mpint_enc(data).subrange(0, 4) =~= u32_be((data.len() + 1) as u32));
        assert(mpint_enc(data).skip(5) =~= data);
    }
}

/// Step law for the string-sequence accumulators: taking one more item adds
/// that item's length contribution and its encoding.
pub proof fn lemma_string_seq_take_succ(items: Seq<Seq<char>>, i: int)
    requires
        0 <= i < items.len(),
    ensures
        string_seq_total(items.take(i + 1)) == string_seq_total(items.take(i)) + 4
            + encode_utf8(items[i]).len(),
        string_seq_cat(items.take(i + 1)) == string_seq_cat(items.take(i)) + string_enc(items[i]),
{
    assert(items.take(i + 1).drop_last() =~= items.take(i));
}

/// The combined length of a string sequence is never negative.
pub proof fn lemma_string_seq_total_nonneg(items: Seq<Seq<char>>)
    ensures
        string_seq_total(items) >= 0,
    decreases items.len(),
{
    if items.len() > 0 {
        lemma_string_seq_total_nonneg(items.drop_last());
    }
}

/// A prefix of a string sequence never contributes more than the whole.
pub proof fn lemma_string_seq_total_mono(items: Seq<Seq<char>>, i: int)
    requires
        0 <= i <= items.len(),
    ensures
        string_seq_total(items.take(i)) <= string_seq_total(items),
    decreases items.len() - i,
{
    if i == items.len() {
        assert(items.take(i) =~= items);
    } else {
        lemma_string_seq_take_succ(items, i);
        lemma_string_seq_total_mono(items, i + 1);
    }
}

/// Step law for the string-map accumulators: taking one more entry adds that
/// entry's length contribution and its encoding.
pub proof fn lemma_string_map_take_succ(entries: Seq<(Seq<char>, Seq<char>)>, i: int)
    requires
        0 <= i < entries.len(),
    ensures
        string_map_total(entries.take(i + 1)) == string_map_total(entries.take(i)) + 8
            + encode_utf8(entries[i].0).len() + encode_utf8(entries[i].1).len()
            + if entries[i].1.len() == 0 { 0int } else { 4int },
        string_map_cat(entries.take(i + 1)) == string_map_cat(entries.take(i))
            + map_entry_enc(entries[i].0, entries[i].1),
{
    assert(entries.take(i + 1).drop_last() =~= entries.take(i));
}

/// The combined length of a string map is never negative.
pub proof fn lemma_string_map_total_nonneg(entries: Seq<(Seq<char>, Seq<char>)>)
    ensures
        string_map_total(entries) >= 0,
    decreases entries.len(),
{
    if entries.len() > 0 {
        lemma_string_map_total_nonneg(entries.drop_last());
    }
}

/// A prefix of the entries never contributes more than the whole map.
pub proof fn lemma_string_map_total_mono(entries: Seq<(Seq<char>, Seq<char>)>, i: int)
    requires
        0 <= i <= entries.len(),
    ensures
        string_map_total(entries.take(i)) <= string_map_total(entries),
    decreases entries.len() - i,
{
    if i == entries.len() {
        assert(entries.take(i) =~= entries);
    } else {
        lemma_string_map_take_succ(entries, i);
        lemma_string_map_total_mono(entries, i + 1);
    }
}

/// Concatenation of a run of chunks, in order.
pub open spec fn cat_all(chunks: Seq<Seq<u8>>) -> Seq<u8>
    decreases chunks.len(),
{
    if chunks.len() == 0 {
        Seq::<u8>::empty()
    } else {
        cat_all(chunks.drop_last()) + chunks.last()
    }
}

/// Sum of the lengths of a run of chunks.
pub open spec fn len_sum(chunks: Seq<Seq<u8>>) -> int
    decreases chunks.len(),
{
    if chunks.len() == 0 {
        0
    } else {
        len_sum(chunks.drop_last()) + chunks.last().len()
    }
}

/// Law: writes are additive and pad nothing. Every encoder method appends
/// its encoding to the accumulator, so after any run of writes the
/// accumulator holds the concatenation of the individual encodings, and its
/// length is the sum of the individual lengths.
pub proof fn lemma_cat_all_len(chunks: Seq<Seq<u8>>)
    ensures
        cat_all(chunks).len() == len_sum(chunks),
    decreases chunks.len(),
{
    if chunks.len() > 0 {
        lemma_cat_all_len(chunks.drop_last());
    }
}

} // verus!

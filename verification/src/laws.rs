//! What holds of every container that the encoder produces, when the decoder
//! reads it.
//!
//! An encoder's bytes are `stream_bytes` of its parameters and entries, by
//! its invariant. A decoder opens with what `open_container` says of the
//! bytes, and reads what `lookup` says of the body. The laws below are about
//! these functions, and so about every encoder and every decoder.

use vstd::prelude::*;
use vstd::utf8::valid_utf8;
use crate::decoder::{
    body_of, digest_matches, find_entry, lookup, open_container, parse_preamble, trailer_of,
};
use crate::error::SnowBinError;
use crate::format::{
    body_bytes, end_marker, entries_bytes, entry_bytes, entry_fits, fill_bytes, fit_tag, le_bytes,
    le_value, lemma_le_bytes_len, lemma_le_value_of_bytes, lemma_markers, lemma_pow256_values,
    magic, preamble, sealed_bytes, sentinel, Entry, DATA_START, HASH_SIZE,
};
use crate::hash::blake3_hash;
use crate::info::{SnowBinInfo, VERSION_SPEC};

verus! {

/// What a scan of `entries` for the tag field `want` finds, from entry `from`
/// on: the payload of the first entry with that field, unless an entry with
/// the end marker's field, or the end of the entries, comes first.
pub open spec fn first_match(info: SnowBinInfo, entries: Seq<Entry>, want: Seq<u8>, from: nat)
    -> Result<Seq<u8>, SnowBinError>
    decreases entries.len() - from,
{
    if from >= entries.len() {
        Err(SnowBinError::ReachedEOF)
    } else if fit_tag(entries[from as int].0, info.tag_width()) == sentinel(info) {
        Err(SnowBinError::ReachedEOF)
    } else if fit_tag(entries[from as int].0, info.tag_width()) == want {
        Ok(entries[from as int].1)
    } else {
        first_match(info, entries, want, from + 1)
    }
}

/// The entries from `from` on, one after the other.
spec fn tail_bytes(info: SnowBinInfo, entries: Seq<Entry>, from: nat) -> Seq<u8>
    decreases entries.len() - from,
{
    if from >= entries.len() {
        Seq::empty()
    } else {
        entry_bytes(info, entries[from as int].0, entries[from as int].1) + tail_bytes(
            info,
            entries,
            from + 1,
        )
    }
}

/// The bytes of the entries are those of the first `from`, then those of the
/// rest.
proof fn lemma_split_entries(info: SnowBinInfo, entries: Seq<Entry>, from: nat)
    requires
        from <= entries.len(),
    ensures
        entries_bytes(info, entries) == entries_bytes(info, entries.take(from as int))
            + tail_bytes(info, entries, from),
    decreases entries.len() - from,
{
    if from == entries.len() {
        assert(entries.take(from as int) =~= entries);
        assert(entries_bytes(info, entries) + Seq::<u8>::empty() =~= entries_bytes(info, entries));
    } else {
        lemma_split_entries(info, entries, from + 1);
        let longer = entries.take(from as int + 1);
        assert(longer.drop_last() =~= entries.take(from as int));
        assert(longer.last() == entries[from as int]);
        assert(entries_bytes(info, longer) + tail_bytes(info, entries, from + 1)
            =~= entries_bytes(info, entries.take(from as int)) + tail_bytes(info, entries, from));
    }
}

/// A run of fill bytes is text.
proof fn lemma_fill_valid(count: nat)
    ensures
        valid_utf8(fill_bytes(count)),
{
    let blanks = Seq::new(count, |i: int| ' ');
    assert(vstd::utf8::is_ascii_chars(blanks));
    vstd::utf8::is_ascii_chars_encode_utf8(blanks);
    assert(vstd::utf8::encode_utf8(blanks) =~= fill_bytes(count));
    vstd::utf8::encode_utf8_valid_utf8(blanks);
}

/// A tag that is text and no longer than the field stays text when the field
/// is filled up.
pub proof fn lemma_fit_tag_valid(tag: Seq<u8>, width: nat)
    requires
        valid_utf8(tag),
        tag.len() <= width,
    ensures
        valid_utf8(fit_tag(tag, width)),
{
    lemma_fill_valid((width - tag.len()) as nat);
    vstd::utf8::valid_utf8_concat(tag, fill_bytes((width - tag.len()) as nat));
}

/// Where entry `from` starts in a body: behind the preamble and the entries
/// before it.
spec fn offset(info: SnowBinInfo, entries: Seq<Entry>, from: nat) -> nat {
    (preamble(info) + entries_bytes(info, entries.take(from as int))).len()
}

/// The parts of a sequence that is put together from five.
proof fn lemma_parts(a: Seq<u8>, b: Seq<u8>, c: Seq<u8>, d: Seq<u8>, e: Seq<u8>)
    ensures
        ({
            let all = a + b + c + d + e;
            let b_end = a.len() + b.len();
            let c_end = b_end + c.len();
            let d_end = c_end + d.len();
            &&& all.len() == d_end + e.len()
            &&& all.subrange(a.len() as int, b_end as int) == b
            &&& all.subrange(b_end as int, c_end as int) == c
            &&& all.subrange(c_end as int, d_end as int) == d
            &&& (a + b + c + d).len() == d_end
        }),
{
    let all = a + b + c + d + e;
    let b_end = a.len() + b.len();
    let c_end = b_end + c.len();
    let d_end = c_end + d.len();
    assert(all.subrange(a.len() as int, b_end as int) =~= b);
    assert(all.subrange(b_end as int, c_end as int) =~= c);
    assert(all.subrange(c_end as int, d_end as int) =~= d);
}

/// Two ways to put a body together from its seven parts.
proof fn lemma_regroup_body(
    p: Seq<u8>,
    b: Seq<u8>,
    f: Seq<u8>,
    l: Seq<u8>,
    d: Seq<u8>,
    a: Seq<u8>,
    s: Seq<u8>,
)
    ensures
        p + (b + (f + l + d + a)) + s == p + b + f + l + d + (a + s),
        p + (b + (f + l + d)) == p + b + f + l + d,
{
    assert(p + (b + (f + l + d + a)) + s =~= p + b + f + l + d + (a + s));
    assert(p + (b + (f + l + d)) =~= p + b + f + l + d);
}

/// A body is the entries before entry `from`, that entry's three parts, and
/// what follows it.
proof fn lemma_body_parts(info: SnowBinInfo, entries: Seq<Entry>, from: nat)
    requires
        from < entries.len(),
    ensures
        body_bytes(info, entries) == preamble(info) + entries_bytes(
            info,
            entries.take(from as int),
        ) + fit_tag(entries[from as int].0, info.tag_width()) + le_bytes(
            entries[from as int].1.len(),
            info.length_width(),
        ) + entries[from as int].1 + (tail_bytes(info, entries, from + 1) + sentinel(info)),
{
    let entry = entries[from as int];
    let before = entries_bytes(info, entries.take(from as int));
    let field = fit_tag(entry.0, info.tag_width());
    let length = le_bytes(entry.1.len(), info.length_width());
    let after = tail_bytes(info, entries, from + 1);
    lemma_split_entries(info, entries, from);
    assert(tail_bytes(info, entries, from) == field + length + entry.1 + after);
    lemma_regroup_body(preamble(info), before, field, length, entry.1, after, sentinel(info));
}

/// The entries up to and including entry `from` are those before it and its
/// three parts.
proof fn lemma_prefix_parts(info: SnowBinInfo, entries: Seq<Entry>, from: nat)
    requires
        from < entries.len(),
    ensures
        preamble(info) + entries_bytes(info, entries.take(from as int + 1)) == preamble(info)
            + entries_bytes(info, entries.take(from as int)) + fit_tag(
            entries[from as int].0,
            info.tag_width(),
        ) + le_bytes(entries[from as int].1.len(), info.length_width()) + entries[from as int].1,
{
    let entry = entries[from as int];
    let before = entries_bytes(info, entries.take(from as int));
    let field = fit_tag(entry.0, info.tag_width());
    let length = le_bytes(entry.1.len(), info.length_width());
    let longer = entries.take(from as int + 1);
    assert(longer.drop_last() =~= entries.take(from as int));
    assert(longer.last() == entry);
    assert(entries_bytes(info, longer) == before + (field + length + entry.1));
    lemma_regroup_body(
        preamble(info),
        before,
        field,
        length,
        entry.1,
        Seq::empty(),
        Seq::empty(),
    );
}

/// Where the parts of entry `from` lie in a body that the encoder produced.
proof fn lemma_entry_layout(info: SnowBinInfo, entries: Seq<Entry>, from: nat)
    requires
        from < entries.len(),
    ensures
        ({
            let body = body_bytes(info, entries);
            let entry = entries[from as int];
            let pos = offset(info, entries, from);
            let tag_end = pos + info.tag_width();
            let start = tag_end + info.length_width();
            &&& start + entry.1.len() + info.tag_width() <= body.len()
            &&& body.subrange(pos as int, tag_end as int) == fit_tag(entry.0, info.tag_width())
            &&& body.subrange(tag_end as int, start as int) == le_bytes(
                entry.1.len(),
                info.length_width(),
            )
            &&& body.subrange(start as int, (start + entry.1.len()) as int) == entry.1
            &&& offset(info, entries, from + 1) == start + entry.1.len()
        }),
{
    let entry = entries[from as int];
    let before = preamble(info) + entries_bytes(info, entries.take(from as int));
    let field = fit_tag(entry.0, info.tag_width());
    let length = le_bytes(entry.1.len(), info.length_width());
    let rest = tail_bytes(info, entries, from + 1) + sentinel(info);
    lemma_body_parts(info, entries, from);
    lemma_prefix_parts(info, entries, from);
    lemma_le_bytes_len(entry.1.len(), info.length_width());
    lemma_parts(before, field, length, entry.1, rest);
}

/// The sentinel lies behind the last entry, and ends the body.
proof fn lemma_sentinel_layout(info: SnowBinInfo, entries: Seq<Entry>)
    ensures
        ({
            let body = body_bytes(info, entries);
            let pos = offset(info, entries, entries.len());
            &&& body.len() == pos + info.tag_width()
            &&& body.subrange(pos as int, (pos + info.tag_width()) as int) == sentinel(info)
        }),
{
    let body = body_bytes(info, entries);
    assert(entries.take(entries.len() as int) =~= entries);
    let before = preamble(info) + entries_bytes(info, entries);
    assert(body =~= before + sentinel(info));
    assert(body.subrange(before.len() as int, (before.len() + info.tag_width()) as int)
        =~= sentinel(info));
}

/// The scan of a body that the encoder produced, from the start of entry
/// `from`, finds what `first_match` finds from that entry on.
proof fn lemma_scan(info: SnowBinInfo, entries: Seq<Entry>, want: Seq<u8>, from: nat)
    requires
        info.wf(),
        from <= entries.len(),
        forall|i: int| 0 <= i < entries.len() ==> entry_fits(info, #[trigger] entries[i]),
    ensures
        find_entry(info, body_bytes(info, entries), want, offset(info, entries, from))
            == first_match(info, entries, want, from),
    decreases entries.len() - from,
{
    if from == entries.len() {
        lemma_sentinel_layout(info, entries);
        lemma_markers();
        lemma_fit_tag_valid(end_marker(), info.tag_width());
    } else {
        let entry = entries[from as int];
        assert(entry_fits(info, entry));
        lemma_entry_layout(info, entries, from);
        lemma_fit_tag_valid(entry.0, info.tag_width());
        lemma_pow256_values();
        lemma_le_value_of_bytes(entry.1.len(), info.length_width());
        lemma_scan(info, entries, want, from + 1);
    }
}

/// The preamble is `DATA_START` bytes long.
pub proof fn lemma_preamble_len(info: SnowBinInfo)
    ensures
        preamble(info).len() == DATA_START,
{
    lemma_le_bytes_len(VERSION_SPEC as nat, 8);
    lemma_le_bytes_len(info.spec_header_size() as nat, 4);
    lemma_le_bytes_len(info.spec_data_size() as nat, 1);
}

/// Opening a container that the encoder sealed succeeds, and recovers the
/// parameters that it was written with: the preamble names the two widths,
/// and the digest matches.
pub proof fn lemma_open_sealed(info: SnowBinInfo, entries: Seq<Entry>)
    requires
        info.wf(),
    ensures
        digest_matches(sealed_bytes(info, entries)),
        body_of(sealed_bytes(info, entries)) == body_bytes(info, entries),
        open_container(sealed_bytes(info, entries)) == Ok::<(u32, u8), SnowBinError>(
            (info.spec_header_size(), info.spec_data_size()),
        ),
{
    let body = body_bytes(info, entries);
    let data = sealed_bytes(info, entries);
    let digest = blake3_hash(body);
    vstd::array::array_len_matches_n(&digest);
    assert(body_of(data) =~= body);
    assert(trailer_of(data) =~= digest@);
    lemma_preamble_len(info);
    lemma_le_bytes_len(VERSION_SPEC as nat, 8);
    lemma_le_bytes_len(info.spec_header_size() as nat, 4);
    lemma_le_bytes_len(info.spec_data_size() as nat, 1);
    lemma_pow256_values();
    lemma_le_value_of_bytes(VERSION_SPEC as nat, 8);
    lemma_le_value_of_bytes(info.spec_header_size() as nat, 4);
    lemma_le_value_of_bytes(info.spec_data_size() as nat, 1);
    let width = le_bytes(info.spec_data_size() as nat, 1);
    assert(data.subrange(0, DATA_START as int) =~= preamble(info));
    assert(data.subrange(0, 8) =~= magic());
    assert(data.subrange(8, 16) =~= le_bytes(VERSION_SPEC as nat, 8));
    assert(data.subrange(16, 20) =~= le_bytes(info.spec_header_size() as nat, 4));
    assert(data.subrange(20, 21) =~= width);
    assert(width.drop_first() =~= Seq::<u8>::empty());
    reveal_with_fuel(le_value, 2);
    assert(data[20] == width[0]);
}

/// Looking a tag up in a body that the encoder produced finds what the scan
/// of the written entries finds: the bytes between the tags, the length
/// fields and the order of the entries are all recovered.
pub proof fn lemma_lookup_written(info: SnowBinInfo, entries: Seq<Entry>, tag: Seq<u8>)
    requires
        info.wf(),
        forall|i: int| 0 <= i < entries.len() ==> entry_fits(info, #[trigger] entries[i]),
        valid_utf8(fit_tag(tag, info.tag_width())),
    ensures
        lookup(info, body_bytes(info, entries), tag) == first_match(
            info,
            entries,
            fit_tag(tag, info.tag_width()),
            0,
        ),
{
    lemma_scan(info, entries, fit_tag(tag, info.tag_width()), 0);
    assert(entries.take(0) =~= Seq::<Entry>::empty());
    assert(preamble(info) + entries_bytes(info, entries.take(0)) =~= preamble(info));
    lemma_preamble_len(info);
    assert(offset(info, entries, 0) == DATA_START);
}

/// Round trip. Write entries that fit, seal, open, and look up the tag of
/// entry `k`: the container opens with the encoder's parameters, and the
/// lookup returns that entry's payload, byte for byte. Where a tag repeats,
/// the first entry that carries it wins. Tags are told apart by their
/// fields, and an entry whose field is that of the end marker ends every
/// scan, so no entry up to `k` may carry it.
pub proof fn lemma_round_trip(info: SnowBinInfo, entries: Seq<Entry>, k: int)
    requires
        info.wf(),
        forall|i: int| 0 <= i < entries.len() ==> entry_fits(info, #[trigger] entries[i]),
        0 <= k < entries.len(),
        forall|i: int|
            0 <= i <= k ==> fit_tag(#[trigger] entries[i].0, info.tag_width()) != sentinel(info),
        forall|i: int|
            0 <= i < k ==> fit_tag(#[trigger] entries[i].0, info.tag_width()) != fit_tag(
                entries[k].0,
                info.tag_width(),
            ),
    ensures
        open_container(sealed_bytes(info, entries)) == Ok::<(u32, u8), SnowBinError>(
            (info.spec_header_size(), info.spec_data_size()),
        ),
        lookup(info, body_of(sealed_bytes(info, entries)), entries[k].0) == Ok::<
            Seq<u8>,
            SnowBinError,
        >(entries[k].1),
{
    lemma_open_sealed(info, entries);
    assert(entry_fits(info, entries[k]));
    lemma_fit_tag_valid(entries[k].0, info.tag_width());
    lemma_lookup_written(info, entries, entries[k].0);
    lemma_first_match_at(info, entries, fit_tag(entries[k].0, info.tag_width()), 0, k);
}

/// The scan reaches entry `k` where no entry before it ends it.
proof fn lemma_first_match_at(
    info: SnowBinInfo,
    entries: Seq<Entry>,
    want: Seq<u8>,
    from: nat,
    k: int,
)
    requires
        from <= k < entries.len(),
        fit_tag(entries[k].0, info.tag_width()) == want,
        forall|i: int|
            from <= i <= k ==> fit_tag(#[trigger] entries[i].0, info.tag_width()) != sentinel(info),
        forall|i: int|
            from <= i < k ==> fit_tag(#[trigger] entries[i].0, info.tag_width()) != want,
    ensures
        first_match(info, entries, want, from) == Ok::<Seq<u8>, SnowBinError>(entries[k].1),
    decreases k - from,
{
    if from < k {
        assert(fit_tag(entries[from as int].0, info.tag_width()) != want);
        assert(fit_tag(entries[from as int].0, info.tag_width()) != sentinel(info));
        lemma_first_match_at(info, entries, want, from + 1, k);
    } else {
        assert(fit_tag(entries[k].0, info.tag_width()) != sentinel(info));
    }
}

/// Miss. Looking up a tag whose field no written entry carries ends in
/// `ReachedEOF`: never in a payload, an empty one or any other.
pub proof fn lemma_miss(info: SnowBinInfo, entries: Seq<Entry>, tag: Seq<u8>)
    requires
        info.wf(),
        forall|i: int| 0 <= i < entries.len() ==> entry_fits(info, #[trigger] entries[i]),
        valid_utf8(fit_tag(tag, info.tag_width())),
        forall|i: int|
            0 <= i < entries.len() ==> fit_tag(#[trigger] entries[i].0, info.tag_width())
                != fit_tag(tag, info.tag_width()),
    ensures
        lookup(info, body_of(sealed_bytes(info, entries)), tag) == Err::<Seq<u8>, SnowBinError>(
            SnowBinError::ReachedEOF,
        ),
{
    lemma_open_sealed(info, entries);
    lemma_lookup_written(info, entries, tag);
    lemma_no_match(info, entries, fit_tag(tag, info.tag_width()), 0);
}

/// The scan finds nothing where no entry from `from` on carries the field.
proof fn lemma_no_match(info: SnowBinInfo, entries: Seq<Entry>, want: Seq<u8>, from: nat)
    requires
        forall|i: int|
            from <= i < entries.len() ==> fit_tag(#[trigger] entries[i].0, info.tag_width())
                != want,
    ensures
        first_match(info, entries, want, from) == Err::<Seq<u8>, SnowBinError>(
            SnowBinError::ReachedEOF,
        ),
    decreases entries.len() - from,
{
    if from < entries.len() {
        assert(fit_tag(entries[from as int].0, info.tag_width()) != want);
        lemma_no_match(info, entries, want, from + 1);
    }
}

/// The preamble is read in the first `DATA_START` bytes alone.
pub proof fn lemma_preamble_prefix(data: Seq<u8>, other: Seq<u8>)
    requires
        data.len() >= DATA_START,
        other.len() >= DATA_START,
        data.subrange(0, DATA_START as int) == other.subrange(0, DATA_START as int),
    ensures
        parse_preamble(data) == parse_preamble(other),
{
    let head = data.subrange(0, DATA_START as int);
    let other_head = other.subrange(0, DATA_START as int);
    assert(data.subrange(0, 8) =~= head.subrange(0, 8));
    assert(other.subrange(0, 8) =~= other_head.subrange(0, 8));
    assert(data.subrange(8, 16) =~= head.subrange(8, 16));
    assert(other.subrange(8, 16) =~= other_head.subrange(8, 16));
    assert(data.subrange(16, 20) =~= head.subrange(16, 20));
    assert(other.subrange(16, 20) =~= other_head.subrange(16, 20));
    assert(data[20] == head[20]);
    assert(other[20] == other_head[20]);
}

/// Order of the tests at opening. What is wrong with the preamble is
/// reported whatever the digest says; `HashDoesNotMatch` is reported only of
/// a container whose preamble is in order.
pub proof fn lemma_preamble_before_digest(data: Seq<u8>)
    ensures
        parse_preamble(data) is Err ==> open_container(data) == Err::<(u32, u8), SnowBinError>(
            parse_preamble(data)->Err_0,
        ),
        open_container(data) == Err::<(u32, u8), SnowBinError>(SnowBinError::HashDoesNotMatch)
            <==> parse_preamble(data) is Ok && !digest_matches(data),
{
}

/// A change in the marker. Change one of the first eight bytes of a
/// container that begins with the marker: opening the result fails with
/// `MalformedHeader`, whatever else the container holds.
pub proof fn lemma_changed_marker_detected(data: Seq<u8>, at: int, byte: u8)
    requires
        data.len() >= 8,
        data.subrange(0, 8) == magic(),
        0 <= at < 8,
        byte != data[at],
    ensures
        open_container(data.update(at, byte)) == Err::<(u32, u8), SnowBinError>(
            SnowBinError::MalformedHeader,
        ),
{
    let changed = data.update(at, byte);
    assert(changed.subrange(0, 8)[at] == byte);
    assert(data.subrange(0, 8)[at] == data[at]);
}

/// Integrity. Take a container that opens and put another body between its
/// preamble and its digest: where the two bodies differ in their BLAKE3
/// hashes, opening fails with `HashDoesNotMatch`. (That two different bodies
/// differ in their hashes is what BLAKE3 is trusted for; it is not proved
/// here.)
pub proof fn lemma_changed_body_detected(data: Seq<u8>, changed: Seq<u8>)
    requires
        open_container(data) is Ok,
        changed.len() >= HASH_SIZE,
        changed.subrange(0, DATA_START as int) == data.subrange(0, DATA_START as int),
        trailer_of(changed) == trailer_of(data),
        blake3_hash(body_of(changed)) != blake3_hash(body_of(data)),
    ensures
        open_container(changed) == Err::<(u32, u8), SnowBinError>(SnowBinError::HashDoesNotMatch),
{
    lemma_preamble_prefix(data, changed);
    let a = blake3_hash(body_of(changed));
    let b = blake3_hash(body_of(data));
    if a@ == b@ {
        vstd::array::array_len_matches_n(&a);
        vstd::array::array_len_matches_n(&b);
        assert(a@ =~= b@);
        assert(a == b);
    }
}

/// Integrity, of one byte. Change one byte between the preamble and the
/// digest of a container that opens: opening the result fails with
/// `HashDoesNotMatch`, where the change shows in the BLAKE3 hash of the body.
pub proof fn lemma_flipped_byte_detected(data: Seq<u8>, at: int, byte: u8)
    requires
        open_container(data) is Ok,
        DATA_START <= at < data.len() - HASH_SIZE,
        byte != data[at],
        blake3_hash(body_of(data).update(at, byte)) != blake3_hash(body_of(data)),
    ensures
        open_container(data.update(at, byte)) == Err::<(u32, u8), SnowBinError>(
            SnowBinError::HashDoesNotMatch,
        ),
{
    let changed = data.update(at, byte);
    assert(body_of(changed) =~= body_of(data).update(at, byte));
    assert(trailer_of(changed) =~= trailer_of(data));
    assert(changed.subrange(0, DATA_START as int) =~= data.subrange(0, DATA_START as int));
    lemma_changed_body_detected(data, changed);
}

} // verus!

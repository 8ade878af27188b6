//! What the HPACK encoder writes, the decoder reads back: the fields,
//! and a table in step with the encoder's model of it.

use vstd::prelude::*;

use super::error::Http2Error;
use super::hpack::{
    after_prefix, block_step, decode_block_spec, decode_int_spec, decode_string_spec, entries_size, entry_size,
    evict_spec, insert_spec, lemma_entries_size_nonneg, lemma_entries_size_prepend,
    lemma_evict_wf, literal_spec, p2, resolve_spec, set_max_spec, static_entry, table_wf,
    FieldView, TableView,
};
use super::huffman::{huffman_encode_spec, huffman_len_spec};
use super::huffman_inverse::lemma_huffman_round_trip;
use super::hpack_encode::{
    block_bound, encode_int_spec, encode_outcome, encoder_wf, entry_matches, field_bound,
    field_repr, fields_repr, find_spec, first_match, index_entry, size_updates, EncoderView,
    SensitivityPolicy,
    lemma_entries_size_lower, lemma_evict_limits, lemma_flags_room, lemma_int_round_trip, lemma_p2_8, string_repr,
    FieldMatch, HeaderSensitivity, HuffmanPolicy,
};

verus! {

/// A table with its ceiling replaced.
pub open spec fn with_hard(t: TableView, h: int) -> TableView {
    TableView { hard_max_size: h, ..t }
}

proof fn lemma_evict_hard(t: TableView, h: int)
    ensures
        evict_spec(with_hard(t, h)) == with_hard(evict_spec(t), h),
    decreases t.entries.len(),
{
    if t.size > t.max_size && t.entries.len() > 0 {
        lemma_evict_hard(
            TableView {
                entries: t.entries.drop_last(),
                size: t.size - entry_size(t.entries.last()),
                ..t
            },
            h,
        );
    }
}

proof fn lemma_insert_hard(t: TableView, h: int, f: FieldView)
    ensures
        insert_spec(with_hard(t, h), f) == with_hard(insert_spec(t, f), h),
{
    lemma_evict_hard(TableView { entries: seq![f] + t.entries, size: t.size + entry_size(f), ..t }, h);
}

proof fn lemma_set_max_hard(t: TableView, h: int, n: int)
    requires
        n <= t.hard_max_size,
        n <= h,
    ensures
        set_max_spec(with_hard(t, h), n) == with_hard(set_max_spec(t, n), h),
{
    lemma_evict_hard(TableView { max_size: n, ..t }, h);
    assert(TableView { max_size: n, ..with_hard(t, h) } == with_hard(TableView { max_size: n, ..t }, h));
}

proof fn lemma_insert_wf(t: TableView, f: FieldView)
    requires
        table_wf(t),
    ensures
        table_wf(insert_spec(t, f)),
{
    if entry_size(f) > t.max_size {
        assert(entries_size(Seq::<FieldView>::empty()) == 0);
    } else {
        lemma_entries_size_prepend(f, t.entries);
        lemma_evict_wf(TableView { entries: seq![f] + t.entries, size: t.size + entry_size(f), ..t });
    }
}

proof fn lemma_set_max_wf(t: TableView, n: int)
    requires
        table_wf(t),
        0 <= n,
    ensures
        table_wf(set_max_spec(t, n)),
{
    lemma_evict_wf(TableView { max_size: if n < t.hard_max_size { n } else { t.hard_max_size }, ..t });
}

/// The first byte of an integer holds the flags and at most the
/// all-ones prefix.
proof fn lemma_first_byte(v: nat, prefix: u8, flags: u8, rest: Seq<u8>)
    requires
        1 <= prefix <= 8,
        flags as nat % p2(prefix as nat) == 0,
    ensures
        (encode_int_spec(v, prefix, flags) + rest).len() > 0,
        flags <= (encode_int_spec(v, prefix, flags) + rest)[0] < flags + p2(prefix as nat),
        (encode_int_spec(v, prefix, flags) + rest)[0] == encode_int_spec(v, prefix, flags)[0],
{
    lemma_p2_8(prefix);
    lemma_flags_room(prefix, flags);
}

/// A string literal, raw or Huffman-coded, reads back as the string.
proof fn lemma_string_round_trip(s: Seq<u8>, huff: HuffmanPolicy, rest: Seq<u8>)
    requires
        s.len() <= 0x7fff_ffff_ffff_ffff,
        s.len() <= usize::MAX,
    ensures
        decode_string_spec(string_repr(s, huff) + rest) == Ok::<(Seq<u8>, int), Http2Error>(
            (s, string_repr(s, huff).len() as int),
        ),
{
    assert(p2(7) == 128) by {
        reveal_with_fuel(p2, 8);
    }
    let buf = string_repr(s, huff) + rest;
    if huff == HuffmanPolicy::WhenSmaller && huffman_len_spec(s) < s.len() {
        let n = huffman_len_spec(s);
        let enc = huffman_encode_spec(s);
        let head = encode_int_spec(n, 7, 0x80);
        lemma_huffman_round_trip(s);
        assert(buf =~= head + (enc + rest));
        lemma_first_byte(n, 7, 0x80, enc + rest);
        lemma_int_round_trip(n as u64, 7, 0x80, enc + rest);
        let k = head.len() as int;
        assert(buf.subrange(k, k + n) =~= enc);
    } else {
        let head = encode_int_spec(s.len(), 7, 0);
        assert(buf =~= head + (s + rest));
        lemma_first_byte(s.len(), 7, 0, s + rest);
        lemma_int_round_trip(s.len() as u64, 7, 0, s + rest);
        let n = head.len() as int;
        assert(buf.subrange(n, n + s.len()) =~= s);
    }
}

proof fn lemma_first_match(t: TableView, n: Seq<u8>, v: Seq<u8>, full: bool, i: int)
    ensures
        first_match(t, n, v, full, i) matches Some(k) ==> i <= k && 1 <= k < 62 + t.entries.len()
            && entry_matches(index_entry(t, k), n, v, full),
    decreases 62 + t.entries.len() - i,
{
    reveal(first_match);
    if !(i < 1 || i >= 62 + t.entries.len()) && !entry_matches(index_entry(t, i), n, v, full) {
        lemma_first_match(t, n, v, full, i + 1);
    }
}

/// A match found by the encoder names an index the decoder resolves to
/// the same entry.
proof fn lemma_match_resolves(t: TableView, h: int, f: FieldView)
    requires
        table_wf(t),
    ensures
        match find_spec(t, f.0, f.1) {
            FieldMatch::Full(k) => 1 <= k <= 0x7fff_ffff_ffff_ffff && resolve_spec(with_hard(t, h), k)
                == Ok::<FieldView, Http2Error>(f),
            FieldMatch::Name(k) => 1 <= k <= 0x7fff_ffff_ffff_ffff && (resolve_spec(with_hard(t, h), k)
                matches Ok(g) && g.0 == f.0),
            FieldMatch::Absent => true,
        },
{
    lemma_entries_size_lower(t.entries);
    lemma_first_match(t, f.0, f.1, true, 1);
    lemma_first_match(t, f.0, f.1, false, 1);
}

/// A literal as the encoder writes it reads back as the field.
#[verifier::rlimit(100)]
proof fn lemma_literal_round_trip(
    d: TableView,
    idx: u64,
    prefix: u8,
    flags: u8,
    f: FieldView,
    huff: HuffmanPolicy,
    rest: Seq<u8>,
)
    requires
        1 <= prefix <= 8,
        flags as nat % p2(prefix as nat) == 0,
        idx <= 0x7fff_ffff_ffff_ffff,
        idx != 0 ==> (resolve_spec(d, idx) matches Ok(g) && g.0 == f.0),
        f.0.len() <= 0x7fff_ffff_ffff_ffff,
        f.1.len() <= 0x7fff_ffff_ffff_ffff,
        f.0.len() <= usize::MAX,
        f.1.len() <= usize::MAX,
    ensures
        ({
            let bytes = encode_int_spec(idx as nat, prefix, flags) + (if idx == 0 {
                string_repr(f.0, huff)
            } else {
                Seq::empty()
            }) + string_repr(f.1, huff);
            literal_spec(d, bytes + rest, prefix) == Ok::<(Seq<u8>, Seq<u8>, int), Http2Error>(
                (f.0, f.1, bytes.len() as int),
            )
        }),
{
    reveal(literal_spec);
    let head = encode_int_spec(idx as nat, prefix, flags);
    let name_part = if idx == 0 {
        string_repr(f.0, huff)
    } else {
        Seq::empty()
    };
    let value_part = string_repr(f.1, huff);
    let buf = head + name_part + value_part + rest;
    let after = name_part + (value_part + rest);
    assert(buf =~= head + after);
    lemma_int_round_trip(idx, prefix, flags, after);
    let n0 = head.len() as int;
    assert(buf.skip(n0) =~= after);
    lemma_string_round_trip(f.1, huff, rest);
    if idx == 0 {
        lemma_string_round_trip(f.0, huff, value_part + rest);
        let m1 = name_part.len() as int;
        assert(buf.skip(n0 + m1) =~= value_part + rest);
    } else {
        assert(buf.skip(n0) =~= value_part + rest);
    }
}

/// An indexed field as the encoder writes it reads back as the field.
proof fn lemma_indexed_step(d: TableView, k: u64, f: FieldView, rest: Seq<u8>)
    requires
        1 <= k <= 0x7fff_ffff_ffff_ffff,
        resolve_spec(d, k) == Ok::<FieldView, Http2Error>(f),
    ensures
        block_step(d, encode_int_spec(k as nat, 7, 0x80) + rest) == Ok::<(TableView, Option<FieldView>, int), Http2Error>(
            (d, Some(f), encode_int_spec(k as nat, 7, 0x80).len() as int),
        ),
{
    assert(p2(7) == 128) by {
        reveal_with_fuel(p2, 8);
    }
    lemma_first_byte(k as nat, 7, 0x80, rest);
    lemma_int_round_trip(k, 7, 0x80, rest);
}

/// A literal as the encoder writes it is one representation the
/// decoder reads back as the field: added to the table with the
/// incremental-indexing flags, left out of it otherwise.
#[verifier::rlimit(100)]
proof fn lemma_literal_step(
    d: TableView,
    idx: u64,
    indexable: bool,
    flags: u8,
    f: FieldView,
    huff: HuffmanPolicy,
    rest: Seq<u8>,
)
    requires
        indexable ==> flags == 0x40,
        !indexable ==> flags == 0x10 || flags == 0,
        idx <= 0x7fff_ffff_ffff_ffff,
        idx != 0 ==> (resolve_spec(d, idx) matches Ok(g) && g.0 == f.0),
        f.0.len() <= 0x7fff_ffff_ffff_ffff,
        f.1.len() <= 0x7fff_ffff_ffff_ffff,
        f.0.len() <= usize::MAX,
        f.1.len() <= usize::MAX,
    ensures
        ({
            let prefix: u8 = if indexable { 6 } else { 4 };
            let bytes = encode_int_spec(idx as nat, prefix, flags) + (if idx == 0 {
                string_repr(f.0, huff)
            } else {
                Seq::empty()
            }) + string_repr(f.1, huff);
            block_step(d, bytes + rest) == Ok::<(TableView, Option<FieldView>, int), Http2Error>(
                (if indexable { insert_spec(d, f) } else { d }, Some(f), bytes.len() as int),
            )
        }),
{
    assert(p2(6) == 64 && p2(4) == 16) by {
        reveal_with_fuel(p2, 8);
    }
    let prefix: u8 = if indexable { 6 } else { 4 };
    let head = encode_int_spec(idx as nat, prefix, flags);
    let tail = (if idx == 0 {
        string_repr(f.0, huff)
    } else {
        Seq::empty()
    }) + string_repr(f.1, huff);
    let bytes = head + tail;
    assert(bytes + rest =~= head + (tail + rest));
    lemma_first_byte(idx as nat, prefix, flags, tail + rest);
    lemma_literal_round_trip(d, idx, prefix, flags, f, huff, rest);
}

/// One field as the encoder writes it is one representation the
/// decoder reads back as that field, with the table moving alike.
proof fn lemma_field_round_trip(
    t: TableView,
    h: int,
    f: FieldView,
    sens: HeaderSensitivity,
    huff: HuffmanPolicy,
    rest: Seq<u8>,
)
    requires
        table_wf(t),
        f.0.len() <= 0x7fff_ffff_ffff_ffff,
        f.1.len() <= 0x7fff_ffff_ffff_ffff,
        f.0.len() <= usize::MAX,
        f.1.len() <= usize::MAX,
    ensures
        ({
            let r = field_repr(t, f, sens, huff);
            &&& r.0.len() > 0
            &&& block_step(with_hard(t, h), r.0 + rest) == Ok::<(TableView, Option<FieldView>, int), Http2Error>(
                (with_hard(r.1, h), Some(f), r.0.len() as int),
            )
        }),
{
    let d = with_hard(t, h);
    let m = find_spec(t, f.0, f.1);
    lemma_match_resolves(t, h, f);
    if m is Full && (m->Full_0 <= 61 || sens != HeaderSensitivity::Sensitive) {
        lemma_indexed_step(d, m->Full_0, f, rest);
    } else {
        let name_idx: u64 = match m {
            FieldMatch::Full(i) => i,
            FieldMatch::Name(i) => i,
            FieldMatch::Absent => 0,
        };
        let indexable = sens == HeaderSensitivity::Indexable && entry_size(f) * 2 <= t.max_size;
        let flags: u8 = if indexable {
            0x40
        } else if sens == HeaderSensitivity::Sensitive {
            0x10
        } else {
            0
        };
        lemma_literal_step(d, name_idx, indexable, flags, f, huff, rest);
        if indexable {
            lemma_insert_hard(t, h, f);
        }
    }
}


/// A field small enough for every length and index to read back.
pub open spec fn field_small(f: FieldView) -> bool {
    &&& f.0.len() <= 0x7fff_ffff_ffff_ffff
    &&& f.1.len() <= 0x7fff_ffff_ffff_ffff
    &&& f.0.len() <= usize::MAX
    &&& f.1.len() <= usize::MAX
}

/// A run of fields as the encoder writes them reads back as those
/// fields, whatever follows; the decoder's table ends where the
/// encoder's model does.
#[verifier::rlimit(40)]
proof fn lemma_fields_round_trip<S: SensitivityPolicy>(
    p: S,
    t: TableView,
    h: int,
    fs: Seq<FieldView>,
    huff: HuffmanPolicy,
    rest: Seq<u8>,
    count: nat,
)
    requires
        table_wf(t),
        count + fs.len() <= 256,
        forall|i: int| 0 <= i < fs.len() ==> field_small(#[trigger] fs[i]),
    ensures
        table_wf(fields_repr(p, t, fs, huff).1),
        decode_block_spec(with_hard(t, h), fields_repr(p, t, fs, huff).0 + rest, count)
            == after_prefix(
            fs,
            decode_block_spec(
                with_hard(fields_repr(p, t, fs, huff).1, h),
                rest,
                count + fs.len(),
            ),
        ),
    decreases fs.len(),
{
    let r = fields_repr(p, t, fs, huff);
    if fs.len() == 0 {
        assert(r.0 + rest =~= rest);
        let x = decode_block_spec(with_hard(t, h), rest, count);
        match x.1 {
            Ok(gs) => {
                assert(fs + gs =~= gs);
            },
            Err(_) => {},
        }
    } else {
        let init = fs.drop_last();
        let last = fs.last();
        assert(field_small(fs[fs.len() - 1]));
        let ri = fields_repr(p, t, init, huff);
        let sens = p.classify_spec(last.0, last.1);
        let rl = field_repr(ri.1, last, sens, huff);
        assert(r.0 == ri.0 + rl.0);
        assert(r.1 == rl.1);
        assert forall|i: int| 0 <= i < init.len() implies field_small(#[trigger] init[i]) by {
            assert(init[i] == fs[i]);
        }
        lemma_fields_round_trip(p, t, h, init, huff, rl.0 + rest, count);
        assert(r.0 + rest =~= ri.0 + (rl.0 + rest));
        lemma_field_round_trip(ri.1, h, last, sens, huff, rest);
        if rl.1 != ri.1 {
            lemma_insert_wf(ri.1, last);
        }
        let buf = rl.0 + rest;
        let c1 = count + init.len();
        assert(buf.skip(rl.0.len() as int) =~= rest);
        let x = decode_block_spec(with_hard(rl.1, h), rest, c1 + 1);
        assert(decode_block_spec(with_hard(ri.1, h), buf, c1) == after_prefix(seq![last], x));
        match x.1 {
            Ok(gs) => {
                assert(init + (seq![last] + gs) =~= fs + gs);
            },
            Err(_) => {},
        }
    }
}


/// A size update as the encoder writes it is one representation that
/// applies the same limit to the decoder's table and yields no field.
proof fn lemma_size_update_step(t: TableView, h: int, n: nat, rest: Seq<u8>)
    requires
        n <= t.hard_max_size,
        t.hard_max_size <= h,
        n <= 0x7fff_ffff_ffff_ffff,
        n <= usize::MAX,
    ensures
        block_step(with_hard(t, h), encode_int_spec(n, 5, 0x20) + rest) == Ok::<(TableView, Option<FieldView>, int), Http2Error>(
            (with_hard(set_max_spec(t, n as int), h), None, encode_int_spec(n, 5, 0x20).len() as int),
        ),
{
    assert(p2(5) == 32) by {
        reveal_with_fuel(p2, 6);
    }
    lemma_first_byte(n, 5, 0x20, rest);
    lemma_int_round_trip(n as u64, 5, 0x20, rest);
    lemma_set_max_hard(t, h, n as int);
}

/// A block that starts with a size update decodes as the rest does
/// under the new limit.
proof fn lemma_decode_after_update(t: TableView, h: int, n: nat, rest: Seq<u8>)
    requires
        n <= t.hard_max_size,
        t.hard_max_size <= h,
        n <= 0x7fff_ffff_ffff_ffff,
        n <= usize::MAX,
    ensures
        decode_block_spec(with_hard(t, h), encode_int_spec(n, 5, 0x20) + rest, 0) == decode_block_spec(
            with_hard(set_max_spec(t, n as int), h),
            rest,
            0,
        ),
{
    let b = encode_int_spec(n, 5, 0x20);
    assert(p2(5) == 32) by {
        reveal_with_fuel(p2, 6);
    }
    lemma_size_update_step(t, h, n, rest);
    lemma_first_byte(n, 5, 0x20, rest);
    assert((b + rest).skip(b.len() as int) =~= rest);
    let x = decode_block_spec(with_hard(set_max_spec(t, n as int), h), rest, 0);
    match x.1 {
        Ok(gs) => {
            assert(Seq::<FieldView>::empty() + gs =~= gs);
        },
        Err(_) => {},
    }
}

/// The size updates a block starts with read back as the same limits,
/// with no field.
proof fn lemma_size_updates_round_trip(e: EncoderView, h: int, rest: Seq<u8>)
    requires
        encoder_wf(e),
        e.table.hard_max_size <= h,
        e.table.hard_max_size <= 0x7fff_ffff_ffff_ffff,
    ensures
        table_wf(size_updates(e).1.table),
        decode_block_spec(with_hard(e.table, h), size_updates(e).0 + rest, 0) == decode_block_spec(
            with_hard(size_updates(e).1.table, h),
            rest,
            0,
        ),
{
    let first = e.min_since < e.signalled;
    let t1 = if first {
        set_max_spec(e.table, e.min_since)
    } else {
        e.table
    };
    let s1 = if first {
        e.min_since
    } else {
        e.signalled
    };
    let b2 = if e.target != s1 {
        encode_int_spec(e.target as nat, 5, 0x20)
    } else {
        Seq::empty()
    };
    if first {
        lemma_set_max_wf(e.table, e.min_since);
        lemma_evict_limits_hard(e.table, e.min_since);
        let b1 = encode_int_spec(e.min_since as nat, 5, 0x20);
        lemma_decode_after_update(e.table, h, e.min_since as nat, b2 + rest);
        assert(size_updates(e).0 + rest =~= b1 + (b2 + rest));
    } else {
        assert(size_updates(e).0 + rest =~= b2 + rest);
    }
    if e.target != s1 {
        lemma_set_max_wf(t1, e.target);
        lemma_decode_after_update(t1, h, e.target as nat, rest);
    } else {
        assert(b2 + rest =~= rest);
    }
}

proof fn lemma_evict_limits_hard(t: TableView, n: int)
    requires
        table_wf(t),
        0 <= n <= t.hard_max_size,
    ensures
        set_max_spec(t, n).hard_max_size == t.hard_max_size,
        set_max_spec(t, n).max_size == n,
{
    lemma_evict_limits(TableView { max_size: n, ..t });
}

/// Every field of a block within its bound is within the bound too.
proof fn lemma_block_bound_fields(fs: Seq<FieldView>)
    ensures
        block_bound(fs) >= 8,
        forall|i: int| 0 <= i < fs.len() ==> block_bound(fs) >= 8 + field_bound(#[trigger] fs[i]),
    decreases fs.len(),
{
    if fs.len() > 0 {
        lemma_block_bound_fields(fs.drop_last());
        assert forall|i: int| 0 <= i < fs.len() implies block_bound(fs) >= 8 + field_bound(#[trigger] fs[i]) by {
            if i < fs.len() - 1 {
                assert(fs[i] == fs.drop_last()[i]);
            }
        }
    }
}

/// Decoding a block the encoder wrote, with the decoder's table in step
/// with the encoder's model of it (the same entries, size and limit,
/// under a ceiling at least the encoder's), gives back exactly the
/// fields, and leaves the decoder's table in step again: what a decoder
/// reads is what was written, and the two tables never drift apart.
/// Stated for encoders whose table ceiling and block cap stay below
/// 2^63, the largest integer the decoder reads.
pub proof fn lemma_encode_decode_round_trip<S: SensitivityPolicy>(
    p: S,
    e: EncoderView,
    fs: Seq<FieldView>,
    d: TableView,
)
    requires
        encoder_wf(e),
        d == with_hard(e.table, d.hard_max_size),
        e.table.hard_max_size <= d.hard_max_size,
        e.table.hard_max_size <= 0x7fff_ffff_ffff_ffff,
        e.max_block <= 0x7fff_ffff_ffff_ffff,
        encode_outcome(p, e, fs) is Ok,
    ensures
        decode_block_spec(d, encode_outcome(p, e, fs)->Ok_0.0, 0) == (
            with_hard(encode_outcome(p, e, fs)->Ok_0.1.table, d.hard_max_size),
            Ok::<Seq<FieldView>, Http2Error>(fs),
        ),
{
    let h = d.hard_max_size;
    let (b0, e1) = size_updates(e);
    let (b1, t2) = fields_repr(p, e1.table, fs, e.huffman);
    lemma_block_bound_fields(fs);
    assert forall|i: int| 0 <= i < fs.len() implies field_small(#[trigger] fs[i]) by {
        assert(block_bound(fs) >= 8 + field_bound(fs[i]));
    }
    lemma_size_updates_round_trip(e, h, b1);
    lemma_fields_round_trip(p, e1.table, h, fs, e.huffman, Seq::empty(), 0);
    assert(b1 + Seq::<u8>::empty() =~= b1);
    assert(fs + Seq::<FieldView>::empty() =~= fs);
}

} // verus!

use vstd::prelude::*;
use vstd::utf8::*;
use crate::bytes::{le64, lemma_le32_at, lemma_le64_at, u32_bytes, u64_bytes};
use crate::codec::{
    blob_of, decode_status, encoding, hdr, header_bytes, magic, point_at, point_bytes, points_bytes,
    points_of, points_start, region_bytes, table_bytes, table_of, HEADER_LEN,
};
use crate::error::NwtError;
use crate::lookup::{
    count_sum, counts_match, lemma_count_sum_matches, lemma_count_sum_mono,
    lemma_total_points_prefix, total_points,
};
use crate::sparse::{GridPoint, PolyidEntry};

verus! {

/// The points of each entry, in order.
pub open spec fn entries_data(e: Seq<PolyidEntry>) -> Seq<Seq<GridPoint>> {
    e.map_values(|x: PolyidEntry| x.data@)
}

proof fn lemma_sub_right(a: Seq<u8>, b: Seq<u8>, s: int, t: int)
    requires
        0 <= s <= t <= b.len(),
    ensures
        (a + b).subrange(a.len() + s, a.len() + t) == b.subrange(s, t),
{
    assert((a + b).subrange(a.len() + s, a.len() + t) =~= b.subrange(s, t));
}

proof fn lemma_sub_left(a: Seq<u8>, b: Seq<u8>, s: int, t: int)
    requires
        0 <= s <= t <= a.len(),
    ensures
        (a + b).subrange(s, t) == a.subrange(s, t),
{
    assert((a + b).subrange(s, t) =~= a.subrange(s, t));
}

proof fn lemma_table_bytes(t: Seq<(u64, u64)>)
    ensures
        table_bytes(t).len() == 16 * t.len(),
        forall|i: int|
            0 <= i < t.len() ==> table_bytes(t).subrange(16 * i, 16 * i + 8) == u64_bytes(
                (#[trigger] t[i]).0,
            ) && table_bytes(t).subrange(16 * i + 8, 16 * i + 16) == u64_bytes(t[i].1),
    decreases t.len(),
{
    if t.len() > 0 {
        let p = t.drop_last();
        lemma_table_bytes(p);
        let pb = table_bytes(p);
        let tail = u64_bytes(t.last().0) + u64_bytes(t.last().1);
        assert(table_bytes(t) =~= pb + tail);
        assert forall|i: int| 0 <= i < t.len() implies table_bytes(t).subrange(
            16 * i,
            16 * i + 8,
        ) == u64_bytes((#[trigger] t[i]).0) && table_bytes(t).subrange(16 * i + 8, 16 * i + 16)
            == u64_bytes(t[i].1) by {
            if i < p.len() {
                assert(p[i] == t[i]);
                lemma_sub_left(pb, tail, 16 * i, 16 * i + 8);
                lemma_sub_left(pb, tail, 16 * i + 8, 16 * i + 16);
            } else {
                lemma_sub_right(pb, tail, 0, 8);
                lemma_sub_right(pb, tail, 8, 16);
                assert(tail.subrange(0, 8) =~= u64_bytes(t.last().0));
                assert(tail.subrange(8, 16) =~= u64_bytes(t.last().1));
            }
        }
    }
}

proof fn lemma_region_bytes(pts: Seq<GridPoint>)
    ensures
        region_bytes(pts).len() == 20 * pts.len(),
        forall|k: int|
            0 <= k < pts.len() ==> region_bytes(pts).subrange(20 * k, 20 * k + 20)
                == point_bytes(#[trigger] pts[k]),
    decreases pts.len(),
{
    if pts.len() > 0 {
        let p = pts.drop_last();
        lemma_region_bytes(p);
        let pb = region_bytes(p);
        let tail = point_bytes(pts.last());
        assert forall|k: int| 0 <= k < pts.len() implies region_bytes(pts).subrange(
            20 * k,
            20 * k + 20,
        ) == point_bytes(#[trigger] pts[k]) by {
            if k < p.len() {
                assert(p[k] == pts[k]);
                lemma_sub_left(pb, tail, 20 * k, 20 * k + 20);
            } else {
                lemma_sub_right(pb, tail, 0, 20);
                assert(tail.subrange(0, 20) =~= tail);
            }
        }
    }
}

proof fn lemma_points_bytes(e: Seq<PolyidEntry>)
    ensures
        points_bytes(e).len() == 20 * total_points(e, e.len() as int),
        forall|i: int, k: int|
            0 <= i < e.len() && 0 <= k < e[i].data@.len() ==> points_bytes(e).subrange(
                20 * (total_points(e, i) + k),
                20 * (total_points(e, i) + k) + 20,
            ) == point_bytes(#[trigger] e[i].data@[k]),
    decreases e.len(),
{
    if e.len() > 0 {
        let p = e.drop_last();
        lemma_points_bytes(p);
        lemma_region_bytes(e.last().data@);
        lemma_total_points_prefix(p, e, p.len() as int);
        let pb = points_bytes(p);
        let tail = region_bytes(e.last().data@);
        assert forall|i: int, k: int|
            0 <= i < e.len() && 0 <= k < e[i].data@.len() implies points_bytes(e).subrange(
            20 * (total_points(e, i) + k),
            20 * (total_points(e, i) + k) + 20,
        ) == point_bytes(#[trigger] e[i].data@[k]) by {
            if i < p.len() {
                assert(p[i] == e[i]);
                lemma_total_points_prefix(p, e, i);
                lemma_total_points_le(p, i + 1, p.len() as int);
                assert(total_points(p, i) + p[i].data@.len() <= total_points(p, p.len() as int));
                assert(k + 1 <= p[i].data@.len());
                assert(pb.len() == 20 * total_points(p, p.len() as int));
                assert(total_points(e, i) + k + 1 <= total_points(p, p.len() as int));
                lemma_sub_left(
                    pb,
                    tail,
                    20 * (total_points(e, i) + k),
                    20 * (total_points(e, i) + k) + 20,
                );
            } else {
                lemma_sub_right(pb, tail, 20 * k, 20 * k + 20);
            }
        }
    }
}

proof fn lemma_total_points_le(e: Seq<PolyidEntry>, i: int, j: int)
    requires
        1 <= i <= j <= e.len(),
    ensures
        total_points(e, i - 1) + e[i - 1].data@.len() <= total_points(e, j),
    decreases j - i,
{
    if i < j {
        lemma_total_points_le(e, i, j - 1);
    }
}

proof fn lemma_point_at(d: Seq<u8>, q: int, p: GridPoint)
    requires
        0 <= q,
        q + 20 <= d.len(),
        d.subrange(q, q + 20) == point_bytes(p),
    ensures
        point_at(d, q) == p,
{
    let b = point_bytes(p);
    assert(d.subrange(q, q + 4) =~= u32_bytes(p.0)) by {
        assert(d.subrange(q, q + 4) =~= b.subrange(0, 4));
    }
    assert(d.subrange(q + 4, q + 8) =~= u32_bytes(p.1)) by {
        assert(d.subrange(q + 4, q + 8) =~= b.subrange(4, 8));
    }
    assert(d.subrange(q + 8, q + 12) =~= u32_bytes(p.2)) by {
        assert(d.subrange(q + 8, q + 12) =~= b.subrange(8, 12));
    }
    assert(d.subrange(q + 12, q + 16) =~= u32_bytes(p.3)) by {
        assert(d.subrange(q + 12, q + 16) =~= b.subrange(12, 16));
    }
    assert(d.subrange(q + 16, q + 20) =~= u32_bytes(p.4)) by {
        assert(d.subrange(q + 16, q + 20) =~= b.subrange(16, 20));
    }
    lemma_le32_at(d, q, p.0);
    lemma_le32_at(d, q + 4, p.1);
    lemma_le32_at(d, q + 8, p.2);
    lemma_le32_at(d, q + 12, p.3);
    lemma_le32_at(d, q + 16, p.4);
}

proof fn lemma_header(ml: u64, n: u64, lat_len: u64, lon_len: u64, rest: Seq<u8>)
    requires
        HEADER_LEN + ml <= u64::MAX,
    ensures
        ({
            let d = header_bytes(ml, n, lat_len, lon_len) + rest;
            &&& d.subrange(0, 4) == magic()
            &&& hdr(d, 0) == ml
            &&& hdr(d, 1) == n
            &&& hdr(d, 2) == lat_len
            &&& hdr(d, 3) == lon_len
            &&& hdr(d, 4) == HEADER_LEN
            &&& hdr(d, 5) == HEADER_LEN + ml
        }),
{
    let h = header_bytes(ml, n, lat_len, lon_len);
    let d = h + rest;
    assert(h.len() == 52);
    assert(d.subrange(0, 4) =~= magic());
    assert(d.subrange(4, 12) =~= u64_bytes(ml));
    assert(d.subrange(12, 20) =~= u64_bytes(n));
    assert(d.subrange(20, 28) =~= u64_bytes(lat_len));
    assert(d.subrange(28, 36) =~= u64_bytes(lon_len));
    assert(d.subrange(36, 44) =~= u64_bytes(HEADER_LEN));
    assert(d.subrange(44, 52) =~= u64_bytes((HEADER_LEN + ml) as u64));
    lemma_le64_at(d, 4, ml);
    lemma_le64_at(d, 12, n);
    lemma_le64_at(d, 20, lat_len);
    lemma_le64_at(d, 28, lon_len);
    lemma_le64_at(d, 36, HEADER_LEN);
    lemma_le64_at(d, 44, (HEADER_LEN + ml) as u64);
}

proof fn lemma_table_in(hm: Seq<u8>, t: Seq<(u64, u64)>, rest: Seq<u8>)
    ensures
        forall|i: int|
            0 <= i < t.len() ==> le64((hm + table_bytes(t)) + rest, hm.len() + 16 * i) == (
            #[trigger] t[i]).0 && le64((hm + table_bytes(t)) + rest, hm.len() + 16 * i + 8)
                == t[i].1,
{
    let tb = table_bytes(t);
    let hmt = hm + tb;
    let d = hmt + rest;
    let lo = hm.len() as int;
    lemma_table_bytes(t);
    assert forall|i: int| 0 <= i < t.len() implies le64(d, lo + 16 * i) == (#[trigger] t[i]).0
        && le64(d, lo + 16 * i + 8) == t[i].1 by {
        lemma_sub_left(hmt, rest, lo + 16 * i, lo + 16 * i + 8);
        lemma_sub_left(hmt, rest, lo + 16 * i + 8, lo + 16 * i + 16);
        lemma_sub_right(hm, tb, 16 * i, 16 * i + 8);
        lemma_sub_right(hm, tb, 16 * i + 8, 16 * i + 16);
        lemma_le64_at(d, lo + 16 * i, t[i].0);
        lemma_le64_at(d, lo + 16 * i + 8, t[i].1);
    }
}

proof fn lemma_points_in(hmt: Seq<u8>, t: Seq<(u64, u64)>, e: Seq<PolyidEntry>)
    requires
        counts_match(t, e),
    ensures
        (hmt + points_bytes(e)).len() == hmt.len() + 20 * count_sum(t, t.len() as int),
        forall|i: int, k: int|
            0 <= i < e.len() && 0 <= k < e[i].data@.len() ==> #[trigger] e[i].data@[k]
                == point_at(hmt + points_bytes(e), hmt.len() + 20 * (count_sum(t, i) + k)),
{
    let pb = points_bytes(e);
    let d = hmt + pb;
    let ps = hmt.len() as int;
    lemma_points_bytes(e);
    lemma_count_sum_matches(t, e, t.len() as int);
    assert forall|i: int, k: int|
        0 <= i < e.len() && 0 <= k < e[i].data@.len() implies #[trigger] e[i].data@[k]
        == point_at(d, ps + 20 * (count_sum(t, i) + k)) by {
        lemma_count_sum_matches(t, e, i);
        let q = 20 * (total_points(e, i) + k);
        lemma_total_points_le(e, i + 1, e.len() as int);
        lemma_sub_right(hmt, pb, q, q + 20);
        lemma_point_at(d, ps + q, e[i].data@[k]);
    }
}

proof fn lemma_layout(meta: Seq<char>, lat_len: u64, lon_len: u64, t: Seq<(u64, u64)>, e: Seq<PolyidEntry>)
    requires
        counts_match(t, e),
        t.len() <= u64::MAX,
        encode_utf8(meta).len() + HEADER_LEN <= u64::MAX,
    ensures
        ({
            let d = encoding(encode_utf8(meta), lat_len, lon_len, t, e);
            let ml = encode_utf8(meta).len();
            &&& d.subrange(0, 4) == magic()
            &&& hdr(d, 0) == ml
            &&& hdr(d, 1) == t.len()
            &&& hdr(d, 2) == lat_len
            &&& hdr(d, 3) == lon_len
            &&& hdr(d, 4) == HEADER_LEN
            &&& hdr(d, 5) == HEADER_LEN + ml
            &&& blob_of(d) == encode_utf8(meta)
            &&& valid_utf8(blob_of(d))
            &&& decode_utf8(blob_of(d)) == meta
            &&& table_of(d) == t
            &&& points_start(d) == HEADER_LEN + ml + 16 * t.len()
            &&& d.len() == points_start(d) + 20 * count_sum(t, t.len() as int)
            &&& points_of(e, d)
        }),
{
    let m = encode_utf8(meta);
    let ml = m.len();
    let h = header_bytes(ml as u64, t.len() as u64, lat_len, lon_len);
    let tb = table_bytes(t);
    let pb = points_bytes(e);
    let hm = h + m;
    let hmt = hm + tb;
    let d = encoding(m, lat_len, lon_len, t, e);
    reveal(encoding);
    assert(d == hmt + pb);
    assert(h.len() == 52);
    lemma_table_bytes(t);
    encode_utf8_valid_utf8(meta);
    encode_utf8_decode_utf8(meta);
    assert(d =~= h + (m + tb + pb));
    lemma_header(ml as u64, t.len() as u64, lat_len, lon_len, m + tb + pb);
    assert(blob_of(d) =~= m);
    lemma_table_in(hm, t, pb);
    assert(table_of(d) =~= t);
    lemma_points_in(hmt, t, e);
}

/// Decoding the encoding of a model gives back its metadata text, its grid
/// dimensions, its lookup table, and the points of every region, point for
/// point and field for field.
pub proof fn lemma_round_trip(
    meta: Seq<char>,
    lat_len: u64,
    lon_len: u64,
    t: Seq<(u64, u64)>,
    e: Seq<PolyidEntry>,
)
    requires
        counts_match(t, e),
        t.len() <= u64::MAX,
        encode_utf8(meta).len() + HEADER_LEN <= u64::MAX,
    ensures
        ({
            let d = encoding(encode_utf8(meta), lat_len, lon_len, t, e);
            &&& decode_status(d) is None
            &&& decode_utf8(blob_of(d)) == meta
            &&& hdr(d, 2) == lat_len
            &&& hdr(d, 3) == lon_len
            &&& table_of(d) == t
            &&& points_of(e, d)
            &&& forall|f: Seq<PolyidEntry>| points_of(f, d) ==> entries_data(f) == entries_data(e)
        }),
{
    let d = encoding(encode_utf8(meta), lat_len, lon_len, t, e);
    lemma_layout(meta, lat_len, lon_len, t, e);
    lemma_count_sum_mono(t, 0, t.len() as int);
    assert forall|f: Seq<PolyidEntry>| points_of(f, d) implies entries_data(f) == entries_data(
        e,
    ) by {
        assert forall|i: int| 0 <= i < f.len() implies (#[trigger] f[i]).data@ == e[i].data@ by {
            assert(f[i].data@ =~= e[i].data@);
        }
        assert(entries_data(f) =~= entries_data(e));
    }
}

/// A buffer whose first four bytes are not the magic token is rejected with
/// `FormatMismatch`, whatever the rest of it holds.
pub proof fn lemma_magic_rejection(d: Seq<u8>)
    requires
        d.len() >= 4,
        d.subrange(0, 4) != magic(),
    ensures
        decode_status(d) == Some(NwtError::FormatMismatch),
{
}

/// Every proper prefix of the encoding of a model, cut inside the header,
/// the metadata, the lookup table or the points, is rejected with
/// `TruncatedData`.
pub proof fn lemma_truncation(
    meta: Seq<char>,
    lat_len: u64,
    lon_len: u64,
    t: Seq<(u64, u64)>,
    e: Seq<PolyidEntry>,
    k: int,
)
    requires
        counts_match(t, e),
        t.len() <= u64::MAX,
        encode_utf8(meta).len() + HEADER_LEN <= u64::MAX,
        0 <= k < encoding(encode_utf8(meta), lat_len, lon_len, t, e).len(),
    ensures
        decode_status(encoding(encode_utf8(meta), lat_len, lon_len, t, e).take(k)) == Some(
            NwtError::TruncatedData,
        ),
{
    let d = encoding(encode_utf8(meta), lat_len, lon_len, t, e);
    let p = d.take(k);
    lemma_layout(meta, lat_len, lon_len, t, e);
    assert(forall|x: int| 0 <= x < k ==> p[x] == d[x]);
    if k >= HEADER_LEN {
        assert(p.subrange(0, 4) =~= d.subrange(0, 4));
        assert forall|j: int| 0 <= j < 6 implies hdr(p, j) == hdr(d, j) by {
            assert(p[4 + 8 * j] == d[4 + 8 * j] && p[5 + 8 * j] == d[5 + 8 * j]);
            assert(p[6 + 8 * j] == d[6 + 8 * j] && p[7 + 8 * j] == d[7 + 8 * j]);
            assert(p[8 + 8 * j] == d[8 + 8 * j] && p[9 + 8 * j] == d[9 + 8 * j]);
            assert(p[10 + 8 * j] == d[10 + 8 * j] && p[11 + 8 * j] == d[11 + 8 * j]);
        }
        if hdr(p, 4) + hdr(p, 0) <= p.len() {
            assert(blob_of(p) =~= blob_of(d));
            if points_start(p) <= p.len() {
                assert forall|i: int| 0 <= i < t.len() implies #[trigger] table_of(p)[i]
                    == table_of(d)[i] by {
                    let q = hdr(d, 5) + 16 * i;
                    assert(p[q] == d[q] && p[q + 1] == d[q + 1] && p[q + 2] == d[q + 2]);
                    assert(p[q + 3] == d[q + 3] && p[q + 4] == d[q + 4] && p[q + 5] == d[q + 5]);
                    assert(p[q + 6] == d[q + 6] && p[q + 7] == d[q + 7] && p[q + 8] == d[q + 8]);
                    assert(p[q + 9] == d[q + 9] && p[q + 10] == d[q + 10] && p[q + 11] == d[q + 11]);
                    assert(p[q + 12] == d[q + 12] && p[q + 13] == d[q + 13]);
                    assert(p[q + 14] == d[q + 14] && p[q + 15] == d[q + 15]);
                }
                assert(table_of(p) =~= table_of(d));
            }
        }
    } else if k >= 4 {
        assert(p.subrange(0, 4) =~= d.subrange(0, 4));
    }
}

} // verus!

use vstd::prelude::*;
use vstd::utf8::*;
use crate::bytes::{le32, le64, push_u32, push_u64, read_u32, read_u64, u32_bytes, u64_bytes};
use crate::error::NwtError;
use crate::lookup::{count_sum, lemma_count_sum_mono};
use crate::sparse::{GridPoint, PolyidEntry};

verus! {

/// Length in bytes of the fixed header; also where the metadata blob starts.
pub const HEADER_LEN: u64 = 52;

/// The magic token `NEWT`.
pub open spec fn magic() -> Seq<u8> {
    seq![0x4eu8, 0x45u8, 0x57u8, 0x54u8]
}

/// The 20-byte record of one point.
pub open spec fn point_bytes(p: GridPoint) -> Seq<u8> {
    u32_bytes(p.0) + u32_bytes(p.1) + u32_bytes(p.2) + u32_bytes(p.3) + u32_bytes(p.4)
}

/// The records of a region's points, in order.
pub open spec fn region_bytes(pts: Seq<GridPoint>) -> Seq<u8>
    decreases pts.len(),
{
    if pts.len() == 0 {
        Seq::empty()
    } else {
        region_bytes(pts.drop_last()) + point_bytes(pts.last())
    }
}

/// The point section: every region's records, region after region.
pub open spec fn points_bytes(e: Seq<PolyidEntry>) -> Seq<u8>
    decreases e.len(),
{
    if e.len() == 0 {
        Seq::empty()
    } else {
        points_bytes(e.drop_last()) + region_bytes(e.last().data@)
    }
}

/// The lookup table section: offset then count, row after row.
pub open spec fn table_bytes(t: Seq<(u64, u64)>) -> Seq<u8>
    decreases t.len(),
{
    if t.len() == 0 {
        Seq::empty()
    } else {
        table_bytes(t.drop_last()) + u64_bytes(t.last().0) + u64_bytes(t.last().1)
    }
}

/// The header: magic, metadata length, region count, grid rows, grid
/// columns, metadata offset and lookup table offset.
pub open spec fn header_bytes(meta_len: u64, regions: u64, lat_len: u64, lon_len: u64) -> Seq<
    u8,
> {
    magic() + u64_bytes(meta_len) + u64_bytes(regions) + u64_bytes(lat_len) + u64_bytes(lon_len)
        + u64_bytes(HEADER_LEN) + u64_bytes((HEADER_LEN + meta_len) as u64)
}

/// The binary cache file of a model.
#[verifier::opaque]
pub open spec fn encoding(
    meta: Seq<u8>,
    lat_len: u64,
    lon_len: u64,
    t: Seq<(u64, u64)>,
    e: Seq<PolyidEntry>,
) -> Seq<u8> {
    header_bytes(meta.len() as u64, t.len() as u64, lat_len, lon_len) + meta + table_bytes(t)
        + points_bytes(e)
}

/// Header field `k` (0: metadata length, 1: region count, 2: rows,
/// 3: columns, 4: metadata offset, 5: lookup table offset).
pub open spec fn hdr(d: Seq<u8>, k: int) -> u64 {
    le64(d, 4 + 8 * k)
}

/// The metadata blob that the header points at.
pub open spec fn blob_of(d: Seq<u8>) -> Seq<u8> {
    d.subrange(hdr(d, 4) as int, hdr(d, 4) + hdr(d, 0))
}

/// The lookup table that the header points at.
pub open spec fn table_of(d: Seq<u8>) -> Seq<(u64, u64)> {
    Seq::new(
        hdr(d, 1) as nat,
        |i: int| (le64(d, hdr(d, 5) + 16 * i), le64(d, hdr(d, 5) + 16 * i + 8)),
    )
}

/// Where the point section starts.
pub open spec fn points_start(d: Seq<u8>) -> int {
    hdr(d, 5) + 16 * hdr(d, 1)
}

/// The point whose record starts at position `p`.
pub open spec fn point_at(d: Seq<u8>, p: int) -> GridPoint {
    (le32(d, p), le32(d, p + 4), le32(d, p + 8), le32(d, p + 12), le32(d, p + 16))
}

/// Why a buffer does not decode, checked in this order; `None` when it does.
pub open spec fn decode_status(d: Seq<u8>) -> Option<NwtError> {
    if d.len() < 4 {
        Some(NwtError::TruncatedData)
    } else if d.subrange(0, 4) != magic() {
        Some(NwtError::FormatMismatch)
    } else if d.len() < HEADER_LEN {
        Some(NwtError::TruncatedData)
    } else if hdr(d, 4) + hdr(d, 0) > d.len() {
        Some(NwtError::TruncatedData)
    } else if !valid_utf8(blob_of(d)) {
        Some(NwtError::EncodingError)
    } else if points_start(d) > d.len() {
        Some(NwtError::TruncatedData)
    } else if points_start(d) + 20 * count_sum(table_of(d), hdr(d, 1) as int) > d.len() {
        Some(NwtError::TruncatedData)
    } else {
        None
    }
}

/// The region entries hold, for each table row, as many points as its count,
/// read one after another from the point section.
pub open spec fn points_of(e: Seq<PolyidEntry>, d: Seq<u8>) -> bool {
    let t = table_of(d);
    &&& e.len() == t.len()
    &&& forall|i: int|
        0 <= i < e.len() ==> {
            &&& (#[trigger] e[i]).data@.len() == t[i].1
            &&& forall|k: int|
                0 <= k < e[i].data@.len() ==> #[trigger] e[i].data@[k] == point_at(
                    d,
                    points_start(d) + 20 * (count_sum(t, i) + k),
                )
        }
}

/// What a binary cache file holds, metadata still as text.
#[derive(Debug)]
pub struct NwtFrame {
    pub metadata_text: String,
    pub lat_len: u64,
    pub lon_len: u64,
    pub lookup_table: Vec<(u64, u64)>,
    pub polyid_gridpoints: Vec<PolyidEntry>,
}

/// Relies on String::from_utf8: it accepts exactly the valid UTF-8 byte
/// sequences, and the string it returns decodes them.
#[verifier::external_body]
fn utf8_text(b: Vec<u8>) -> (r: Option<String>)
    ensures
        r is Some <==> valid_utf8(b@),
        r matches Some(s) ==> s@ == decode_utf8(b@),
{
    String::from_utf8(b).ok()
}

/// Serialises a model to the binary cache layout.
pub fn encode(
    meta: &str,
    lat_len: u64,
    lon_len: u64,
    table: &Vec<(u64, u64)>,
    entries: &Vec<PolyidEntry>,
) -> (r: Vec<u8>)
    requires
        encode_utf8(meta@).len() + HEADER_LEN <= u64::MAX,
    ensures
        r@ == encoding(encode_utf8(meta@), lat_len, lon_len, table@, entries@),
{
    let mb = meta.as_bytes();
    let mut out: Vec<u8> = Vec::new();
    out.push(0x4eu8);
    out.push(0x45u8);
    out.push(0x57u8);
    out.push(0x54u8);
    assert(out@ =~= magic());
    let ml = mb.len() as u64;
    push_u64(&mut out, ml);
    push_u64(&mut out, table.len() as u64);
    push_u64(&mut out, lat_len);
    push_u64(&mut out, lon_len);
    push_u64(&mut out, HEADER_LEN);
    push_u64(&mut out, HEADER_LEN + ml);
    let ghost head = out@;
    assert(head == header_bytes(ml, table@.len() as u64, lat_len, lon_len));
    let mut i: usize = 0;
    while i < mb.len()
        invariant
            i <= mb@.len(),
            out@ == head + mb@.subrange(0, i as int),
        decreases mb@.len() - i,
    {
        out.push(mb[i]);
        assert(mb@.subrange(0, i + 1) =~= mb@.subrange(0, i as int).push(mb@[i as int]));
        i = i + 1;
    }
    assert(mb@.subrange(0, mb@.len() as int) =~= mb@);
    let ghost hm = out@;
    let mut j: usize = 0;
    while j < table.len()
        invariant
            j <= table@.len(),
            out@ == hm + table_bytes(table@.take(j as int)),
        decreases table@.len() - j,
    {
        let row = table[j];
        push_u64(&mut out, row.0);
        push_u64(&mut out, row.1);
        assert(table@.take(j + 1).drop_last() =~= table@.take(j as int));
        j = j + 1;
    }
    assert(table@.take(table@.len() as int) =~= table@);
    let ghost hmt = out@;
    let mut a: usize = 0;
    while a < entries.len()
        invariant
            a <= entries@.len(),
            out@ == hmt + points_bytes(entries@.take(a as int)),
        decreases entries@.len() - a,
    {
        let pts = &entries[a].data;
        let ghost before = out@;
        let mut k: usize = 0;
        while k < pts.len()
            invariant
                a < entries@.len(),
                pts@ == entries@[a as int].data@,
                k <= pts@.len(),
                out@ == before + region_bytes(pts@.take(k as int)),
            decreases pts@.len() - k,
        {
            let p = pts[k];
            push_u32(&mut out, p.0);
            push_u32(&mut out, p.1);
            push_u32(&mut out, p.2);
            push_u32(&mut out, p.3);
            push_u32(&mut out, p.4);
            assert(pts@.take(k + 1).drop_last() =~= pts@.take(k as int));
            k = k + 1;
        }
        assert(pts@.take(pts@.len() as int) =~= pts@);
        assert(entries@.take(a + 1).drop_last() =~= entries@.take(a as int));
        a = a + 1;
    }
    assert(entries@.take(entries@.len() as int) =~= entries@);
    reveal(encoding);
    out
}

/// Reads a binary cache file back. Fails, in this order, with
/// `TruncatedData` on a buffer shorter than the magic token,
/// `FormatMismatch` on a wrong token, `TruncatedData` on a short header or
/// metadata blob, `EncodingError` on a blob that is not UTF-8, and
/// `TruncatedData` on a short lookup table or point section.
pub fn decode(data: &[u8]) -> (r: Result<NwtFrame, NwtError>)
    ensures
        match r {
            Ok(f) => {
                &&& decode_status(data@) is None
                &&& f.metadata_text@ == decode_utf8(blob_of(data@))
                &&& f.lat_len == hdr(data@, 2)
                &&& f.lon_len == hdr(data@, 3)
                &&& f.lookup_table@ == table_of(data@)
                &&& points_of(f.polyid_gridpoints@, data@)
            },
            Err(e) => decode_status(data@) == Some(e),
        },
{
    let ghost d = data@;
    let len = data.len();
    if len < 4 {
        return Err(NwtError::TruncatedData);
    }
    if !(data[0] == 0x4eu8 && data[1] == 0x45u8 && data[2] == 0x57u8 && data[3] == 0x54u8) {
        proof {
            if d.subrange(0, 4) == magic() {
                assert(d.subrange(0, 4)[0] == d[0] && d.subrange(0, 4)[1] == d[1]);
                assert(d.subrange(0, 4)[2] == d[2] && d.subrange(0, 4)[3] == d[3]);
            }
        }
        return Err(NwtError::FormatMismatch);
    }
    assert(d.subrange(0, 4) =~= magic());
    if len < 52 {
        return Err(NwtError::TruncatedData);
    }
    let json_len = read_u64(data, 4);
    let n = read_u64(data, 12);
    let lat_len = read_u64(data, 20);
    let lon_len = read_u64(data, 28);
    let json_off = read_u64(data, 36);
    let lookup_off = read_u64(data, 44);
    assert(json_len == hdr(d, 0) && n == hdr(d, 1) && lat_len == hdr(d, 2));
    assert(lon_len == hdr(d, 3) && json_off == hdr(d, 4) && lookup_off == hdr(d, 5));
    let len64 = len as u64;
    if json_off > len64 || json_len > len64 - json_off {
        return Err(NwtError::TruncatedData);
    }
    let start = json_off as usize;
    let stop = start + json_len as usize;
    let mut blob: Vec<u8> = Vec::new();
    let mut p: usize = start;
    while p < stop
        invariant
            start <= p <= stop,
            stop <= len,
            len == d.len(),
            data@ == d,
            blob@ == d.subrange(start as int, p as int),
        decreases stop - p,
    {
        blob.push(data[p]);
        assert(d.subrange(start as int, p + 1) =~= d.subrange(start as int, p as int).push(d[p as int]));
        p = p + 1;
    }
    assert(blob@ == blob_of(d));
    let text = match utf8_text(blob) {
        Some(s) => s,
        None => {
            return Err(NwtError::EncodingError);
        },
    };
    if lookup_off > len64 {
        return Err(NwtError::TruncatedData);
    }
    let mut pos: usize = lookup_off as usize;
    let mut table: Vec<(u64, u64)> = Vec::new();
    let mut i: u64 = 0;
    while i < n
        invariant
            len == d.len(),
            data@ == d,
            d.len() >= HEADER_LEN,
            d.subrange(0, 4) == magic(),
            hdr(d, 4) + hdr(d, 0) <= d.len(),
            valid_utf8(blob_of(d)),
            n == hdr(d, 1),
            lookup_off == hdr(d, 5),
            i <= n,
            pos == lookup_off + 16 * i,
            pos <= len,
            table@ == table_of(d).take(i as int),
        decreases n - i,
    {
        if len - pos < 16 {
            return Err(NwtError::TruncatedData);
        }
        let off = read_u64(data, pos);
        let cnt = read_u64(data, pos + 8);
        table.push((off, cnt));
        assert(table@ =~= table_of(d).take(i + 1));
        pos = pos + 16;
        i = i + 1;
    }
    assert(table@ =~= table_of(d));
    let ghost t = table@;
    let ghost ps = points_start(d);
    let nr = table.len();
    let mut entries: Vec<PolyidEntry> = Vec::new();
    let mut r: usize = 0;
    while r < nr
        invariant
            len == d.len(),
            data@ == d,
            nr == t.len(),
            table@ == t,
            d.len() >= HEADER_LEN,
            d.subrange(0, 4) == magic(),
            hdr(d, 4) + hdr(d, 0) <= d.len(),
            valid_utf8(blob_of(d)),
            t == table_of(d),
            ps <= d.len(),
            ps == points_start(d),
            r <= nr,
            pos == ps + 20 * count_sum(t, r as int),
            pos <= len,
            entries@.len() == r,
            forall|a: int|
                0 <= a < r ==> {
                    &&& (#[trigger] entries@[a]).data@.len() == t[a].1
                    &&& forall|k: int|
                        0 <= k < entries@[a].data@.len() ==> #[trigger] entries@[a].data@[k]
                            == point_at(d, ps + 20 * (count_sum(t, a) + k))
                },
        decreases nr - r,
    {
        let cnt = table[r].1;
        let mut entry = PolyidEntry::new();
        let mut k: u64 = 0;
        while k < cnt
            invariant
                len == d.len(),
                data@ == d,
                r < nr,
                nr == t.len(),
                d.len() >= HEADER_LEN,
                d.subrange(0, 4) == magic(),
                hdr(d, 4) + hdr(d, 0) <= d.len(),
                valid_utf8(blob_of(d)),
                t == table_of(d),
                ps <= d.len(),
                ps == points_start(d),
                cnt == t[r as int].1,
                k <= cnt,
                pos == ps + 20 * (count_sum(t, r as int) + k),
                pos <= len,
                entry.data@.len() == k,
                forall|kk: int|
                    0 <= kk < k ==> #[trigger] entry.data@[kk] == point_at(
                        d,
                        ps + 20 * (count_sum(t, r as int) + kk),
                    ),
            decreases cnt - k,
        {
            if len - pos < 20 {
                proof {
                    lemma_count_sum_mono(t, r + 1, t.len() as int);
                }
                return Err(NwtError::TruncatedData);
            }
            let a = read_u32(data, pos);
            let b = read_u32(data, pos + 4);
            let c = read_u32(data, pos + 8);
            let e = read_u32(data, pos + 12);
            let w = read_u32(data, pos + 16);
            entry.add_point(a, b, c, e, w);
            pos = pos + 20;
            k = k + 1;
        }
        entries.push(entry);
        r = r + 1;
    }
    Ok(NwtFrame { metadata_text: text, lat_len, lon_len, lookup_table: table, polyid_gridpoints: entries })
}

} // verus!

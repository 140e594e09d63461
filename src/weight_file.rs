use vstd::prelude::*;
use vstd::string::StringExecFns;
use vstd::utf8::{decode_utf8, encode_utf8};
use crate::codec::{
    blob_of, decode_status, encode, encoding, hdr, magic, points_of, table_of, NwtFrame, HEADER_LEN,
};
use crate::laws::{entries_data, lemma_round_trip};
use crate::error::NwtError;
use crate::ingest::{
    globals_supported, harvest_attributes, harvested_globals, harvested_vars, vars_supported,
    AttrValue,
};
use crate::lookup::{
    build_lookup_table, counts_agree, counts_match, lemma_total_points_prefix, offsets_consistent,
    total_points,
};
use crate::metadata::{names_distinct, JsonData};
use crate::sparse::{extract_region, region_points, GridPoint, PolyidEntry};

verus! {

/// What ingestion reads from a dense source. Floats are held as their
/// IEEE-754 bit patterns; a variable that the source lacks is `None`.
#[derive(Debug, Clone)]
pub struct DenseSource {
    pub global_attrs: Vec<(String, AttrValue)>,
    pub variables: Vec<(String, Vec<(String, AttrValue)>)>,
    /// The region identifiers.
    pub polyids: Option<Vec<String>>,
    /// The row coordinates; their count is the grid's row count.
    pub lat: Option<Vec<u32>>,
    /// The column coordinates; their count is the grid's column count.
    pub lon: Option<Vec<u32>>,
    /// The weight variable's fill value.
    pub fill_value: Option<u32>,
    /// The weights, region after region, each grid row-major.
    pub weights: Option<Vec<u32>>,
}

impl DenseSource {
    pub open spec fn has_all_fields(&self) -> bool {
        &&& self.polyids is Some
        &&& self.lat is Some
        &&& self.lon is Some
        &&& self.fill_value is Some
        &&& self.weights is Some
    }

    /// The weights hold one grid per region, and grid indices fit in 32 bits.
    pub open spec fn well_shaped(&self) -> bool {
        self.has_all_fields() ==> {
            let n = self.polyids->0@.len();
            let la = self.lat->0@.len();
            let lo = self.lon->0@.len();
            &&& self.weights->0@.len() == n * (la * lo)
            &&& la * lo <= usize::MAX
            &&& la <= u32::MAX + 1
            &&& lo <= u32::MAX + 1
        }
    }
}

/// The region entries, flattened region after region.
pub open spec fn flat_points(e: Seq<PolyidEntry>) -> Seq<GridPoint>
    decreases e.len(),
{
    if e.len() == 0 {
        Seq::empty()
    } else {
        flat_points(e.drop_last()) + e.last().data@
    }
}

/// A weight file: metadata, the source grid's shape, the lookup table and
/// the sparse points of every region.
#[derive(Debug)]
pub struct NextWeightFile {
    json_data: JsonData,
    lat_len: u64,
    lon_len: u64,
    polyid_gridpoints: Vec<PolyidEntry>,
    lookup_table: Vec<(u64, u64)>,
}

impl NextWeightFile {
    pub closed spec fn metadata(&self) -> JsonData {
        self.json_data
    }

    pub closed spec fn dimensions(&self) -> (u64, u64) {
        (self.lat_len, self.lon_len)
    }

    pub closed spec fn table(&self) -> Seq<(u64, u64)> {
        self.lookup_table@
    }

    pub closed spec fn entries(&self) -> Seq<PolyidEntry> {
        self.polyid_gridpoints@
    }

    /// One region identifier, one table row and one entry per region, each
    /// row counting its entry's points.
    pub open spec fn wf(&self) -> bool {
        &&& self.metadata().polyid_list().len() == self.table().len()
        &&& counts_match(self.table(), self.entries())
    }

    /// Builds a weight file from a dense source: harvests the attributes,
    /// records the region identifiers, extracts each region's sparse points
    /// and builds the lookup table. Fails with `UnsupportedAttributeType`
    /// when an attribute has an unsupported type, else with
    /// `MissingRequiredField` when the source lacks a variable.
    pub fn from_weight_file(source: &DenseSource) -> (r: Result<Self, NwtError>)
        requires
            source.well_shaped(),
        ensures
            match r {
                Ok(m) => {
                    let la = source.lat->0@;
                    let lo = source.lon->0@;
                    &&& globals_supported(source.global_attrs@)
                    &&& vars_supported(source.variables@)
                    &&& source.has_all_fields()
                    &&& m.wf()
                    &&& offsets_consistent(m.table())
                    &&& m.metadata().globals() == harvested_globals(source.global_attrs@)
                    &&& m.metadata().variables() == harvested_vars(
                        source.variables@,
                        source.variables@.len() as int,
                    )
                    &&& names_distinct(m.metadata().variables())
                    &&& m.metadata().polyid_list() == source.polyids->0@.map_values(
                        |s: String| s@,
                    )
                    &&& m.dimensions() == (la.len() as u64, lo.len() as u64)
                    &&& forall|i: int|
                        0 <= i < m.entries().len() ==> (#[trigger] m.entries()[i]).data@
                            == region_points(
                            source.weights->0@,
                            i * (la.len() * lo.len()),
                            la,
                            lo,
                            source.fill_value->0,
                        )
                },
                Err(e) => if globals_supported(source.global_attrs@) && vars_supported(
                    source.variables@,
                ) {
                    !source.has_all_fields() && e == NwtError::MissingRequiredField
                } else {
                    e == NwtError::UnsupportedAttributeType
                },
            },
    {
        let mut json = match harvest_attributes(&source.global_attrs, &source.variables) {
            Ok(j) => j,
            Err(e) => {
                return Err(e);
            },
        };
        let polyids = match &source.polyids {
            Some(p) => p,
            None => {
                return Err(NwtError::MissingRequiredField);
            },
        };
        let lat = match &source.lat {
            Some(v) => v,
            None => {
                return Err(NwtError::MissingRequiredField);
            },
        };
        let lon = match &source.lon {
            Some(v) => v,
            None => {
                return Err(NwtError::MissingRequiredField);
            },
        };
        let fill = match source.fill_value {
            Some(f) => f,
            None => {
                return Err(NwtError::MissingRequiredField);
            },
        };
        let weights = match &source.weights {
            Some(v) => v,
            None => {
                return Err(NwtError::MissingRequiredField);
            },
        };
        let ghost g0 = json.globals();
        let ghost v0 = json.variables();
        let mut p: usize = 0;
        while p < polyids.len()
            invariant
                p <= polyids@.len(),
                json.globals() == g0,
                json.variables() == v0,
                json.polyid_list() == polyids@.take(p as int).map_values(|s: String| s@),
            decreases polyids@.len() - p,
        {
            json.add_polyid(polyids[p].clone());
            assert(polyids@.take(p + 1).map_values(|s: String| s@) =~= polyids@.take(
                p as int,
            ).map_values(|s: String| s@).push(polyids@[p as int]@));
            p = p + 1;
        }
        assert(polyids@.take(polyids@.len() as int) =~= polyids@);
        let n = polyids.len();
        let cells = lat.len() * lon.len();
        let wlen = weights.len();
        let mut entries: Vec<PolyidEntry> = Vec::new();
        let mut r: usize = 0;
        while r < n
            invariant
                n == polyids@.len(),
                r <= n,
                cells == lat@.len() * lon@.len(),
                weights@.len() == n * cells,
                wlen == weights@.len(),
                lat@.len() <= u32::MAX + 1,
                lon@.len() <= u32::MAX + 1,
                entries@.len() == r,
                total_points(entries@, r as int) <= r * cells,
                forall|i: int|
                    0 <= i < r ==> (#[trigger] entries@[i]).data@ == region_points(
                        weights@,
                        i * cells,
                        lat@,
                        lon@,
                        fill,
                    ),
            decreases n - r,
        {
            assert(r * cells + cells <= n * cells) by (nonlinear_arith)
                requires
                    r < n,
            ;
            let entry = extract_region(weights, r * cells, lat, lon, fill);
            let ghost before = entries@;
            entries.push(entry);
            proof {
                lemma_total_points_push(before, entry);
                assert((r + 1) * cells == r * cells + cells) by (nonlinear_arith);
            }
            r = r + 1;
        }
        let table = match build_lookup_table(&entries) {
            Some(t) => t,
            // Never taken: every point stands for a cell of `weights`.
            None => {
                return Err(NwtError::TruncatedData);
            },
        };
        Ok(NextWeightFile {
            json_data: json,
            lat_len: lat.len() as u64,
            lon_len: lon.len() as u64,
            polyid_gridpoints: entries,
            lookup_table: table,
        })
    }

    /// Assembles a weight file from a decoded binary cache and its parsed
    /// metadata. Fails with `MetadataDecodeError` when the metadata lists
    /// another number of regions than the lookup table, else with
    /// `TruncatedData` when the table's counts disagree with the points.
    pub fn from_nwt(json_data: JsonData, frame: NwtFrame) -> (r: Result<Self, NwtError>)
        ensures
            match r {
                Ok(m) => {
                    &&& m.wf()
                    &&& m.metadata() == json_data
                    &&& m.dimensions() == (frame.lat_len, frame.lon_len)
                    &&& m.table() == frame.lookup_table@
                    &&& m.entries() == frame.polyid_gridpoints@
                },
                Err(e) => if json_data.polyid_list().len() != frame.lookup_table@.len() {
                    e is MetadataDecodeError
                } else {
                    !counts_match(frame.lookup_table@, frame.polyid_gridpoints@) && e
                        == NwtError::TruncatedData
                },
            },
    {
        let ids = json_data.get_polyids();
        assert(ids@.map_values(|s: String| s@).len() == ids@.len());
        if ids.len() != frame.lookup_table.len() {
            return Err(NwtError::MetadataDecodeError("region count differs from the lookup table".to_owned()));
        }
        if !counts_agree(&frame.lookup_table, &frame.polyid_gridpoints) {
            return Err(NwtError::TruncatedData);
        }
        Ok(NextWeightFile {
            json_data,
            lat_len: frame.lat_len,
            lon_len: frame.lon_len,
            polyid_gridpoints: frame.polyid_gridpoints,
            lookup_table: frame.lookup_table,
        })
    }

    /// The binary cache file of this weight file, with `metadata_json` as its
    /// metadata text.
    pub fn serialize(&self, metadata_json: &str) -> (r: Vec<u8>)
        requires
            encode_utf8(metadata_json@).len() + HEADER_LEN <= u64::MAX,
        ensures
            r@ == encoding(
                encode_utf8(metadata_json@),
                self.dimensions().0,
                self.dimensions().1,
                self.table(),
                self.entries(),
            ),
    {
        encode(metadata_json, self.lat_len, self.lon_len, &self.lookup_table, &self.polyid_gridpoints)
    }

    /// The metadata store.
    pub fn get_metadata(&self) -> (r: &JsonData)
        ensures
            *r == self.metadata(),
    {
        &self.json_data
    }

    /// All global attributes, in order.
    pub fn get_global_attrs(&self) -> (r: &Vec<(String, String)>)
        ensures
            crate::metadata::pairs_view(r@) == self.metadata().globals(),
    {
        self.json_data.get_global_attrs()
    }

    /// The attributes of a variable, or `None` if it is not registered.
    pub fn get_var_attrs(&self, var: String) -> (r: Option<&Vec<(String, String)>>)
        ensures
            match crate::metadata::var_attrs(self.metadata().variables(), var@) {
                Some(a) => r matches Some(v) && crate::metadata::pairs_view(v@) == a,
                None => r is None,
            },
    {
        self.json_data.get_var_attrs(&var)
    }

    /// The region identifiers, in order.
    pub fn get_polyids(&self) -> (r: &Vec<String>)
        ensures
            r@.map_values(|s: String| s@) == self.metadata().polyid_list(),
    {
        self.json_data.get_polyids()
    }

    /// The sparse points of every region.
    pub fn get_gridpoints(&self) -> (r: &Vec<PolyidEntry>)
        ensures
            r@ == self.entries(),
    {
        &self.polyid_gridpoints
    }

    /// The lookup table.
    pub fn get_lookup_table(&self) -> (r: &Vec<(u64, u64)>)
        ensures
            r@ == self.table(),
    {
        &self.lookup_table
    }

    /// The source grid's row and column counts.
    pub fn get_dimensions(&self) -> (r: (u64, u64))
        ensures
            r == self.dimensions(),
    {
        (self.lat_len, self.lon_len)
    }

    /// Every region's points, region after region.
    pub fn get_raw_gridpoints(&self) -> (r: Vec<GridPoint>)
        ensures
            r@ == flat_points(self.entries()),
    {
        let e = &self.polyid_gridpoints;
        let mut out: Vec<GridPoint> = Vec::new();
        let mut i: usize = 0;
        while i < e.len()
            invariant
                i <= e@.len(),
                out@ == flat_points(e@.take(i as int)),
            decreases e@.len() - i,
        {
            let pts = &e[i].data;
            let ghost before = out@;
            let mut k: usize = 0;
            while k < pts.len()
                invariant
                    k <= pts@.len(),
                    out@ == before + pts@.take(k as int),
                decreases pts@.len() - k,
            {
                out.push(pts[k]);
                assert(pts@.take(k + 1) =~= pts@.take(k as int).push(pts@[k as int]));
                k = k + 1;
            }
            assert(pts@.take(pts@.len() as int) =~= pts@);
            assert(e@.take(i + 1).drop_last() =~= e@.take(i as int));
            i = i + 1;
        }
        assert(e@.take(e@.len() as int) =~= e@);
        out
    }
}

/// Decoding the bytes that `serialize` writes for a weight file gives back
/// its metadata text, its grid dimensions, its lookup table and every
/// region's points, field for field.
pub proof fn lemma_model_round_trip(m: NextWeightFile, metadata_json: Seq<char>)
    requires
        m.wf(),
        m.table().len() <= u64::MAX,
        encode_utf8(metadata_json).len() + HEADER_LEN <= u64::MAX,
    ensures
        ({
            let d = encoding(
                encode_utf8(metadata_json),
                m.dimensions().0,
                m.dimensions().1,
                m.table(),
                m.entries(),
            );
            &&& decode_status(d) is None
            &&& decode_utf8(blob_of(d)) == metadata_json
            &&& (hdr(d, 2), hdr(d, 3)) == m.dimensions()
            &&& table_of(d) == m.table()
            &&& forall|f: Seq<PolyidEntry>| points_of(f, d) ==> entries_data(f) == entries_data(
                m.entries(),
            )
        }),
{
    lemma_round_trip(metadata_json, m.dimensions().0, m.dimensions().1, m.table(), m.entries());
}

proof fn lemma_total_points_push(e: Seq<PolyidEntry>, x: PolyidEntry)
    ensures
        total_points(e.push(x), (e.len() + 1) as int) == total_points(e, e.len() as int) + x.data@.len(),
{
    lemma_total_points_prefix(e, e.push(x), e.len() as int);
}

/// Whether a file's leading bytes are the binary cache's magic token.
pub fn is_nwt(head: &[u8]) -> (r: bool)
    ensures
        r == (head@.len() >= 4 && head@.subrange(0, 4) == magic()),
{
    if head.len() < 4 {
        return false;
    }
    let r = head[0] == 0x4eu8 && head[1] == 0x45u8 && head[2] == 0x57u8 && head[3] == 0x54u8;
    proof {
        if head@.subrange(0, 4) == magic() {
            assert(head@.subrange(0, 4)[0] == head@[0] && head@.subrange(0, 4)[1] == head@[1]);
            assert(head@.subrange(0, 4)[2] == head@[2] && head@.subrange(0, 4)[3] == head@[3]);
        }
        if r {
            assert(head@.subrange(0, 4) =~= magic());
        }
    }
    r
}

/// The path of the binary cache written beside a dense source: the source's
/// path with `.nwt` appended.
pub fn cache_path(path: &str) -> (r: String)
    ensures
        r@ == path@ + seq!['.', 'n', 'w', 't'],
{
    let mut s: String = path.to_owned();
    s.append(".nwt");
    proof {
        reveal_strlit(".nwt");
    }
    assert(s@ =~= path@ + seq!['.', 'n', 'w', 't']);
    s
}

} // verus!

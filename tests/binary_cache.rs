use next_weight_file::{
    cache_path, decode, is_nwt, AttrValue, DenseSource, JsonData, NextWeightFile, NwtError,
};

fn bits(v: &[f32]) -> Vec<u32> {
    v.iter().map(|x| x.to_bits()).collect()
}

fn model() -> NextWeightFile {
    let fill: f32 = -9999.0;
    let source = DenseSource {
        global_attrs: vec![("title".to_string(), AttrValue::Str("w".to_string()))],
        variables: Vec::new(),
        polyids: Some(vec!["A".to_string(), "B".to_string()]),
        lat: Some(bits(&[10.0, 20.0])),
        lon: Some(bits(&[100.0, 110.0])),
        fill_value: Some(fill.to_bits()),
        weights: Some(bits(&[fill, 5.0, 3.0, fill, 0.5, fill, fill, fill])),
    };
    NextWeightFile::from_weight_file(&source).unwrap()
}

const META: &str = "{\"polyids\":[\"A\",\"B\"]}";

fn u64_at(b: &[u8], p: usize) -> u64 {
    let mut a = [0u8; 8];
    a.copy_from_slice(&b[p..p + 8]);
    u64::from_le_bytes(a)
}

#[test]
fn header_layout() {
    let m = model();
    let b = m.serialize(META);
    assert_eq!(&b[0..4], b"NEWT");
    let ml = META.len() as u64;
    assert_eq!(u64_at(&b, 4), ml);
    assert_eq!(u64_at(&b, 12), 2);
    assert_eq!(u64_at(&b, 20), 2);
    assert_eq!(u64_at(&b, 28), 2);
    assert_eq!(u64_at(&b, 36), 52);
    assert_eq!(u64_at(&b, 44), 52 + ml);
    assert_eq!(&b[52..52 + META.len()], META.as_bytes());
    let lo = 52 + META.len();
    assert_eq!(u64_at(&b, lo), 0);
    assert_eq!(u64_at(&b, lo + 8), 2);
    assert_eq!(u64_at(&b, lo + 16), 2);
    assert_eq!(u64_at(&b, lo + 24), 1);
    assert_eq!(b.len(), lo + 32 + 3 * 20);
    let p = lo + 32;
    assert_eq!(&b[p..p + 4], &0u32.to_le_bytes());
    assert_eq!(&b[p + 4..p + 8], &1u32.to_le_bytes());
    assert_eq!(&b[p + 8..p + 12], &10.0f32.to_le_bytes());
    assert_eq!(&b[p + 12..p + 16], &110.0f32.to_le_bytes());
    assert_eq!(&b[p + 16..p + 20], &5.0f32.to_le_bytes());
}

#[test]
fn decode_reverses_serialize() {
    let m = model();
    let b = m.serialize(META);
    let f = decode(&b).unwrap();
    assert_eq!(f.metadata_text, META);
    assert_eq!((f.lat_len, f.lon_len), m.get_dimensions());
    assert_eq!(&f.lookup_table, m.get_lookup_table());
    assert_eq!(f.polyid_gridpoints.len(), 2);
    for i in 0..2 {
        assert_eq!(f.polyid_gridpoints[i].data, m.get_gridpoints()[i].data);
    }
    let mut j = JsonData::new();
    j.add_polyid("A".to_string());
    j.add_polyid("B".to_string());
    let back = NextWeightFile::from_nwt(j, f).unwrap();
    assert_eq!(back.get_raw_gridpoints(), m.get_raw_gridpoints());
    assert_eq!(back.serialize(META), b);
}

#[test]
fn bad_magic_is_format_mismatch() {
    let mut b = model().serialize(META);
    b[0] = b'X';
    assert_eq!(decode(&b).unwrap_err(), NwtError::FormatMismatch);
    assert_eq!(decode(b"nope").unwrap_err(), NwtError::FormatMismatch);
}

#[test]
fn every_truncation_is_truncated_data() {
    let b = model().serialize(META);
    for k in 0..b.len() {
        assert_eq!(decode(&b[..k]).unwrap_err(), NwtError::TruncatedData, "cut at {}", k);
    }
}

#[test]
fn invalid_utf8_is_encoding_error() {
    let mut b = model().serialize(META);
    b[53] = 0xff;
    assert_eq!(decode(&b).unwrap_err(), NwtError::EncodingError);
}

#[test]
fn region_count_mismatch_is_metadata_error() {
    let b = model().serialize(META);
    let f = decode(&b).unwrap();
    let mut j = JsonData::new();
    j.add_polyid("A".to_string());
    assert!(matches!(NextWeightFile::from_nwt(j, f), Err(NwtError::MetadataDecodeError(_))));
}

#[test]
fn empty_model_round_trips() {
    let source = DenseSource {
        global_attrs: Vec::new(),
        variables: Vec::new(),
        polyids: Some(Vec::new()),
        lat: Some(Vec::new()),
        lon: Some(Vec::new()),
        fill_value: Some(0),
        weights: Some(Vec::new()),
    };
    let m = NextWeightFile::from_weight_file(&source).unwrap();
    let b = m.serialize("");
    assert_eq!(b.len(), 52);
    let f = decode(&b).unwrap();
    assert!(f.lookup_table.is_empty());
    assert_eq!(f.metadata_text, "");
}

#[test]
fn dispatch_helpers() {
    assert!(is_nwt(b"NEWT...."));
    assert!(!is_nwt(b"CDF\x01"));
    assert!(!is_nwt(b"NEW"));
    assert_eq!(cache_path("data/w.nc"), "data/w.nc.nwt");
}

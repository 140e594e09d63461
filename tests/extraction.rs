use next_weight_file::{
    build_lookup_table, extract_region, f32_eq, AttrValue, DenseSource, NextWeightFile, NwtError,
    PolyidEntry,
};

const FILL: f32 = -9999.0;

fn bits(v: &[f32]) -> Vec<u32> {
    v.iter().map(|x| x.to_bits()).collect()
}

fn scenario_source() -> DenseSource {
    let mut weights = Vec::new();
    weights.extend_from_slice(&[FILL, 5.0, 3.0, FILL]);
    weights.extend_from_slice(&[FILL, FILL, FILL, FILL]);
    DenseSource {
        global_attrs: vec![("title".to_string(), AttrValue::Str("weights".to_string()))],
        variables: vec![(
            "regridweights".to_string(),
            vec![
                ("_FillValue".to_string(), AttrValue::Other),
                ("units".to_string(), AttrValue::Strs(vec!["1".to_string(), "2".to_string()])),
            ],
        )],
        polyids: Some(vec!["A".to_string(), "B".to_string()]),
        lat: Some(bits(&[10.0, 20.0])),
        lon: Some(bits(&[100.0, 110.0])),
        fill_value: Some(FILL.to_bits()),
        weights: Some(bits(&weights)),
    }
}

#[test]
fn two_region_scenario() {
    let m = NextWeightFile::from_weight_file(&scenario_source()).unwrap();
    let e = m.get_gridpoints();
    assert_eq!(e.len(), 2);
    assert_eq!(
        e[0].data,
        vec![
            (0, 1, 10.0f32.to_bits(), 110.0f32.to_bits(), 5.0f32.to_bits()),
            (1, 0, 20.0f32.to_bits(), 100.0f32.to_bits(), 3.0f32.to_bits()),
        ]
    );
    assert!(e[1].data.is_empty());
    assert_eq!(m.get_lookup_table(), &vec![(0u64, 2u64), (2u64, 0u64)]);
    assert_eq!(m.get_dimensions(), (2, 2));
    assert_eq!(m.get_polyids(), &vec!["A".to_string(), "B".to_string()]);
    assert_eq!(m.get_raw_gridpoints().len(), 2);
}

#[test]
fn harvest_skips_fill_value_and_takes_first_string() {
    let m = NextWeightFile::from_weight_file(&scenario_source()).unwrap();
    assert_eq!(
        m.get_global_attrs(),
        &vec![("title".to_string(), "weights".to_string())]
    );
    let attrs = m.get_var_attrs("regridweights".to_string()).unwrap();
    assert_eq!(attrs, &vec![("units".to_string(), "1".to_string())]);
    assert!(m.get_var_attrs("lat".to_string()).is_none());
}

#[test]
fn unsupported_global_attribute_fails() {
    let mut s = scenario_source();
    s.global_attrs.push(("count".to_string(), AttrValue::Other));
    let r = NextWeightFile::from_weight_file(&s);
    assert_eq!(r.unwrap_err(), NwtError::UnsupportedAttributeType);
}

#[test]
fn unsupported_variable_attribute_fails() {
    let mut s = scenario_source();
    s.variables[0].1.push(("scale".to_string(), AttrValue::Other));
    s.polyids = None;
    let r = NextWeightFile::from_weight_file(&s);
    assert_eq!(r.unwrap_err(), NwtError::UnsupportedAttributeType);
}

#[test]
fn empty_string_sequence_is_unsupported() {
    let mut s = scenario_source();
    s.global_attrs.push(("list".to_string(), AttrValue::Strs(Vec::new())));
    assert_eq!(
        NextWeightFile::from_weight_file(&s).unwrap_err(),
        NwtError::UnsupportedAttributeType
    );
}

#[test]
fn missing_required_fields_fail() {
    let mut a = scenario_source();
    a.weights = None;
    assert_eq!(NextWeightFile::from_weight_file(&a).unwrap_err(), NwtError::MissingRequiredField);
    let mut b = scenario_source();
    b.fill_value = None;
    assert_eq!(NextWeightFile::from_weight_file(&b).unwrap_err(), NwtError::MissingRequiredField);
    let mut c = scenario_source();
    c.lat = None;
    assert_eq!(NextWeightFile::from_weight_file(&c).unwrap_err(), NwtError::MissingRequiredField);
    let mut d = scenario_source();
    d.polyids = None;
    assert_eq!(NextWeightFile::from_weight_file(&d).unwrap_err(), NwtError::MissingRequiredField);
}

#[test]
fn extraction_keeps_row_major_order() {
    let w = bits(&[0.0, 1.0, 2.0, 0.0, 4.0, 5.0]);
    let lat = bits(&[1.0, 2.0]);
    let lon = bits(&[7.0, 8.0, 9.0]);
    let e = extract_region(&w, 0, &lat, &lon, 0.0f32.to_bits());
    let idx: Vec<(u32, u32)> = e.data.iter().map(|p| (p.0, p.1)).collect();
    assert_eq!(idx, vec![(0, 1), (0, 2), (1, 1), (1, 2)]);
    assert_eq!(e.data[2].4, 4.0f32.to_bits());
    assert_eq!(e.data[3].3, 9.0f32.to_bits());
}

#[test]
fn extraction_of_all_fill_region_is_empty() {
    let w = bits(&[FILL, FILL, FILL]);
    let e = extract_region(&w, 0, &bits(&[0.0]), &bits(&[0.0, 1.0, 2.0]), FILL.to_bits());
    assert!(e.data.is_empty());
}

#[test]
fn extraction_reads_the_grid_at_its_offset() {
    let w = bits(&[9.0, 9.0, 1.0, FILL]);
    let e = extract_region(&w, 2, &bits(&[3.0]), &bits(&[4.0, 5.0]), FILL.to_bits());
    assert_eq!(e.data, vec![(0, 0, 3.0f32.to_bits(), 4.0f32.to_bits(), 1.0f32.to_bits())]);
}

#[test]
fn float_equality_on_bits() {
    assert!(f32_eq(1.5f32.to_bits(), 1.5f32.to_bits()));
    assert!(!f32_eq(1.5f32.to_bits(), 2.5f32.to_bits()));
    assert!(f32_eq(0.0f32.to_bits(), (-0.0f32).to_bits()));
    assert!(!f32_eq(f32::NAN.to_bits(), f32::NAN.to_bits()));
}

#[test]
fn nan_fill_keeps_every_cell() {
    let w = bits(&[f32::NAN, 1.0]);
    let e = extract_region(&w, 0, &bits(&[0.0]), &bits(&[0.0, 1.0]), f32::NAN.to_bits());
    assert_eq!(e.data.len(), 2);
}

#[test]
fn lookup_offsets_are_prefix_sums() {
    let mut a = PolyidEntry::new();
    a.add_point(0, 0, 0, 0, 1);
    a.add_point(0, 1, 0, 0, 2);
    a.add_point(0, 2, 0, 0, 3);
    let b = PolyidEntry::new();
    let mut c = PolyidEntry::new();
    c.add_point(1, 1, 0, 0, 4);
    let t = build_lookup_table(&vec![a, b, c]).unwrap();
    assert_eq!(t, vec![(0, 3), (3, 0), (3, 1)]);
    assert!(build_lookup_table(&Vec::new()).unwrap().is_empty());
}

use filter_dp::binary64::Binary64;
use filter_dp::engine::{apply, FieldError, FieldFailure, FieldValue, NumberValue, Record};
use filter_dp::policy::{policies_or_none, ConfigError, NoisePolicy, PolicyMap, Unit};
use filter_dp::randomness::{seed_hash, select_source, NoiseSource};
use rv::dist::Laplace;
use rv::traits::Rv;
use std::hash::{Hash, Hasher};

fn b64(x: f64) -> Binary64 {
    Binary64 { bits: x.to_bits() }
}

fn laplace(sensitivity: f64, epsilon: f64, seed: Option<&str>, unit: Unit) -> NoisePolicy {
    NoisePolicy::Laplace {
        mu: b64(0.0),
        sensitivity: b64(sensitivity),
        epsilon: b64(epsilon),
        seed: seed.map(|s| s.to_string()),
        unit,
    }
}

fn gaussian(delta: f64) -> NoisePolicy {
    NoisePolicy::Gaussian {
        mu: b64(0.0),
        sensitivity: b64(1.0),
        epsilon: b64(1.0),
        delta: b64(delta),
        seed: None,
        unit: Unit::Float,
    }
}

fn read(v: &FieldValue) -> Option<Binary64> {
    match v {
        FieldValue::Number(NumberValue::Int(i)) => Some(b64(*i as f64)),
        FieldValue::Number(NumberValue::UInt(u)) => Some(b64(*u as f64)),
        FieldValue::Number(NumberValue::Float(f)) => Some(*f),
        FieldValue::Text(s) => s.parse::<f64>().ok().map(b64),
        FieldValue::Other(_) => None,
    }
}

fn laplace_noise(source: NoiseSource) -> f64 {
    let dist = Laplace::new(0.0, 1.0).unwrap();
    match source {
        NoiseSource::Seeded { mut rng, .. } => dist.draw(&mut rng),
        NoiseSource::Fresh { mut rng } => dist.draw(&mut rng),
    }
}

/// Adds a fixed amount and keeps the unit; enough to see which fields were touched.
fn add_one(x: Binary64, p: &NoisePolicy, _s: NoiseSource) -> Result<NumberValue, FieldError> {
    let sum = f64::from_bits(x.bits) + 1.0;
    match p.unit() {
        Unit::Integer => Ok(NumberValue::Int(sum.round() as i64)),
        Unit::Float => Ok(NumberValue::Float(b64(sum))),
    }
}

fn record(fields: Vec<(&str, FieldValue)>) -> Record {
    Record { fields: fields.into_iter().map(|(n, v)| (n.to_string(), v)).collect() }
}

fn sample_record() -> Record {
    record(vec![
        ("age", FieldValue::Number(NumberValue::Int(30))),
        ("name", FieldValue::Text("x".to_string())),
        ("height", FieldValue::Number(NumberValue::Float(b64(1.75)))),
        ("tags", FieldValue::Other("[1,2]".to_string())),
        ("score", FieldValue::Text("12.5".to_string())),
    ])
}

#[test]
fn policy_map_insert_and_get() {
    let mut m = PolicyMap::new();
    assert_eq!(m.len(), 0);
    assert!(m.get(&"age".to_string()).is_none());
    m.insert("age".to_string(), laplace(1.0, 1.0, None, Unit::Integer));
    m.insert("height".to_string(), gaussian(0.01));
    assert_eq!(m.len(), 2);
    assert!(matches!(m.get(&"age".to_string()), Some(NoisePolicy::Laplace { .. })));
    assert!(matches!(m.get(&"height".to_string()), Some(NoisePolicy::Gaussian { .. })));
    m.insert("age".to_string(), gaussian(0.5));
    assert_eq!(m.len(), 2);
    assert!(matches!(m.get(&"age".to_string()), Some(NoisePolicy::Gaussian { .. })));
    assert!(m.get(&"name".to_string()).is_none());
}

#[test]
fn missing_configuration_applies_nothing() {
    let policies = policies_or_none(Err(ConfigError::Missing));
    assert_eq!(policies.len(), 0);
    let (out, failures) = apply(&policies, sample_record(), read, add_one);
    assert_eq!(out, sample_record());
    assert!(failures.is_empty());
}

#[test]
fn unparseable_configuration_applies_nothing() {
    let policies = policies_or_none(Err(ConfigError::Parse));
    assert_eq!(policies.len(), 0);
    let (out, failures) = apply(&policies, sample_record(), read, add_one);
    assert_eq!(out, sample_record());
    assert!(failures.is_empty());
}

#[test]
fn loaded_configuration_is_kept() {
    let mut m = PolicyMap::new();
    m.insert("age".to_string(), laplace(1.0, 1.0, None, Unit::Integer));
    let policies = policies_or_none(Ok(m));
    assert_eq!(policies.len(), 1);
    assert!(policies.get(&"age".to_string()).is_some());
}

#[test]
fn fields_without_policy_are_untouched() {
    let mut m = PolicyMap::new();
    m.insert("age".to_string(), laplace(1.0, 1.0, None, Unit::Integer));
    m.insert("absent".to_string(), laplace(1.0, 1.0, None, Unit::Float));
    let (out, failures) = apply(&m, sample_record(), read, add_one);
    let before = sample_record();
    assert_eq!(out.fields.len(), before.fields.len());
    assert_eq!(out.fields[0], ("age".to_string(), FieldValue::Number(NumberValue::Int(31))));
    for i in 1..before.fields.len() {
        assert_eq!(out.fields[i], before.fields[i]);
    }
    assert!(failures.is_empty());
}

#[test]
fn numeric_strings_and_floats_are_perturbed() {
    let mut m = PolicyMap::new();
    m.insert("score".to_string(), laplace(1.0, 1.0, None, Unit::Float));
    m.insert("height".to_string(), laplace(1.0, 1.0, None, Unit::Integer));
    let (out, failures) = apply(&m, sample_record(), read, add_one);
    assert_eq!(out.fields[4].1, FieldValue::Number(NumberValue::Float(b64(13.5))));
    assert_eq!(out.fields[2].1, FieldValue::Number(NumberValue::Int(3)));
    assert!(failures.is_empty());
}

#[test]
fn one_non_numeric_field_does_not_stop_the_others() {
    let mut m = PolicyMap::new();
    m.insert("tags".to_string(), laplace(1.0, 1.0, None, Unit::Float));
    m.insert("age".to_string(), laplace(1.0, 1.0, None, Unit::Integer));
    let input = record(vec![
        ("tags", FieldValue::Other("{\"a\":1}".to_string())),
        ("age", FieldValue::Number(NumberValue::Int(41))),
    ]);
    let (out, failures) = apply(&m, input.clone(), read, add_one);
    assert_eq!(out.fields[0], input.fields[0]);
    assert_eq!(out.fields[1].1, FieldValue::Number(NumberValue::Int(42)));
    assert_eq!(
        failures,
        vec![FieldFailure { name: "tags".to_string(), error: FieldError::NotNumeric }]
    );
}

#[test]
fn unreadable_text_is_not_numeric() {
    let mut m = PolicyMap::new();
    m.insert("name".to_string(), laplace(1.0, 1.0, None, Unit::Float));
    let (out, failures) = apply(&m, sample_record(), read, add_one);
    assert_eq!(out, sample_record());
    assert_eq!(
        failures,
        vec![FieldFailure { name: "name".to_string(), error: FieldError::NotNumeric }]
    );
}

#[test]
fn out_of_range_parameters_are_reported() {
    let mut m = PolicyMap::new();
    m.insert("age".to_string(), laplace(1.0, 0.0, None, Unit::Integer));
    m.insert("height".to_string(), gaussian(1.5));
    m.insert("score".to_string(), laplace(-1.0, 1.0, None, Unit::Float));
    let (out, failures) = apply(&m, sample_record(), read, add_one);
    assert_eq!(out, sample_record());
    assert_eq!(
        failures,
        vec![
            FieldFailure { name: "age".to_string(), error: FieldError::InvalidParameter },
            FieldFailure { name: "height".to_string(), error: FieldError::InvalidParameter },
            FieldFailure { name: "score".to_string(), error: FieldError::InvalidParameter },
        ]
    );
}

#[test]
fn parameter_ranges() {
    assert!(laplace(1.0, 0.5, None, Unit::Float).has_valid_params());
    assert!(!laplace(0.0, 0.5, None, Unit::Float).has_valid_params());
    assert!(!laplace(1.0, f64::INFINITY, None, Unit::Float).has_valid_params());
    assert!(!laplace(1.0, f64::NAN, None, Unit::Float).has_valid_params());
    assert!(gaussian(0.01).has_valid_params());
    assert!(!gaussian(0.0).has_valid_params());
    assert!(!gaussian(1.0).has_valid_params());
    assert!(!gaussian(-0.01).has_valid_params());
    assert!(b64(1e-300).is_positive());
    assert!(!b64(-0.0).is_positive());
    assert!(b64(0.999).is_fraction());
    assert!(!b64(1.0).is_fraction());
}

#[test]
fn coercion_failure_leaves_the_field() {
    let mut m = PolicyMap::new();
    m.insert("age".to_string(), laplace(1.0, 1.0, None, Unit::Integer));
    let fail = |_x: Binary64, _p: &NoisePolicy, _s: NoiseSource| -> Result<NumberValue, FieldError> {
        Err(FieldError::CoercionFailed)
    };
    let (out, failures) = apply(&m, sample_record(), read, fail);
    assert_eq!(out, sample_record());
    assert_eq!(
        failures,
        vec![FieldFailure { name: "age".to_string(), error: FieldError::CoercionFailed }]
    );
}

#[test]
fn seed_hash_is_the_default_hasher() {
    let mut h = std::collections::hash_map::DefaultHasher::new();
    "test".to_string().hash(&mut h);
    assert_eq!(seed_hash(&"test".to_string()), h.finish());
    assert_ne!(seed_hash(&"test".to_string()), seed_hash(&"other".to_string()));
}

#[test]
fn source_follows_the_seed() {
    match select_source(&Some("test".to_string())) {
        NoiseSource::Seeded { seed, .. } => assert_eq!(seed, seed_hash(&"test".to_string())),
        NoiseSource::Fresh { .. } => panic!("a seeded policy got an entropy source"),
    }
    assert!(matches!(select_source(&None), NoiseSource::Fresh { .. }));
}

#[test]
fn same_seed_same_noise() {
    let seed = Some("test".to_string());
    let a = laplace_noise(select_source(&seed));
    let b = laplace_noise(select_source(&seed));
    assert_eq!(a.to_bits(), b.to_bits());
    let c = laplace_noise(select_source(&Some("another".to_string())));
    assert_ne!(a.to_bits(), c.to_bits());
}

#[test]
fn unseeded_noise_varies() {
    let first = laplace_noise(select_source(&None));
    let mut all_equal = true;
    for _ in 0..100 {
        if laplace_noise(select_source(&None)).to_bits() != first.to_bits() {
            all_equal = false;
        }
    }
    assert!(!all_equal);
}

#[test]
fn seeded_laplace_end_to_end() {
    let mut m = PolicyMap::new();
    m.insert("age".to_string(), laplace(1.0, 1.0, Some("test"), Unit::Integer));
    let draw = |x: Binary64, p: &NoisePolicy, s: NoiseSource| -> Result<NumberValue, FieldError> {
        assert!(matches!(p.unit(), Unit::Integer));
        let sum = f64::from_bits(x.bits) + laplace_noise(s);
        Ok(NumberValue::Int(sum.round() as i64))
    };
    let input = record(vec![
        ("age", FieldValue::Number(NumberValue::Int(30))),
        ("name", FieldValue::Text("x".to_string())),
    ]);
    let (out, failures) = apply(&m, input, read, draw);
    let expected = 30 + laplace_noise(select_source(&Some("test".to_string()))).round() as i64;
    assert_eq!(
        out,
        record(vec![
            ("age", FieldValue::Number(NumberValue::Int(expected))),
            ("name", FieldValue::Text("x".to_string())),
        ])
    );
    assert!(failures.is_empty());
}

use json_format::input::{Input, InputError, KubernetesSpecs, KubernetesVersions};
use json_format::record::Datas;
use json_format::shape::{is_semver, is_series};
use json_format::{first_record, kubernetes_json};

#[test]
fn success() {
    let kubernetes_version = kubernetes_json("params", None, None).unwrap();
    let mut kubernetes_image = kubernetes_version.kubernetes_output;
    let _ = kubernetes_image.drain(1..32);
    assert_eq!(kubernetes_image, "{\"kubernetes_deb_version\":\"1.22.1-1.1\",\"kubernetes_rpm_version\":\"1.22.1\",\"kubernetes_semver\":\"v1.22.1\",\"kubernetes_series\":\"v1.22\"}");
}

#[test]
fn semver_shape_boundaries() {
    assert!(is_semver("v1.22.1"));
    assert!(is_semver("v1.22.12"));
    assert!(is_semver("v0.00.0"));
    assert!(!is_semver("v10.22.1"));
    assert!(!is_semver("v1.2.1"));
    assert!(!is_semver("v1.22.123"));
    assert!(!is_semver("v1.22."));
    assert!(!is_semver("1.22.1"));
    assert!(!is_semver("v1x22y1"));
    assert!(!is_semver("v1.22.1\n"));
    assert!(!is_semver("v\u{0661}.22.1"));
    assert!(!is_semver(""));
}

#[test]
fn series_shape_boundaries() {
    assert!(is_series("v1.22"));
    assert!(!is_series("v1.2"));
    assert!(!is_series("v10.22"));
    assert!(!is_series("v1.22.1"));
    assert!(!is_series("v1x22"));
    assert!(!is_series(""));
}

#[test]
fn shapes_agree_with_anchored_pattern() {
    let semver = regex::Regex::new(r"^v[0-9]\.[0-9]{2}\.[0-9]{1,2}$").unwrap();
    let series = regex::Regex::new(r"^v[0-9]\.[0-9]{2}$").unwrap();
    let samples = [
        "v1.22.1", "v9.99.99", "v1.22.100", "v1.22", "v12.3.4", "x1.22.1", "v1.22.a", "v1-22-1",
        "V1.22.1", " v1.22.1", "v1.22.1 ", "v1.2", "v.22.1", "v1..1", "v5.55",
    ];
    for s in samples.iter() {
        assert_eq!(is_semver(s), semver.is_match(s), "{}", s);
        assert_eq!(is_series(s), series.is_match(s), "{}", s);
    }
}

#[test]
fn end_to_end_valid() {
    let out = kubernetes_json("params", Some("v1.22.1".to_string()), Some("v1.22".to_string()))
        .unwrap()
        .kubernetes_output;
    assert!(out.contains("\"kubernetes_deb_version\":\"1.22.1-1.1\""));
    assert!(out.contains("\"kubernetes_rpm_version\":\"1.22.1\""));
    assert!(out.contains("\"kubernetes_semver\":\"v1.22.1\""));
    assert!(out.contains("\"kubernetes_series\":\"v1.22\""));
    let prefix = "{\"build_timestamp\":\"";
    assert!(out.starts_with(prefix));
    let rest = &out[prefix.len()..];
    let digits: String = rest.chars().take_while(|c| *c != '"').collect();
    assert!(!digits.is_empty() && digits.chars().all(|c| c.is_ascii_digit()));
}

#[test]
fn end_to_end_bad_semver() {
    let r = kubernetes_json("params", Some("v10.1.1".to_string()), Some("v1.22".to_string()));
    assert!(matches!(r, Err(InputError::BadSemver)));
}

#[test]
fn end_to_end_bad_series() {
    let r = kubernetes_json("params", Some("v1.22.1".to_string()), Some("v1.2".to_string()));
    assert!(matches!(r, Err(InputError::BadSeries)));
}

#[test]
fn end_to_end_unknown_format() {
    let r = kubernetes_json("yaml", None, None);
    assert!(matches!(r, Err(InputError::UnknownFormat)));
    assert!(matches!(Input::new("v1.22.1", "v1.22", "yaml"), Err(InputError::UnknownFormat)));
}

#[test]
fn specs_checks_semver_before_series() {
    let v = KubernetesVersions {
        kubernetes_semver: "bad".to_string(),
        kubernetes_series: "bad".to_string(),
    };
    assert!(matches!(KubernetesSpecs::new(&v), Err(InputError::BadSemver)));
    let ok = KubernetesVersions {
        kubernetes_semver: "v1.22.1".to_string(),
        kubernetes_series: "v1.22".to_string(),
    };
    let specs = KubernetesSpecs::new(&ok).unwrap();
    assert_eq!(specs.kubernetes_semver.as_deref(), Some("v1.22.1"));
    assert_eq!(specs.kubernetes_series.as_deref(), Some("v1.22"));
    assert!(specs.build_timestamp.is_none());
}

#[test]
fn input_stops_at_first_bad_entry() {
    let input = Input {
        kubernetes: vec![
            KubernetesVersions {
                kubernetes_semver: "v1.22.1".to_string(),
                kubernetes_series: "v1.22".to_string(),
            },
            KubernetesVersions {
                kubernetes_semver: "v1.22.1".to_string(),
                kubernetes_series: "v1.222".to_string(),
            },
        ],
    };
    assert!(matches!(Datas::from_input(&input), Err(InputError::BadSeries)));
}

#[test]
fn two_records_keep_first_for_file() {
    let input = Input {
        kubernetes: vec![
            KubernetesVersions {
                kubernetes_semver: "v1.22.1".to_string(),
                kubernetes_series: "v1.22".to_string(),
            },
            KubernetesVersions {
                kubernetes_semver: "v1.23.2".to_string(),
                kubernetes_series: "v1.23".to_string(),
            },
        ],
    };
    let mut datas = Datas::from_input(&input).unwrap();
    assert_eq!(datas.datas.len(), 2);
    datas.set_format().unwrap();
    let out = datas.json().unwrap();
    let first = first_record(&out);
    assert!(!first.contains('\n'));
    assert!(first.contains("\"kubernetes_semver\":\"v1.22.1\""));
    assert!(!first.contains("v1.23.2"));
    assert_eq!(first_record("abc"), "abc");
    assert_eq!(first_record(""), "");
}

#[test]
fn error_messages_are_distinct() {
    assert_ne!(InputError::BadSemver.message(), InputError::BadSeries.message());
    assert_ne!(InputError::UnknownFormat.message(), InputError::BadSeries.message());
}

use wheel_parsing::dist_info_path;

#[test]
fn test_dist_info_path() {
    assert_eq!(
        dist_info_path("requests", "2.29.0", "WHEEL"),
        "requests-2.29.0.dist-info/WHEEL".to_string(),
    );
    assert_eq!(
        dist_info_path("charset-normalizer", "3.1.0", "RECORD"),
        "charset-normalizer-3.1.0.dist-info/RECORD".to_string(),
    );
}

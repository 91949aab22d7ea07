use std::str::FromStr;

use pep440_rs::Version;

use wheel_parsing::{BuildTag, WheelName, WheelNameParseError};

#[test]
fn wheel_name_test_from_str_simple() -> Result<(), WheelNameParseError> {
    let wheel_name = WheelName::from_str("requests-2.29.0-py3-none-any.whl")?;
    assert_eq!(
        wheel_name,
        WheelName {
            distribution: "requests".to_string(),
            version: Version::from_str("2.29.0").unwrap(),
            build_tag: None,
            python_tag: "py3".to_string(),
            abi_tag: "none".to_string(),
            platform_tag: "any".to_string(),
        },
    );
    Ok(())
}

#[test]
fn test_from_str_build_tag() -> Result<(), WheelNameParseError> {
    let wheel_name = WheelName::from_str("requests-2.29.0-1-py3-none-any.whl")?;
    assert_eq!(
        wheel_name,
        WheelName {
            distribution: "requests".to_string(),
            version: Version::from_str("2.29.0").unwrap(),
            build_tag: Some(BuildTag {
                number: 1,
                remainder: None,
            }),
            python_tag: "py3".to_string(),
            abi_tag: "none".to_string(),
            platform_tag: "any".to_string(),
        },
    );
    Ok(())
}

#[test]
fn test_from_str_build_tag_trailing_content() -> Result<(), WheelNameParseError> {
    let wheel_name = WheelName::from_str("requests-2.29.0-1asdf-py3-none-any.whl")?;
    assert_eq!(
        wheel_name,
        WheelName {
            distribution: "requests".to_string(),
            version: Version::from_str("2.29.0").unwrap(),
            build_tag: Some(BuildTag {
                number: 1,
                remainder: Some("asdf".to_string()),
            }),
            python_tag: "py3".to_string(),
            abi_tag: "none".to_string(),
            platform_tag: "any".to_string(),
        },
    );
    Ok(())
}

#[test]
fn test_from_str_multiple_platforms() -> Result<(), WheelNameParseError> {
    let wheel_name = WheelName::from_str("charset_normalizer-3.0.1-cp37-cp37m-manylinux_2_5_i686.manylinux1_i686.manylinux_2_17_i686.manylinux2014_i686.whl")?;
    assert_eq!(
        wheel_name,
        WheelName {
            distribution: "charset-normalizer".to_string(),
            version: Version::from_str("3.0.1").unwrap(),
            build_tag: None,
            python_tag: "cp37".to_string(),
            abi_tag: "cp37m".to_string(),
            platform_tag:
                "manylinux_2_5_i686.manylinux1_i686.manylinux_2_17_i686.manylinux2014_i686"
                    .to_string(),
        },
    );
    Ok(())
}

#[test]
fn test_from_str_underscore_name() -> Result<(), WheelNameParseError> {
    let wheel_name = WheelName::from_str("charset_normalizer-3.1.0-py3-none-any.whl")?;
    assert_eq!(
        wheel_name,
        WheelName {
            distribution: "charset-normalizer".to_string(),
            version: Version::from_str("3.1.0").unwrap(),
            build_tag: None,
            python_tag: "py3".to_string(),
            abi_tag: "none".to_string(),
            platform_tag: "any".to_string(),
        },
    );
    Ok(())
}

#[test]
fn test_from_str_not_wheel() -> Result<(), WheelNameParseError> {
    let wheel_name = WheelName::from_str("charset-normalizer-3.1.0.tar.gz");
    assert_eq!(wheel_name, Err(WheelNameParseError::NotAWheel),);
    Ok(())
}

#[test]
fn test_from_str_kekab() -> Result<(), WheelNameParseError> {
    // Wheel name `distribution` field is not allowed to have a dash in it.
    let wheel_name = WheelName::from_str("charset-normalizer-3.1.0-py3-none-any.whl");
    assert_eq!(
        wheel_name,
        Err(WheelNameParseError::InvalidVersion(
            "Version `normalizer` doesn't match PEP 440 rules".to_string(),
        )),
    );
    Ok(())
}

#[test]
fn test_from_str_part_count() {
    let too_few = WheelName::from_str("requests-2.29.0-py3-none.whl");
    assert_eq!(too_few, Err(WheelNameParseError::PartMismatch));
    let too_many = WheelName::from_str("requests-2.29.0-1-extra-py3-none-any.whl");
    assert_eq!(too_many, Err(WheelNameParseError::PartMismatch));
}

#[test]
fn test_from_str_bad_distribution() {
    let bad_char = WheelName::from_str("reque$ts-2.29.0-py3-none-any.whl");
    assert_eq!(
        bad_char,
        Err(WheelNameParseError::InvalidDistributionName(
            "reque$ts".to_string()
        )),
    );
    let doubled = WheelName::from_str("requests__x-2.29.0-py3-none-any.whl");
    assert_eq!(
        doubled,
        Err(WheelNameParseError::InvalidDistributionName(
            "requests__x".to_string()
        )),
    );
}

#[test]
fn test_from_str_upper_case_distribution() -> Result<(), WheelNameParseError> {
    let wheel_name = WheelName::from_str("Requests.Extra-2.29.0-py3-none-any.whl")?;
    assert_eq!(wheel_name.distribution, "requests-extra".to_string());
    Ok(())
}

#[test]
fn test_build_tag_no_leading_digit() {
    let tag = BuildTag::from_str("asdf");
    assert_eq!(
        tag,
        Err(WheelNameParseError::InvalidBuildTag("asdf".to_string())),
    );
}

#[test]
fn test_build_tag_overflow() {
    let tag = BuildTag::from_str("99999999999999999999999999999999999999rest");
    assert_eq!(
        tag,
        Err(WheelNameParseError::InvalidBuildTag(
            "99999999999999999999999999999999999999rest".to_string()
        )),
    );
}

#[test]
fn test_build_tag_longest_digit_run() -> Result<(), WheelNameParseError> {
    let tag = BuildTag::from_str("123abc4")?;
    assert_eq!(
        tag,
        BuildTag {
            number: 123,
            remainder: Some("abc4".to_string()),
        },
    );
    Ok(())
}

#[test]
fn test_wheel_name_clone_equal() -> Result<(), WheelNameParseError> {
    let parsed = WheelName::from_str("requests-2.29.0-1asdf-py3-none-any.whl")?;
    let copy = parsed.clone();
    assert_eq!(parsed, copy);
    Ok(())
}

use wheel_parsing::{WheelFile, WheelFileField, WheelFileParseError};

#[test]
fn wheel_file_test_from_str_simple() -> Result<(), WheelFileParseError> {
    let wheel_file_contents = "Wheel-Version: 1.0\nGenerator: bdist_wheel 1.0\nRoot-Is-Purelib: true\nTag: py2-none-any\nTag: py3-none-any\nBuild: 1\n";
    let wheel_file = WheelFile::from_str(wheel_file_contents)?;
    assert_eq!(
        wheel_file,
        WheelFile {
            wheel_version: "1.0".to_owned(),
            generator: "bdist_wheel 1.0".to_owned(),
            root_is_purelib: true,
            tags: vec!["py2-none-any".to_owned(), "py3-none-any".to_owned()],
            build: Some(1),
        },
    );
    Ok(())
}

#[test]
fn test_wheel_file_duplicate_wheel_version() {
    let text = "Wheel-Version: 1.0\nGenerator: g\nRoot-Is-Purelib: false\nWheel-Version: 2.0\n";
    let parsed = WheelFile::from_str(text);
    assert_eq!(
        parsed,
        Err(WheelFileParseError::DuplicateField(
            WheelFileField::WheelVersion
        )),
    );
}

#[test]
fn test_wheel_file_missing_generator() {
    let text = "Wheel-Version: 1.0\nRoot-Is-Purelib: false\n";
    let parsed = WheelFile::from_str(text);
    assert_eq!(
        parsed,
        Err(WheelFileParseError::MissingField(WheelFileField::Generator)),
    );
}

#[test]
fn test_wheel_file_tags_in_input_order() -> Result<(), WheelFileParseError> {
    let text = "Tag: cp37-cp37m-linux_x86_64\nWheel-Version: 1.0\nGenerator: g\nTag: py3-none-any\nRoot-Is-Purelib: true\nTag: py2-none-any\n";
    let wheel_file = WheelFile::from_str(text)?;
    assert_eq!(
        wheel_file.tags,
        vec![
            "cp37-cp37m-linux_x86_64".to_owned(),
            "py3-none-any".to_owned(),
            "py2-none-any".to_owned(),
        ],
    );
    Ok(())
}

#[test]
fn test_wheel_file_invalid_build_value() {
    let text = "Wheel-Version: 1.0\nGenerator: g\nRoot-Is-Purelib: true\nBuild: seven\n";
    let parsed = WheelFile::from_str(text);
    assert_eq!(
        parsed,
        Err(WheelFileParseError::InvalidFieldValue(
            WheelFileField::Build,
            "seven".to_owned()
        )),
    );
}

#[test]
fn test_wheel_file_invalid_root_is_purelib() {
    let text = "Wheel-Version: 1.0\nGenerator: g\nRoot-Is-Purelib: yes\n";
    let parsed = WheelFile::from_str(text);
    assert_eq!(
        parsed,
        Err(WheelFileParseError::InvalidFieldValue(
            WheelFileField::RootIsPurelib,
            "yes".to_owned()
        )),
    );
}

#[test]
fn test_wheel_file_unknown_lines_ignored() -> Result<(), WheelFileParseError> {
    let text = "Name: ignored\nWheel-Version: 1.0\nGenerator: g\nRoot-Is-Purelib: false\nFuture-Field: also ignored\n";
    let wheel_file = WheelFile::from_str(text)?;
    assert_eq!(wheel_file.wheel_version, "1.0".to_owned());
    assert_eq!(wheel_file.generator, "g".to_owned());
    assert!(!wheel_file.root_is_purelib);
    assert_eq!(wheel_file.tags, Vec::<String>::new());
    assert_eq!(wheel_file.build, None);
    Ok(())
}

#[test]
fn test_wheel_file_crlf_lines() -> Result<(), WheelFileParseError> {
    let text = "Wheel-Version: 1.0\r\nGenerator: g\r\nRoot-Is-Purelib: true\r\n";
    let wheel_file = WheelFile::from_str(text)?;
    assert_eq!(wheel_file.wheel_version, "1.0".to_owned());
    assert!(wheel_file.root_is_purelib);
    Ok(())
}

#[test]
fn test_wheel_file_duplicate_build() {
    let text = "Wheel-Version: 1.0\nGenerator: g\nRoot-Is-Purelib: true\nBuild: 1\nBuild: 2\n";
    let parsed = WheelFile::from_str(text);
    assert_eq!(
        parsed,
        Err(WheelFileParseError::DuplicateField(WheelFileField::Build)),
    );
}

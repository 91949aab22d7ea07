//! Parser for `... .dist-info/WHEEL` manifest files.
//!
//! The manifest is line-oriented.  Each line is matched against a fixed table
//! of field prefixes; unrecognized lines are ignored for forward
//! compatibility.  `Wheel-Version`, `Generator` and `Root-Is-Purelib` are
//! required and must appear exactly once, `Tag` lines accumulate in input
//! order, and `Build` is optional but must be numeric and single.

use vstd::prelude::*;

use crate::text::{
    all_digits, chars_eq, chars_of, digits_value, has_prefix, is_prefix, parse_usize, spec_lines,
    split_lines, string_of, subvec,
};

verus! {

/// The fields a manifest can hold.
#[derive(Debug, Clone, Copy, PartialEq, Eq, Structural)]
pub enum WheelFileField {
    WheelVersion,
    Generator,
    RootIsPurelib,
    Tag,
    Build,
}

/// Why a manifest failed to parse.
#[derive(Debug, Clone, PartialEq, Eq)]
pub enum WheelFileParseError {
    /// A single-valued field occurred a second time.
    DuplicateField(WheelFileField),
    /// A field's value failed to parse; the payload holds the raw value.
    InvalidFieldValue(WheelFileField, String),
    /// A required field never occurred.
    MissingField(WheelFileField),
}

/// A parsed manifest.
#[derive(Debug, Clone, PartialEq, Eq)]
pub struct WheelFile {
    pub wheel_version: String,
    pub generator: String,
    pub root_is_purelib: bool,
    /// Priority-ordered compatibility tags, in input order.
    pub tags: Vec<String>,
    pub build: Option<usize>,
}

/// The mathematical content of a parsed manifest.
pub ghost struct WheelFileView {
    pub wheel_version: Seq<char>,
    pub generator: Seq<char>,
    pub root_is_purelib: bool,
    pub tags: Seq<Seq<char>>,
    pub build: Option<usize>,
}

impl View for WheelFile {
    type V = WheelFileView;

    open spec fn view(&self) -> WheelFileView {
        WheelFileView {
            wheel_version: self.wheel_version@,
            generator: self.generator@,
            root_is_purelib: self.root_is_purelib,
            tags: self.tags.deep_view(),
            build: self.build,
        }
    }
}

/// A manifest parse error at the specification level; the invalid value is a
/// character sequence rather than a `String`.
pub ghost enum ManifestErr {
    Duplicate(WheelFileField),
    Invalid(WheelFileField, Seq<char>),
    Missing(WheelFileField),
}

/// The fields collected while scanning the manifest's lines.
pub ghost struct ManifestScan {
    pub wheel_version: Option<Seq<char>>,
    pub generator: Option<Seq<char>>,
    pub root_is_purelib: Option<bool>,
    pub tags: Seq<Seq<char>>,
    pub build: Option<usize>,
}

/// The scan state before any line is read.
pub open spec fn scan_init() -> ManifestScan {
    ManifestScan {
        wheel_version: None,
        generator: None,
        root_is_purelib: None,
        tags: Seq::empty(),
        build: None,
    }
}

/// The value of a recognized line: everything after the prefix.
pub open spec fn line_value(line: Seq<char>, prefix: Seq<char>) -> Seq<char> {
    line.skip(prefix.len() as int)
}

/// A boolean field value: exactly `true` or `false`.
pub open spec fn spec_parse_bool(v: Seq<char>) -> Option<bool> {
    if v == "true"@ {
        Some(true)
    } else if v == "false"@ {
        Some(false)
    } else {
        None
    }
}

/// A build field value: a non-empty digit run fitting `usize`.
pub open spec fn spec_parse_build(v: Seq<char>) -> Option<usize> {
    if v.len() > 0 && all_digits(v) && digits_value(v) <= usize::MAX {
        Some(digits_value(v) as usize)
    } else {
        None
    }
}

/// How one manifest line changes the scan state, or fails it.
pub open spec fn manifest_step(st: ManifestScan, line: Seq<char>) -> Result<
    ManifestScan,
    ManifestErr,
> {
    if is_prefix("Wheel-Version: "@, line) {
        if st.wheel_version is Some {
            Err(ManifestErr::Duplicate(WheelFileField::WheelVersion))
        } else {
            Ok(
                ManifestScan {
                    wheel_version: Some(line_value(line, "Wheel-Version: "@)),
                    ..st
                },
            )
        }
    } else if is_prefix("Generator: "@, line) {
        if st.generator is Some {
            Err(ManifestErr::Duplicate(WheelFileField::Generator))
        } else {
            Ok(ManifestScan { generator: Some(line_value(line, "Generator: "@)), ..st })
        }
    } else if is_prefix("Root-Is-Purelib: "@, line) {
        if st.root_is_purelib is Some {
            Err(ManifestErr::Duplicate(WheelFileField::RootIsPurelib))
        } else {
            match spec_parse_bool(line_value(line, "Root-Is-Purelib: "@)) {
                Some(b) => Ok(ManifestScan { root_is_purelib: Some(b), ..st }),
                None => Err(
                    ManifestErr::Invalid(
                        WheelFileField::RootIsPurelib,
                        line_value(line, "Root-Is-Purelib: "@),
                    ),
                ),
            }
        }
    } else if is_prefix("Tag: "@, line) {
        Ok(ManifestScan { tags: st.tags.push(line_value(line, "Tag: "@)), ..st })
    } else if is_prefix("Build: "@, line) {
        if st.build is Some {
            Err(ManifestErr::Duplicate(WheelFileField::Build))
        } else {
            match spec_parse_build(line_value(line, "Build: "@)) {
                Some(n) => Ok(ManifestScan { build: Some(n), ..st }),
                None => Err(
                    ManifestErr::Invalid(WheelFileField::Build, line_value(line, "Build: "@)),
                ),
            }
        }
    } else {
        Ok(st)
    }
}

/// Scans the lines from index `i` on, starting in state `st`.
pub open spec fn manifest_scan(lines: Seq<Seq<char>>, i: int, st: ManifestScan) -> Result<
    ManifestScan,
    ManifestErr,
>
    decreases lines.len() - i,
{
    if i < 0 || i >= lines.len() {
        Ok(st)
    } else {
        match manifest_step(st, lines[i]) {
            Ok(st2) => manifest_scan(lines, i + 1, st2),
            Err(e) => Err(e),
        }
    }
}

/// The required-field check after the scan, in the order the fields are
/// declared.
pub open spec fn manifest_finish(st: ManifestScan) -> Result<WheelFileView, ManifestErr> {
    if st.wheel_version is None {
        Err(ManifestErr::Missing(WheelFileField::WheelVersion))
    } else if st.generator is None {
        Err(ManifestErr::Missing(WheelFileField::Generator))
    } else if st.root_is_purelib is None {
        Err(ManifestErr::Missing(WheelFileField::RootIsPurelib))
    } else {
        Ok(
            WheelFileView {
                wheel_version: st.wheel_version->0,
                generator: st.generator->0,
                root_is_purelib: st.root_is_purelib->0,
                tags: st.tags,
                build: st.build,
            },
        )
    }
}

/// What parsing a manifest document yields.
pub open spec fn spec_parse_wheel_file(s: Seq<char>) -> Result<WheelFileView, ManifestErr> {
    match manifest_scan(spec_lines(s), 0, scan_init()) {
        Ok(st) => manifest_finish(st),
        Err(e) => Err(e),
    }
}

/// A non-empty prefix pins down the first character of what it prefixes.
proof fn lemma_prefix_first_char(p: Seq<char>, l: Seq<char>)
    requires
        p.len() > 0,
        is_prefix(p, l),
    ensures
        l.len() > 0 && l[0] == p[0],
{
    assert(l.take(p.len() as int)[0] == l[0]);
}

/// Once `Wheel-Version` has been seen, a later `Wheel-Version` line fails
/// the scan.
proof fn lemma_scan_second_wheel_version(lines: Seq<Seq<char>>, i: int, st: ManifestScan, k: int)
    requires
        0 <= i <= k < lines.len(),
        st.wheel_version is Some,
        is_prefix("Wheel-Version: "@, lines[k]),
    ensures
        manifest_scan(lines, i, st) is Err,
    decreases lines.len() - i,
{
    if i == k {
        assert(manifest_step(st, lines[i]) is Err);
    } else {
        match manifest_step(st, lines[i]) {
            Ok(st2) => {
                assert(st2.wheel_version is Some);
                lemma_scan_second_wheel_version(lines, i + 1, st2, k);
            },
            Err(_) => {},
        }
    }
}

/// A document with two `Wheel-Version` lines is rejected.  (When no other
/// malformed field precedes the second occurrence, the error is
/// `DuplicateField`; the scan stops at its first failure either way.)
pub proof fn lemma_duplicate_wheel_version_rejected(s: Seq<char>, k1: int, k2: int)
    requires
        0 <= k1 < k2 < spec_lines(s).len(),
        is_prefix("Wheel-Version: "@, spec_lines(s)[k1]),
        is_prefix("Wheel-Version: "@, spec_lines(s)[k2]),
    ensures
        spec_parse_wheel_file(s) is Err,
{
    lemma_scan_two_wheel_versions(spec_lines(s), 0, scan_init(), k1, k2);
}

/// Two `Wheel-Version` lines ahead of the scan fail it, whatever the state.
proof fn lemma_scan_two_wheel_versions(
    lines: Seq<Seq<char>>,
    i: int,
    st: ManifestScan,
    k1: int,
    k2: int,
)
    requires
        0 <= i <= k1 < k2 < lines.len(),
        is_prefix("Wheel-Version: "@, lines[k1]),
        is_prefix("Wheel-Version: "@, lines[k2]),
    ensures
        manifest_scan(lines, i, st) is Err,
    decreases lines.len() - i,
{
    match manifest_step(st, lines[i]) {
        Ok(st2) => {
            if is_prefix("Wheel-Version: "@, lines[i]) {
                assert(st2.wheel_version is Some);
                if i == k1 {
                    lemma_scan_second_wheel_version(lines, i + 1, st2, k2);
                } else {
                    lemma_scan_second_wheel_version(lines, i + 1, st2, k1);
                }
            } else {
                assert(i != k1);
                lemma_scan_two_wheel_versions(lines, i + 1, st2, k1, k2);
            }
        },
        Err(_) => {},
    }
}

/// While no `Generator` line remains ahead, the scan never fills the
/// generator field.
proof fn lemma_scan_no_generator(lines: Seq<Seq<char>>, i: int, st: ManifestScan)
    requires
        0 <= i,
        st.generator is None,
        forall|k: int| i <= k < lines.len() ==> !is_prefix("Generator: "@, #[trigger] lines[k]),
    ensures
        manifest_scan(lines, i, st) matches Ok(st2) ==> st2.generator is None,
    decreases lines.len() - i,
{
    if i < lines.len() {
        match manifest_step(st, lines[i]) {
            Ok(st2) => {
                assert(st2.generator is None);
                lemma_scan_no_generator(lines, i + 1, st2);
            },
            Err(_) => {},
        }
    }
}

/// A document with no `Generator` line at all is rejected.  (When every
/// other field is in order, the error is `MissingField`; an earlier
/// malformed field stops the scan first either way.)
pub proof fn lemma_missing_generator_rejected(s: Seq<char>)
    requires
        forall|k: int|
            0 <= k < spec_lines(s).len() ==> !is_prefix("Generator: "@, #[trigger] spec_lines(s)[k]),
    ensures
        spec_parse_wheel_file(s) is Err,
{
    lemma_scan_no_generator(spec_lines(s), 0, scan_init());
}

/// A `Build` line is recognized as such: its first character rules out every
/// other field prefix.
proof fn lemma_build_line_matches_only_build(line: Seq<char>)
    requires
        is_prefix("Build: "@, line),
    ensures
        !is_prefix("Wheel-Version: "@, line),
        !is_prefix("Generator: "@, line),
        !is_prefix("Root-Is-Purelib: "@, line),
        !is_prefix("Tag: "@, line),
{
    reveal_strlit("Build: ");
    reveal_strlit("Wheel-Version: ");
    reveal_strlit("Generator: ");
    reveal_strlit("Root-Is-Purelib: ");
    reveal_strlit("Tag: ");
    lemma_prefix_first_char("Build: "@, line);
    if is_prefix("Wheel-Version: "@, line) {
        lemma_prefix_first_char("Wheel-Version: "@, line);
    }
    if is_prefix("Generator: "@, line) {
        lemma_prefix_first_char("Generator: "@, line);
    }
    if is_prefix("Root-Is-Purelib: "@, line) {
        lemma_prefix_first_char("Root-Is-Purelib: "@, line);
    }
    if is_prefix("Tag: "@, line) {
        lemma_prefix_first_char("Tag: "@, line);
    }
}

/// A malformed `Build` line ahead of the scan fails it, whatever the state.
proof fn lemma_scan_bad_build(lines: Seq<Seq<char>>, i: int, st: ManifestScan, k: int)
    requires
        0 <= i <= k < lines.len(),
        is_prefix("Build: "@, lines[k]),
        spec_parse_build(line_value(lines[k], "Build: "@)) is None,
    ensures
        manifest_scan(lines, i, st) is Err,
    decreases lines.len() - i,
{
    if i == k {
        lemma_build_line_matches_only_build(lines[k]);
        assert(manifest_step(st, lines[i]) is Err);
    } else {
        match manifest_step(st, lines[i]) {
            Ok(st2) => {
                lemma_scan_bad_build(lines, i + 1, st2, k);
            },
            Err(_) => {},
        }
    }
}

/// A document with a `Build` line whose value is not a plain number is
/// rejected, never silently defaulted.  (When no other malformed field
/// precedes it, the error is `InvalidFieldValue`.)
pub proof fn lemma_invalid_build_rejected(s: Seq<char>, k: int)
    requires
        0 <= k < spec_lines(s).len(),
        is_prefix("Build: "@, spec_lines(s)[k]),
        spec_parse_build(line_value(spec_lines(s)[k], "Build: "@)) is None,
    ensures
        spec_parse_wheel_file(s) is Err,
{
    lemma_scan_bad_build(spec_lines(s), 0, scan_init(), k);
}

/// A `Tag` line is recognized as such: its first character rules out the
/// prefixes tested before it.
proof fn lemma_tag_line_matches_only_tag(line: Seq<char>)
    requires
        is_prefix("Tag: "@, line),
    ensures
        !is_prefix("Wheel-Version: "@, line),
        !is_prefix("Generator: "@, line),
        !is_prefix("Root-Is-Purelib: "@, line),
{
    reveal_strlit("Tag: ");
    reveal_strlit("Wheel-Version: ");
    reveal_strlit("Generator: ");
    reveal_strlit("Root-Is-Purelib: ");
    lemma_prefix_first_char("Tag: "@, line);
    if is_prefix("Wheel-Version: "@, line) {
        lemma_prefix_first_char("Wheel-Version: "@, line);
    }
    if is_prefix("Generator: "@, line) {
        lemma_prefix_first_char("Generator: "@, line);
    }
    if is_prefix("Root-Is-Purelib: "@, line) {
        lemma_prefix_first_char("Root-Is-Purelib: "@, line);
    }
}

/// The values of the `Tag` lines among `lines`, in input order.
pub open spec fn tag_values(lines: Seq<Seq<char>>) -> Seq<Seq<char>>
    decreases lines.len(),
{
    if lines.len() == 0 {
        Seq::empty()
    } else {
        let rest = tag_values(lines.drop_first());
        if is_prefix("Tag: "@, lines[0]) {
            seq![line_value(lines[0], "Tag: "@)] + rest
        } else {
            rest
        }
    }
}

/// The scan appends exactly the remaining `Tag` values, in order.
proof fn lemma_scan_tags(lines: Seq<Seq<char>>, i: int, st: ManifestScan)
    requires
        0 <= i <= lines.len(),
    ensures
        manifest_scan(lines, i, st) matches Ok(st2) ==> st2.tags == st.tags + tag_values(
            lines.skip(i),
        ),
    decreases lines.len() - i,
{
    if i == lines.len() {
        assert(tag_values(lines.skip(i)) =~= Seq::<Seq<char>>::empty());
        assert(st.tags + tag_values(lines.skip(i)) =~= st.tags);
    } else {
        assert(lines.skip(i).drop_first() =~= lines.skip(i + 1));
        assert(lines.skip(i)[0] == lines[i]);
        match manifest_step(st, lines[i]) {
            Ok(st2) => {
                lemma_scan_tags(lines, i + 1, st2);
                if is_prefix("Tag: "@, lines[i]) {
                    lemma_tag_line_matches_only_tag(lines[i]);
                    assert(st2.tags == st.tags.push(line_value(lines[i], "Tag: "@)));
                    if manifest_scan(lines, i + 1, st2) is Ok {
                        assert(st2.tags + tag_values(lines.skip(i + 1)) =~= st.tags + tag_values(
                            lines.skip(i),
                        ));
                    }
                } else {
                    assert(st2.tags == st.tags);
                    if manifest_scan(lines, i + 1, st2) is Ok {
                        assert(tag_values(lines.skip(i)) == tag_values(lines.skip(i + 1)));
                    }
                }
            },
            Err(_) => {},
        }
    }
}

/// Every `Tag` line of an accepted manifest appears among its tags, in input
/// order, with no cap and no deduplication.
pub proof fn lemma_tags_in_input_order(s: Seq<char>)
    ensures
        spec_parse_wheel_file(s) matches Ok(m) ==> m.tags == tag_values(spec_lines(s)),
{
    lemma_scan_tags(spec_lines(s), 0, scan_init());
    if spec_parse_wheel_file(s) is Ok {
        assert(spec_lines(s).skip(0) =~= spec_lines(s));
        match manifest_scan(spec_lines(s), 0, scan_init()) {
            Ok(st2) => {
                assert(st2.tags =~= scan_init().tags + tag_values(spec_lines(s)));
                assert(scan_init().tags + tag_values(spec_lines(s)) =~= tag_values(
                    spec_lines(s),
                ));
            },
            Err(_) => {},
        }
    }
}

impl WheelFile {
    /// Parses a manifest document, line by line, exactly as
    /// `spec_parse_wheel_file` describes.
    pub fn from_str(s: &str) -> (r: Result<WheelFile, WheelFileParseError>)
        ensures
            r is Ok <==> spec_parse_wheel_file(s@) is Ok,
            spec_parse_wheel_file(s@) matches Ok(m) ==> {
                &&& r matches Ok(wf)
                &&& wf@ == m
            },
            spec_parse_wheel_file(s@) matches Err(ManifestErr::Duplicate(f)) ==> r == Err::<
                WheelFile,
                WheelFileParseError,
            >(WheelFileParseError::DuplicateField(f)),
            spec_parse_wheel_file(s@) matches Err(ManifestErr::Invalid(f, d)) ==> {
                &&& r matches Err(WheelFileParseError::InvalidFieldValue(g, det))
                &&& g == f
                &&& det@ == d
            },
            spec_parse_wheel_file(s@) matches Err(ManifestErr::Missing(f)) ==> r == Err::<
                WheelFile,
                WheelFileParseError,
            >(WheelFileParseError::MissingField(f)),
    {
        let v = chars_of(s);
        let lines = split_lines(&v);
        let ghost sl = spec_lines(v@);
        let mut wheel_version: Option<String> = None;
        let mut generator: Option<String> = None;
        let mut root_is_purelib: Option<bool> = None;
        let mut tags: Vec<String> = Vec::new();
        let mut build: Option<usize> = None;
        let mut i: usize = 0;
        proof {
            assert(tags.deep_view() =~= Seq::<Seq<char>>::empty());
            assert(ManifestScan {
                wheel_version: wheel_version.deep_view(),
                generator: generator.deep_view(),
                root_is_purelib,
                tags: tags.deep_view(),
                build,
            } == scan_init());
        }
        while i < lines.len()
            invariant
                i <= lines.len(),
                manifest_scan(sl, 0, scan_init()) == manifest_scan(
                    sl,
                    i as int,
                    ManifestScan {
                        wheel_version: wheel_version.deep_view(),
                        generator: generator.deep_view(),
                        root_is_purelib,
                        tags: tags.deep_view(),
                        build,
                    },
                ),
            decreases lines.len() - i,
        {
            let ghost st = ManifestScan {
                wheel_version: wheel_version.deep_view(),
                generator: generator.deep_view(),
                root_is_purelib,
                tags: tags.deep_view(),
                build,
            };
            let line = &lines[i];
            proof {
                assert(line@ == sl[i as int]);
            }
            if has_prefix(line, "Wheel-Version: ") {
                if wheel_version.is_some() {
                    proof {
                        assert(manifest_step(st, sl[i as int]) == Err::<ManifestScan, ManifestErr>(
                            ManifestErr::Duplicate(WheelFileField::WheelVersion),
                        ));
                    }
                    return Err(WheelFileParseError::DuplicateField(WheelFileField::WheelVersion));
                }
                let plen = "Wheel-Version: ".unicode_len();
                let val = subvec(line, plen, line.len());
                proof {
                    assert(val@ =~= line_value(sl[i as int], "Wheel-Version: "@));
                }
                wheel_version = Some(string_of(&val));
            } else if has_prefix(line, "Generator: ") {
                if generator.is_some() {
                    return Err(WheelFileParseError::DuplicateField(WheelFileField::Generator));
                }
                let plen = "Generator: ".unicode_len();
                let val = subvec(line, plen, line.len());
                proof {
                    assert(val@ =~= line_value(sl[i as int], "Generator: "@));
                }
                generator = Some(string_of(&val));
            } else if has_prefix(line, "Root-Is-Purelib: ") {
                if root_is_purelib.is_some() {
                    return Err(
                        WheelFileParseError::DuplicateField(WheelFileField::RootIsPurelib),
                    );
                }
                let plen = "Root-Is-Purelib: ".unicode_len();
                let val = subvec(line, plen, line.len());
                proof {
                    assert(val@ =~= line_value(sl[i as int], "Root-Is-Purelib: "@));
                }
                if chars_eq(&val, "true") {
                    root_is_purelib = Some(true);
                } else if chars_eq(&val, "false") {
                    root_is_purelib = Some(false);
                } else {
                    return Err(
                        WheelFileParseError::InvalidFieldValue(
                            WheelFileField::RootIsPurelib,
                            string_of(&val),
                        ),
                    );
                }
            } else if has_prefix(line, "Tag: ") {
                let plen = "Tag: ".unicode_len();
                let val = subvec(line, plen, line.len());
                proof {
                    assert(val@ =~= line_value(sl[i as int], "Tag: "@));
                }
                tags.push(string_of(&val));
                proof {
                    assert(tags.deep_view() =~= st.tags.push(val@));
                }
            } else if has_prefix(line, "Build: ") {
                if build.is_some() {
                    return Err(WheelFileParseError::DuplicateField(WheelFileField::Build));
                }
                let plen = "Build: ".unicode_len();
                let val = subvec(line, plen, line.len());
                proof {
                    assert(val@ =~= line_value(sl[i as int], "Build: "@));
                }
                match parse_usize(&val) {
                    Some(n) => {
                        build = Some(n);
                    },
                    None => {
                        return Err(
                            WheelFileParseError::InvalidFieldValue(
                                WheelFileField::Build,
                                string_of(&val),
                            ),
                        );
                    },
                }
            }
            i = i + 1;
        }
        let ghost st = ManifestScan {
            wheel_version: wheel_version.deep_view(),
            generator: generator.deep_view(),
            root_is_purelib,
            tags: tags.deep_view(),
            build,
        };
        proof {
            assert(manifest_scan(sl, 0, scan_init()) == Ok::<ManifestScan, ManifestErr>(st));
        }
        let wheel_version = match wheel_version {
            None => {
                return Err(WheelFileParseError::MissingField(WheelFileField::WheelVersion));
            },
            Some(x) => x,
        };
        let generator = match generator {
            None => {
                return Err(WheelFileParseError::MissingField(WheelFileField::Generator));
            },
            Some(x) => x,
        };
        let root_is_purelib = match root_is_purelib {
            None => {
                return Err(WheelFileParseError::MissingField(WheelFileField::RootIsPurelib));
            },
            Some(x) => x,
        };
        Ok(
            WheelFile {
                wheel_version,
                generator,
                root_is_purelib,
                tags,
                build,
            },
        )
    }
}

} // verus!

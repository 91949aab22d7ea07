//! Parsers for the structured text artifacts of a Python binary-distribution
//! archive ("wheel"): the archive filename itself, the key/value manifest
//! (`WHEEL`), and the tabular file-integrity manifest (`RECORD`), turning
//! loosely specified text into validated records or closed, typed errors.
#![verifier::loop_isolation(false)]

pub mod metadata_file;
pub mod record_file;
pub mod text;
pub mod wheel_file;
pub mod wheel_name;

pub use metadata_file::{MetadataFile, ProjectURL};
pub use record_file::{Digest, Record, RecordFile, RecordFileParseError};
pub use wheel_file::{WheelFile, WheelFileField, WheelFileParseError};
pub use wheel_name::{BuildTag, WheelName, WheelNameParseError};

use vstd::prelude::*;

verus! {

/// Path of a member file inside the `.dist-info` directory of a wheel,
/// computed from the distribution name, the version and the member name.
pub fn dist_info_path(distribution: &str, version: &str, member: &str) -> (r: String)
    ensures
        r@ == distribution@ + "-"@ + version@ + ".dist-info/"@ + member@,
{
    let mut path = String::new();
    path.append(distribution);
    path.append("-");
    path.append(version);
    path.append(".dist-info/");
    path.append(member);
    path
}

} // verus!

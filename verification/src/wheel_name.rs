//! Parser for `*.whl` archive file names.
//!
//! A wheel file name has the shape
//! `{distribution}-{version}[-{build_tag}]-{python_tag}-{abi_tag}-{platform_tag}.whl`:
//! five or six dash-separated parts before a mandatory `.whl` suffix.  The
//! distribution identifier is validated and normalized here, the version
//! token is judged by the PEP 440 grammar of an outside crate, and the
//! optional build tag is split into a leading number and a free remainder.

use vstd::prelude::*;

use crate::text::{
    chars_of, digits_value, is_digit_char, parse_usize, split_char, split_chars, string_of, subvec,
};

verus! {

#[verifier::external_type_specification]
#[verifier::external_body]
pub struct ExVersion(pep440_rs::Version);

/// Relies on `pep440_rs::Version`'s derived `Clone`: a field-by-field copy of
/// plain data, so the clone equals the original.
pub assume_specification[ <pep440_rs::Version as Clone>::clone ](v: &pep440_rs::Version) -> (r:
    pep440_rs::Version)
    ensures
        r == *v,
;

/// What `pep440_rs::Version::from_str` decides about a token: whether the
/// token is a valid PEP 440 version, and the diagnostic handed back when it
/// is not.
pub uninterp spec fn pep440_check(s: Seq<char>) -> (bool, Seq<char>);

/// Relies on `pep440_rs::Version::from_str`: acceptance by the PEP 440
/// grammar and the diagnostic for a rejected token depend on the token alone.
#[verifier::external_body]
fn parse_version(s: &str) -> (r: Result<pep440_rs::Version, String>)
    ensures
        r is Ok <==> pep440_check(s@).0,
        r matches Err(e) ==> e@ == pep440_check(s@).1,
{
    <pep440_rs::Version as std::str::FromStr>::from_str(s)
}

/// A character the raw distribution identifier may contain: word characters
/// (letters, digits, underscore) and the dot.
pub open spec fn allowed_dist_char(c: char) -> bool {
    ('a' <= c && c <= 'z') || ('A' <= c && c <= 'Z') || ('0' <= c && c <= '9') || c == '_' || c
        == '.'
}

/// Two adjacent underscores occur somewhere in `s`.
pub open spec fn has_double_underscore(s: Seq<char>) -> bool {
    exists|i: int| 0 <= i && i + 1 < s.len() && #[trigger] s[i] == '_' && s[i + 1] == '_'
}

/// A raw distribution identifier: only allowed characters, and never two
/// adjacent underscores.
pub open spec fn valid_distribution(s: Seq<char>) -> bool {
    (forall|i: int| 0 <= i < s.len() ==> allowed_dist_char(s[i])) && !has_double_underscore(s)
}

/// An upper-case ASCII letter mapped to lower case; everything else kept.
pub open spec fn lower_char(c: char) -> char {
    if 'A' <= c && c <= 'Z' {
        ((c as u32) + 32) as char
    } else {
        c
    }
}

/// One character of distribution normalization: underscore and dot become a
/// dash, letters are lowered.
pub open spec fn norm_char(c: char) -> char {
    if c == '_' || c == '.' {
        '-'
    } else {
        lower_char(c)
    }
}

/// The canonical form of a distribution identifier: each character lowered,
/// with `_` and `.` replaced by `-`.
pub open spec fn normalize_distribution(s: Seq<char>) -> Seq<char> {
    s.map_values(|c: char| norm_char(c))
}

/// Normalization is idempotent: normalizing an already-normalized
/// distribution identifier leaves it unchanged.
pub proof fn lemma_normalize_idempotent(s: Seq<char>)
    ensures
        normalize_distribution(normalize_distribution(s)) == normalize_distribution(s),
{
    let n1 = normalize_distribution(s);
    assert forall|i: int| 0 <= i < n1.len() implies norm_char(#[trigger] n1[i]) == n1[i] by {
        assert(n1[i] == norm_char(s[i]));
    }
    assert(normalize_distribution(n1) =~= n1);
}

/// Whether the characters `v` form a valid raw distribution identifier.
fn check_distribution(v: &Vec<char>) -> (r: bool)
    ensures
        r == valid_distribution(v@),
{
    let mut i: usize = 0;
    while i < v.len()
        invariant
            i <= v.len(),
            forall|j: int| 0 <= j < i ==> allowed_dist_char(v@[j]),
            forall|j: int|
                0 <= j < i ==> !(j + 1 < v@.len() && #[trigger] v@[j] == '_' && v@[j + 1] == '_'),
        decreases v.len() - i,
    {
        let c = v[i];
        let ok = ('a' <= c && c <= 'z') || ('A' <= c && c <= 'Z') || ('0' <= c && c <= '9') || c
            == '_' || c == '.';
        if !ok {
            return false;
        }
        if c == '_' && i + 1 < v.len() && v[i + 1] == '_' {
            return false;
        }
        i = i + 1;
    }
    true
}

/// The normalized distribution identifier, as a `String`.
fn normalize_distribution_exec(v: &Vec<char>) -> (r: String)
    ensures
        r@ == normalize_distribution(v@),
{
    let mut out: Vec<char> = Vec::new();
    let mut i: usize = 0;
    while i < v.len()
        invariant
            i <= v.len(),
            out@ == normalize_distribution(v@.take(i as int)),
        decreases v.len() - i,
    {
        let c = v[i];
        let nc = if c == '_' || c == '.' {
            '-'
        } else if 'A' <= c && c <= 'Z' {
            (((c as u8) + 32) as char)
        } else {
            c
        };
        proof {
            assert(nc == norm_char(v@[i as int]));
        }
        out.push(nc);
        proof {
            assert(normalize_distribution(v@.take(i + 1)) =~= normalize_distribution(
                v@.take(i as int),
            ).push(norm_char(v@[i as int])));
        }
        i = i + 1;
    }
    proof {
        assert(v@.take(v.len() as int) =~= v@);
    }
    string_of(&out)
}

/// The length of the longest run of decimal digits at the front of `s`.
pub open spec fn digit_run_len(s: Seq<char>) -> int
    decreases s.len(),
{
    if s.len() == 0 || !is_digit_char(s[0]) {
        0
    } else {
        1 + digit_run_len(s.drop_first())
    }
}

/// `digit_run_len` is the unique cut: digits up to it, none right after it.
pub proof fn lemma_digit_run_len(s: Seq<char>, i: int)
    requires
        0 <= i <= s.len(),
        forall|j: int| 0 <= j < i ==> is_digit_char(s[j]),
        i == s.len() || !is_digit_char(s[i]),
    ensures
        digit_run_len(s) == i,
    decreases i,
{
    if i > 0 {
        lemma_digit_run_len(s.drop_first(), i - 1);
    }
}

/// `tok` is a well-formed build tag: a non-empty leading digit run whose
/// value fits the target integer width.
pub open spec fn build_tag_ok(tok: Seq<char>) -> bool {
    digit_run_len(tok) >= 1 && digits_value(tok.take(digit_run_len(tok))) <= usize::MAX
}

/// The numeric part of a build tag token.
pub open spec fn build_tag_number(tok: Seq<char>) -> nat {
    digits_value(tok.take(digit_run_len(tok)))
}

/// The optional build tag of a wheel: a leading number and whatever trails
/// it.
#[derive(Debug, Clone, PartialEq, Eq)]
pub struct BuildTag {
    pub number: usize,
    pub remainder: Option<String>,
}

impl BuildTag {
    /// Parses a build tag token: the longest leading digit run is the
    /// number, the rest (if any) the remainder.  A token with no leading
    /// digit, or a number too large for `usize`, is rejected.
    pub fn from_str(s: &str) -> (r: Result<BuildTag, WheelNameParseError>)
        ensures
            r is Ok <==> build_tag_ok(s@),
            r matches Ok(bt) ==> {
                &&& bt.number == build_tag_number(s@)
                &&& (digit_run_len(s@) == s@.len() ==> bt.remainder is None)
                &&& (digit_run_len(s@) < s@.len() ==> {
                    &&& bt.remainder matches Some(rm)
                    &&& rm@ == s@.skip(digit_run_len(s@))
                })
            },
            r matches Err(e) ==> e matches WheelNameParseError::InvalidBuildTag(t) && t@ == s@,
    {
        let v = chars_of(s);
        let mut k: usize = 0;
        while k < v.len() && '0' <= v[k] && v[k] <= '9'
            invariant
                k <= v.len(),
                forall|j: int| 0 <= j < k ==> is_digit_char(v@[j]),
            decreases v.len() - k,
        {
            k = k + 1;
        }
        proof {
            lemma_digit_run_len(v@, k as int);
        }
        if k == 0 {
            return Err(WheelNameParseError::InvalidBuildTag(s.to_owned()));
        }
        let numv = subvec(&v, 0, k);
        proof {
            assert(numv@ =~= s@.take(k as int));
        }
        match parse_usize(&numv) {
            None => Err(WheelNameParseError::InvalidBuildTag(s.to_owned())),
            Some(number) => {
                let remainder = if k == v.len() {
                    None
                } else {
                    let remv = subvec(&v, k, v.len());
                    proof {
                        assert(remv@ =~= s@.skip(k as int));
                    }
                    Some(string_of(&remv))
                };
                Ok(BuildTag { number, remainder })
            },
        }
    }
}

/// Why a file name failed to parse as a wheel name.
#[derive(Debug, Clone, PartialEq, Eq)]
pub enum WheelNameParseError {
    /// The name does not end with `.whl`.
    NotAWheel,
    /// The name has neither five nor six dash-separated parts.
    PartMismatch,
    /// The distribution identifier holds a forbidden character or a doubled
    /// underscore; the payload is the raw identifier.
    InvalidDistributionName(String),
    /// The version token does not follow PEP 440; the payload is the
    /// grammar's own diagnostic, passed through verbatim.
    InvalidVersion(String),
    /// The build tag token has no leading digits or an oversized number; the
    /// payload is the raw token.
    InvalidBuildTag(String),
}

/// `s` ends with the literal `.whl`.
pub open spec fn has_whl_suffix(s: Seq<char>) -> bool {
    s.len() >= 4 && s[s.len() - 4] == '.' && s[s.len() - 3] == 'w' && s[s.len() - 2] == 'h' && s[
        s.len() - 1
    ] == 'l'
}

/// `s` with the `.whl` suffix removed.
pub open spec fn wheel_stem(s: Seq<char>) -> Seq<char> {
    s.take(s.len() - 4)
}

/// The dash-separated parts of a wheel name's stem.
pub open spec fn wheel_parts(s: Seq<char>) -> Seq<Seq<char>> {
    split_char(wheel_stem(s), '-')
}

/// Every field of a well-formed wheel name is in order: the suffix and part
/// count are right, the distribution is valid, the version token passes the
/// PEP 440 grammar, and a sixth part (when present) is a well-formed build
/// tag.
pub open spec fn wheel_name_ok(s: Seq<char>) -> bool {
    &&& has_whl_suffix(s)
    &&& (wheel_parts(s).len() == 5 || wheel_parts(s).len() == 6)
    &&& valid_distribution(wheel_parts(s)[0])
    &&& pep440_check(wheel_parts(s)[1]).0
    &&& (wheel_parts(s).len() == 6 ==> build_tag_ok(wheel_parts(s)[2]))
}

/// A parsed and validated wheel file name.
#[derive(Debug, Clone, PartialEq, Eq)]
pub struct WheelName {
    /// Normalized distribution identifier: lower case, `_` and `.` mapped to
    /// `-`.
    pub distribution: String,
    /// The validated version, opaque to this crate; ordering and equality
    /// are the version grammar's.
    pub version: pep440_rs::Version,
    /// The optional build tag, present exactly when the name has six parts.
    pub build_tag: Option<BuildTag>,
    pub python_tag: String,
    pub abi_tag: String,
    pub platform_tag: String,
}

impl WheelName {
    /// Parses a wheel file name.  The `.whl` suffix is stripped, the stem is
    /// split on `-` into exactly five or six parts, the distribution is
    /// validated and normalized, the version token is judged by the PEP 440
    /// grammar, and a sixth part is parsed as the build tag.  The trailing
    /// three parts are taken verbatim.
    pub fn from_str(s: &str) -> (r: Result<WheelName, WheelNameParseError>)
        ensures
            r is Ok <==> wheel_name_ok(s@),
            !has_whl_suffix(s@) ==> r == Err::<WheelName, WheelNameParseError>(WheelNameParseError::NotAWheel),
            has_whl_suffix(s@) && wheel_parts(s@).len() != 5 && wheel_parts(s@).len() != 6 ==> r
                == Err::<WheelName, WheelNameParseError>(WheelNameParseError::PartMismatch),
            has_whl_suffix(s@) && (wheel_parts(s@).len() == 5 || wheel_parts(s@).len() == 6)
                && !valid_distribution(wheel_parts(s@)[0]) ==> (r matches Err(
                WheelNameParseError::InvalidDistributionName(d),
            ) && d@ == wheel_parts(s@)[0]),
            has_whl_suffix(s@) && (wheel_parts(s@).len() == 5 || wheel_parts(s@).len() == 6)
                && valid_distribution(wheel_parts(s@)[0]) && !pep440_check(wheel_parts(s@)[1]).0
                ==> (r matches Err(WheelNameParseError::InvalidVersion(e)) && e@ == pep440_check(
                wheel_parts(s@)[1],
            ).1),
            has_whl_suffix(s@) && wheel_parts(s@).len() == 6 && valid_distribution(
                wheel_parts(s@)[0],
            ) && pep440_check(wheel_parts(s@)[1]).0 && !build_tag_ok(wheel_parts(s@)[2]) ==> (
            r matches Err(WheelNameParseError::InvalidBuildTag(t)) && t@ == wheel_parts(s@)[2]),
            r matches Ok(w) ==> {
                let parts = wheel_parts(s@);
                let np = parts.len();
                &&& w.distribution@ == normalize_distribution(parts[0])
                &&& (w.build_tag is Some <==> np == 6)
                &&& (np == 6 ==> {
                    &&& w.build_tag matches Some(bt)
                    &&& bt.number == build_tag_number(parts[2])
                    &&& (digit_run_len(parts[2]) == parts[2].len() ==> bt.remainder is None)
                    &&& (digit_run_len(parts[2]) < parts[2].len() ==> {
                        &&& bt.remainder matches Some(rm)
                        &&& rm@ == parts[2].skip(digit_run_len(parts[2]))
                    })
                })
                &&& w.python_tag@ == parts[np - 3]
                &&& w.abi_tag@ == parts[np - 2]
                &&& w.platform_tag@ == parts[np - 1]
            },
    {
        let v = chars_of(s);
        let n = v.len();
        if !(n >= 4 && v[n - 4] == '.' && v[n - 3] == 'w' && v[n - 2] == 'h' && v[n - 1] == 'l') {
            return Err(WheelNameParseError::NotAWheel);
        }
        let stem = subvec(&v, 0, n - 4);
        proof {
            assert(stem@ =~= wheel_stem(s@));
        }
        let parts = split_chars(&stem, '-');
        let np = parts.len();
        if !(np == 5 || np == 6) {
            return Err(WheelNameParseError::PartMismatch);
        }
        if !check_distribution(&parts[0]) {
            return Err(WheelNameParseError::InvalidDistributionName(string_of(&parts[0])));
        }
        let distribution = normalize_distribution_exec(&parts[0]);
        let vstr = string_of(&parts[1]);
        let version = match parse_version(vstr.as_str()) {
            Err(reason) => {
                return Err(WheelNameParseError::InvalidVersion(reason));
            },
            Ok(version) => version,
        };
        let (build_tag, index_offset) = if np == 6 {
            let btok = string_of(&parts[2]);
            match BuildTag::from_str(btok.as_str()) {
                Err(e) => {
                    return Err(e);
                },
                Ok(bt) => (Some(bt), 1usize),
            }
        } else {
            (None, 0usize)
        };
        let python_tag = string_of(&parts[2 + index_offset]);
        let abi_tag = string_of(&parts[3 + index_offset]);
        let platform_tag = string_of(&parts[4 + index_offset]);
        Ok(
            WheelName {
                distribution,
                version,
                build_tag,
                python_tag,
                abi_tag,
                platform_tag,
            },
        )
    }
}

} // verus!


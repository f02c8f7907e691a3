//! The version of the selected Xcode, taken apart into its dotted fields.

use vstd::prelude::*;

verus! {

/// The end of the field that starts at `from`: the place of the next `.`, or
/// the end of the string.
pub open spec fn field_end(s: Seq<char>, from: int) -> int
    decreases s.len() - from,
{
    if from >= s.len() || s[from] == '.' {
        from
    } else {
        field_end(s, from + 1)
    }
}

/// The field that starts at `from`.
pub open spec fn field_at(s: Seq<char>, from: int) -> Seq<char> {
    s.subrange(from, field_end(s, from))
}

/// Where the field after the one at `from` starts, if a `.` follows it.
pub open spec fn next_field(s: Seq<char>, from: int) -> Option<int> {
    if field_end(s, from) < s.len() {
        Some(field_end(s, from) + 1)
    } else {
        None
    }
}

/// The first field of a version string.
pub open spec fn major_of(s: Seq<char>) -> Seq<char> {
    field_at(s, 0)
}

/// The second field, if there is one.
pub open spec fn minor_of(s: Seq<char>) -> Option<Seq<char>> {
    match next_field(s, 0) {
        Some(second) => Some(field_at(s, second)),
        None => None,
    }
}

/// The third field, which is read as `0` where the string has none.
pub open spec fn patch_of(s: Seq<char>) -> Seq<char> {
    match next_field(s, 0) {
        Some(second) => match next_field(s, second) {
            Some(third) => field_at(s, third),
            None => "0"@,
        },
        None => "0"@,
    }
}

/// The characters of an optional string.
pub open spec fn text_of(field: Option<String>) -> Option<Seq<char>> {
    match field {
        Some(text) => Some(text@),
        None => None,
    }
}


/// The end of the field of `s` that starts at `from`.
fn find_field_end(s: &str, from: usize, len: usize) -> (end: usize)
    requires
        len == s@.len(),
        from <= len,
    ensures
        end == field_end(s@, from as int),
        from <= end <= len,
{
    let mut at: usize = from;
    while at < len
        invariant
            from <= at <= len,
            len == s@.len(),
            field_end(s@, at as int) == field_end(s@, from as int),
        decreases len - at,
    {
        if s.get_char(at) == '.' {
            return at;
        }
        at += 1;
    }
    at
}

/// Versioning information for the currently selected Xcode on the host machine.
#[derive(Debug, Default, PartialEq)]
pub struct XcodeVersionInfo {
    /// e.g. "14.0.1"
    pub version_string: Option<String>,
    /// The "14" in "14.0.1"
    pub major_version: Option<String>,
    /// The "0" in "14.0.1"
    pub minor_version: Option<String>,
    /// The "1" in "14.0.1"
    pub patch_version: Option<String>,
    /// Xcode-specific build number like "14A309"
    pub build_number: Option<String>,
}

impl XcodeVersionInfo {
    /// The information that a short version string carries: the string itself
    /// and its first three fields. A missing third field is read as `0`; the
    /// string holds no build number.
    pub fn from_version_string(version: &str) -> (info: Self)
        ensures
            text_of(info.version_string) == Some(version@),
            text_of(info.major_version) == Some(major_of(version@)),
            text_of(info.minor_version) == minor_of(version@),
            text_of(info.patch_version) == Some(patch_of(version@)),
            info.build_number is None,
    {
        let len = version.unicode_len();
        let major_end = find_field_end(version, 0, len);
        let major = version.substring_char(0, major_end).to_owned();
        let mut minor: Option<String> = None;
        let mut patch: Option<String> = None;
        if major_end < len {
            let minor_end = find_field_end(version, major_end + 1, len);
            minor = Some(version.substring_char(major_end + 1, minor_end).to_owned());
            if minor_end < len {
                let patch_end = find_field_end(version, minor_end + 1, len);
                patch = Some(version.substring_char(minor_end + 1, patch_end).to_owned());
            }
        }
        let patch = match patch {
            Some(text) => Some(text),
            None => Some("0".to_owned()),
        };
        XcodeVersionInfo {
            version_string: Some(version.to_owned()),
            major_version: Some(major),
            minor_version: minor,
            patch_version: patch,
            build_number: None,
        }
    }
}

} // verus!

//! Reading capture timestamps from exiftool output, and the file filters the
//! discovery walk uses.
//!
//! The metadata tool is an external collaborator: it prints one line per
//! file, holding either a timestamp in the layout `YYYY:MM:DD HH:MM:SS` or
//! something that does not parse (such as `-`). This module turns one such
//! line into the library's [`Timestamp`], tolerating unparsable lines by
//! returning `None`, never by failing.

use vstd::prelude::*;
use vstd::string::StrSliceExecFns;

use crate::datefmt::Timestamp;
use crate::pathname::spec_basename;
use crate::pathname::spec_trim;
use crate::pathname::suffix_start;
use crate::pathname::basename;
use crate::pathname::last_sep_index;
use crate::pathname::trim;

verus! {

/// A discovered file and its capture timestamp, when it has one.
#[derive(Debug)]
pub struct ExifFile {
    pub path: String,
    pub date_time: Option<Timestamp>,
}

/// What chrono's `NaiveDateTime::parse_from_str` yields for a line in the
/// layout `%Y:%m:%d %H:%M:%S`: the calendar fields, or `None` when the line
/// does not parse. The result is a function of the line alone.
pub uninterp spec fn exif_datetime_of(line: Seq<char>) -> Option<(i32, u32, u32, u32, u32, u32)>;

/// Relies on chrono's `NaiveDateTime::parse_from_str` with the layout
/// `%Y:%m:%d %H:%M:%S`, and on its `Datelike` and `Timelike` accessors, to
/// read the calendar fields of one exiftool output line. The parse result
/// depends on the line alone.
#[verifier::external_body]
fn parse_exif_datetime(line: &str) -> (r: Option<(i32, u32, u32, u32, u32, u32)>)
    ensures
        r == exif_datetime_of(line@),
{
    match chrono::NaiveDateTime::parse_from_str(line, "%Y:%m:%d %H:%M:%S") {
        Ok(dt) => Some(
            (
                chrono::Datelike::year(&dt),
                chrono::Datelike::month(&dt),
                chrono::Datelike::day(&dt),
                chrono::Timelike::hour(&dt),
                chrono::Timelike::minute(&dt),
                chrono::Timelike::second(&dt),
            ),
        ),
        Err(_) => None,
    }
}

/// The timestamp one exiftool output line carries, if any: the line is
/// trimmed, parsed, and its fields are checked against [`Timestamp`]'s
/// ranges.
pub open spec fn spec_timestamp_from_line(line: Seq<char>) -> Option<Timestamp> {
    match exif_datetime_of(spec_trim(line)) {
        Some(p) => Timestamp::spec_from_parts(p.0, p.1, p.2, p.3, p.4, p.5),
        None => None,
    }
}

/// Reads the capture timestamp from one line of exiftool output, `None` when
/// the line holds no parsable timestamp.
pub fn timestamp_from_exif_line(line: &str) -> (r: Option<Timestamp>)
    ensures
        r == spec_timestamp_from_line(line@),
        r matches Some(t) ==> t.well_formed(),
{
    let trimmed = trim(line);
    match parse_exif_datetime(trimmed) {
        Some((year, month, day, hour, minute, second)) => Timestamp::from_parts(
            year,
            month,
            day,
            hour,
            minute,
            second,
        ),
        None => None,
    }
}

/// A hidden directory entry: its name starts with a dot.
pub open spec fn spec_is_hidden(name: Seq<char>) -> bool {
    name.len() > 0 && name[0] == '.'
}

/// Whether a directory entry name is hidden (starts with a dot); the
/// discovery walk skips such entries.
pub fn is_hidden(name: &str) -> (r: bool)
    ensures
        r == spec_is_hidden(name@),
{
    if name.is_empty() {
        false
    } else {
        name.get_char(0) == '.'
    }
}

/// `c` with an ASCII lowercase letter raised to uppercase.
pub open spec fn spec_upper_char(c: char) -> char {
    if 'a' <= c && c <= 'z' {
        ((c as u8) - 32) as char
    } else {
        c
    }
}

/// `s` with every ASCII lowercase letter raised to uppercase.
pub open spec fn spec_upper(s: Seq<char>) -> Seq<char> {
    s.map_values(|c: char| spec_upper_char(c))
}

fn upper_char(c: char) -> (r: char)
    ensures
        r == spec_upper_char(c),
{
    if 'a' <= c && c <= 'z' {
        ((c as u8) - 32) as char
    } else {
        c
    }
}

/// True when `s`, raised to ASCII uppercase, equals `upper`: the
/// case-insensitive comparison the extension allowlist uses.
fn matches_upper(s: &str, upper: &str) -> (r: bool)
    ensures
        r == (spec_upper(s@) == upper@),
{
    let n = s.unicode_len();
    let m = upper.unicode_len();
    if n != m {
        proof {
            assert(spec_upper(s@).len() == s@.len());
        }
        return false;
    }
    let mut i: usize = 0;
    while i < n
        invariant
            n == s@.len(),
            m == upper@.len(),
            n == m,
            0 <= i <= n,
            forall|j: int| 0 <= j < i ==> spec_upper(s@)[j] == upper@[j],
        decreases n - i,
    {
        if upper_char(s.get_char(i)) != upper.get_char(i) {
            proof {
                assert(spec_upper(s@)[i as int] == spec_upper_char(s@[i as int]));
            }
            return false;
        }
        i = i + 1;
    }
    proof {
        assert(spec_upper(s@) =~= upper@);
    }
    true
}

/// Whether an extension, compared without regard to ASCII case, is one the
/// metadata tool understands.
pub open spec fn spec_extension_allowed(ext: Seq<char>) -> bool {
    ||| spec_upper(ext) == "360"@
    ||| spec_upper(ext) == "3G2"@
    ||| spec_upper(ext) == "3GP2"@
    ||| spec_upper(ext) == "3GP"@
    ||| spec_upper(ext) == "3GPP"@
    ||| spec_upper(ext) == "AAX"@
    ||| spec_upper(ext) == "AI"@
    ||| spec_upper(ext) == "AIT"@
    ||| spec_upper(ext) == "ARQ"@
    ||| spec_upper(ext) == "ARW"@
    ||| spec_upper(ext) == "AVIF"@
    ||| spec_upper(ext) == "CR2"@
    ||| spec_upper(ext) == "CR3"@
    ||| spec_upper(ext) == "CRM"@
    ||| spec_upper(ext) == "CRW"@
    ||| spec_upper(ext) == "CIFF"@
    ||| spec_upper(ext) == "CS1"@
    ||| spec_upper(ext) == "DCP"@
    ||| spec_upper(ext) == "DNG"@
    ||| spec_upper(ext) == "DR4"@
    ||| spec_upper(ext) == "DVB"@
    ||| spec_upper(ext) == "EPS"@
    ||| spec_upper(ext) == "EPSF"@
    ||| spec_upper(ext) == "PS"@
    ||| spec_upper(ext) == "ERF"@
    ||| spec_upper(ext) == "EXIF"@
    ||| spec_upper(ext) == "EXV"@
    ||| spec_upper(ext) == "F4A"@
    ||| spec_upper(ext) == "F4B"@
    ||| spec_upper(ext) == "F4P"@
    ||| spec_upper(ext) == "F4V"@
    ||| spec_upper(ext) == "FFF"@
    ||| spec_upper(ext) == "FLIF"@
    ||| spec_upper(ext) == "GIF"@
    ||| spec_upper(ext) == "GPR"@
    ||| spec_upper(ext) == "HDP"@
    ||| spec_upper(ext) == "WDP"@
    ||| spec_upper(ext) == "JXR"@
    ||| spec_upper(ext) == "HEIC"@
    ||| spec_upper(ext) == "HEIF"@
    ||| spec_upper(ext) == "HIF"@
    ||| spec_upper(ext) == "ICC"@
    ||| spec_upper(ext) == "ICM"@
    ||| spec_upper(ext) == "IIQ"@
    ||| spec_upper(ext) == "IND"@
    ||| spec_upper(ext) == "INDD"@
    ||| spec_upper(ext) == "INDT"@
    ||| spec_upper(ext) == "INSP"@
    ||| spec_upper(ext) == "JP2"@
    ||| spec_upper(ext) == "JPF"@
    ||| spec_upper(ext) == "JPM"@
    ||| spec_upper(ext) == "JPX"@
    ||| spec_upper(ext) == "JPEG"@
    ||| spec_upper(ext) == "JPG"@
    ||| spec_upper(ext) == "JPE"@
    ||| spec_upper(ext) == "JXL"@
    ||| spec_upper(ext) == "LRV"@
    ||| spec_upper(ext) == "M4A"@
    ||| spec_upper(ext) == "M4B"@
    ||| spec_upper(ext) == "M4P"@
    ||| spec_upper(ext) == "M4V"@
    ||| spec_upper(ext) == "MEF"@
    ||| spec_upper(ext) == "MIE"@
    ||| spec_upper(ext) == "MOS"@
    ||| spec_upper(ext) == "MOV"@
    ||| spec_upper(ext) == "QT"@
    ||| spec_upper(ext) == "MP4"@
    ||| spec_upper(ext) == "MPO"@
    ||| spec_upper(ext) == "MQV"@
    ||| spec_upper(ext) == "MRW"@
    ||| spec_upper(ext) == "NEF"@
    ||| spec_upper(ext) == "NRW"@
    ||| spec_upper(ext) == "ORF"@
    ||| spec_upper(ext) == "PDF"@
    ||| spec_upper(ext) == "PEF"@
    ||| spec_upper(ext) == "PNG"@
    ||| spec_upper(ext) == "JNG"@
    ||| spec_upper(ext) == "MNG"@
    ||| spec_upper(ext) == "PPM"@
    ||| spec_upper(ext) == "PBM"@
    ||| spec_upper(ext) == "PGM"@
    ||| spec_upper(ext) == "PSD"@
    ||| spec_upper(ext) == "PSB"@
    ||| spec_upper(ext) == "PSDT"@
    ||| spec_upper(ext) == "QTIF"@
    ||| spec_upper(ext) == "QTI"@
    ||| spec_upper(ext) == "QIF"@
    ||| spec_upper(ext) == "RAF"@
    ||| spec_upper(ext) == "RAW"@
    ||| spec_upper(ext) == "RW2"@
    ||| spec_upper(ext) == "RWL"@
    ||| spec_upper(ext) == "SR2"@
    ||| spec_upper(ext) == "SRW"@
    ||| spec_upper(ext) == "THM"@
    ||| spec_upper(ext) == "TIFF"@
    ||| spec_upper(ext) == "TIF"@
    ||| spec_upper(ext) == "VRD"@
    ||| spec_upper(ext) == "WEBP"@
    ||| spec_upper(ext) == "X3F"@
    ||| spec_upper(ext) == "XMP"@
}

fn extension_allowed(ext: &str) -> (r: bool)
    ensures
        r == spec_extension_allowed(ext@),
{
    if matches_upper(ext, "360") {
        return true;
    }
    if matches_upper(ext, "3G2") {
        return true;
    }
    if matches_upper(ext, "3GP2") {
        return true;
    }
    if matches_upper(ext, "3GP") {
        return true;
    }
    if matches_upper(ext, "3GPP") {
        return true;
    }
    if matches_upper(ext, "AAX") {
        return true;
    }
    if matches_upper(ext, "AI") {
        return true;
    }
    if matches_upper(ext, "AIT") {
        return true;
    }
    if matches_upper(ext, "ARQ") {
        return true;
    }
    if matches_upper(ext, "ARW") {
        return true;
    }
    if matches_upper(ext, "AVIF") {
        return true;
    }
    if matches_upper(ext, "CR2") {
        return true;
    }
    if matches_upper(ext, "CR3") {
        return true;
    }
    if matches_upper(ext, "CRM") {
        return true;
    }
    if matches_upper(ext, "CRW") {
        return true;
    }
    if matches_upper(ext, "CIFF") {
        return true;
    }
    if matches_upper(ext, "CS1") {
        return true;
    }
    if matches_upper(ext, "DCP") {
        return true;
    }
    if matches_upper(ext, "DNG") {
        return true;
    }
    if matches_upper(ext, "DR4") {
        return true;
    }
    if matches_upper(ext, "DVB") {
        return true;
    }
    if matches_upper(ext, "EPS") {
        return true;
    }
    if matches_upper(ext, "EPSF") {
        return true;
    }
    if matches_upper(ext, "PS") {
        return true;
    }
    if matches_upper(ext, "ERF") {
        return true;
    }
    if matches_upper(ext, "EXIF") {
        return true;
    }
    if matches_upper(ext, "EXV") {
        return true;
    }
    if matches_upper(ext, "F4A") {
        return true;
    }
    if matches_upper(ext, "F4B") {
        return true;
    }
    if matches_upper(ext, "F4P") {
        return true;
    }
    if matches_upper(ext, "F4V") {
        return true;
    }
    if matches_upper(ext, "FFF") {
        return true;
    }
    if matches_upper(ext, "FLIF") {
        return true;
    }
    if matches_upper(ext, "GIF") {
        return true;
    }
    if matches_upper(ext, "GPR") {
        return true;
    }
    if matches_upper(ext, "HDP") {
        return true;
    }
    if matches_upper(ext, "WDP") {
        return true;
    }
    if matches_upper(ext, "JXR") {
        return true;
    }
    if matches_upper(ext, "HEIC") {
        return true;
    }
    if matches_upper(ext, "HEIF") {
        return true;
    }
    if matches_upper(ext, "HIF") {
        return true;
    }
    if matches_upper(ext, "ICC") {
        return true;
    }
    if matches_upper(ext, "ICM") {
        return true;
    }
    if matches_upper(ext, "IIQ") {
        return true;
    }
    if matches_upper(ext, "IND") {
        return true;
    }
    if matches_upper(ext, "INDD") {
        return true;
    }
    if matches_upper(ext, "INDT") {
        return true;
    }
    if matches_upper(ext, "INSP") {
        return true;
    }
    if matches_upper(ext, "JP2") {
        return true;
    }
    if matches_upper(ext, "JPF") {
        return true;
    }
    if matches_upper(ext, "JPM") {
        return true;
    }
    if matches_upper(ext, "JPX") {
        return true;
    }
    if matches_upper(ext, "JPEG") {
        return true;
    }
    if matches_upper(ext, "JPG") {
        return true;
    }
    if matches_upper(ext, "JPE") {
        return true;
    }
    if matches_upper(ext, "JXL") {
        return true;
    }
    if matches_upper(ext, "LRV") {
        return true;
    }
    if matches_upper(ext, "M4A") {
        return true;
    }
    if matches_upper(ext, "M4B") {
        return true;
    }
    if matches_upper(ext, "M4P") {
        return true;
    }
    if matches_upper(ext, "M4V") {
        return true;
    }
    if matches_upper(ext, "MEF") {
        return true;
    }
    if matches_upper(ext, "MIE") {
        return true;
    }
    if matches_upper(ext, "MOS") {
        return true;
    }
    if matches_upper(ext, "MOV") {
        return true;
    }
    if matches_upper(ext, "QT") {
        return true;
    }
    if matches_upper(ext, "MP4") {
        return true;
    }
    if matches_upper(ext, "MPO") {
        return true;
    }
    if matches_upper(ext, "MQV") {
        return true;
    }
    if matches_upper(ext, "MRW") {
        return true;
    }
    if matches_upper(ext, "NEF") {
        return true;
    }
    if matches_upper(ext, "NRW") {
        return true;
    }
    if matches_upper(ext, "ORF") {
        return true;
    }
    if matches_upper(ext, "PDF") {
        return true;
    }
    if matches_upper(ext, "PEF") {
        return true;
    }
    if matches_upper(ext, "PNG") {
        return true;
    }
    if matches_upper(ext, "JNG") {
        return true;
    }
    if matches_upper(ext, "MNG") {
        return true;
    }
    if matches_upper(ext, "PPM") {
        return true;
    }
    if matches_upper(ext, "PBM") {
        return true;
    }
    if matches_upper(ext, "PGM") {
        return true;
    }
    if matches_upper(ext, "PSD") {
        return true;
    }
    if matches_upper(ext, "PSB") {
        return true;
    }
    if matches_upper(ext, "PSDT") {
        return true;
    }
    if matches_upper(ext, "QTIF") {
        return true;
    }
    if matches_upper(ext, "QTI") {
        return true;
    }
    if matches_upper(ext, "QIF") {
        return true;
    }
    if matches_upper(ext, "RAF") {
        return true;
    }
    if matches_upper(ext, "RAW") {
        return true;
    }
    if matches_upper(ext, "RW2") {
        return true;
    }
    if matches_upper(ext, "RWL") {
        return true;
    }
    if matches_upper(ext, "SR2") {
        return true;
    }
    if matches_upper(ext, "SRW") {
        return true;
    }
    if matches_upper(ext, "THM") {
        return true;
    }
    if matches_upper(ext, "TIFF") {
        return true;
    }
    if matches_upper(ext, "TIF") {
        return true;
    }
    if matches_upper(ext, "VRD") {
        return true;
    }
    if matches_upper(ext, "WEBP") {
        return true;
    }
    if matches_upper(ext, "X3F") {
        return true;
    }
    if matches_upper(ext, "XMP") {
        return true;
    }
    false
}

/// Index within the basename of `path` where its extension begins (just
/// after the last dot). The basename has an extension only when this index
/// is two or more: a name without a dot, or whose only dot starts it (a
/// hidden file), has none.
pub open spec fn spec_extension_start(path: Seq<char>) -> int {
    suffix_start(spec_basename(path), '.')
}

/// Whether the basename of `path` has an extension.
pub open spec fn spec_has_extension(path: Seq<char>) -> bool {
    spec_extension_start(path) >= 2
}

/// The extension of `path`: what follows the last dot of its basename.
pub open spec fn spec_extension(path: Seq<char>) -> Seq<char> {
    spec_basename(path).subrange(spec_extension_start(path), spec_basename(path).len() as int)
}

/// Whether `path` names a file the metadata tool understands, judged by its
/// extension alone, without regard to ASCII case. Whether the path is a
/// regular file on disk is the caller's check.
pub open spec fn spec_matches_file_extensions(path: Seq<char>) -> bool {
    spec_has_extension(path) && spec_extension_allowed(spec_extension(path))
}

/// Checks the extension of `path` against the allowlist of extensions the
/// metadata tool understands, without regard to ASCII case.
pub fn matches_file_extensions(path: &str) -> (r: bool)
    ensures
        r == spec_matches_file_extensions(path@),
{
    let name = basename(path);
    let len = name.unicode_len();
    let k = last_sep_index(name, '.');
    if k < 2 {
        return false;
    }
    let ext = name.substring_char(k, len);
    extension_allowed(ext)
}

} // verus!

//! The invocations of the two outside programs: the encoder and the metadata
//! tool.
use vstd::prelude::*;
use vstd::string::*;

use crate::asset::{CompressionError, ErrorView, VideoFile};
use crate::scanner::strings_view;
use crate::text::{offset_string, offset_text};

verus! {

/// The program that compresses.
pub fn encoder_program() -> (r: &'static str)
    ensures
        r@ == "ffmpeg"@,
{
    "ffmpeg"
}

/// The program that rewrites the creation date.
pub fn metadata_program() -> (r: &'static str)
    ensures
        r@ == "exiftool"@,
{
    "exiftool"
}

/// H.264 at constant rate factor 23, AAC audio at 128 kbit/s, metadata
/// copied from the source, statistics on the diagnostic stream.
pub open spec fn encoder_args_spec(source: Seq<char>, target: Seq<char>) -> Seq<Seq<char>> {
    seq![
        "-i"@,
        source,
        "-vcodec"@,
        "libx264"@,
        "-crf"@,
        "23"@,
        "-acodec"@,
        "aac"@,
        "-b:a"@,
        "128k"@,
        "-map_metadata"@,
        "0"@,
        target,
        "-v"@,
        "warning"@,
        "-hide_banner"@,
        "-stats"@,
    ]
}

/// The expression that sets `CreationDate` from the UTC `CreateDate` tag
/// shifted by `time_zone`.
pub open spec fn creation_date_expr(time_zone: Seq<char>) -> Seq<char> {
    "-Keys:CreationDate<${CreateDate;ShiftTime(\""@ + time_zone + "\")}"@ + time_zone
}

pub open spec fn metadata_args_spec(target: Seq<char>, time_zone: Seq<char>) -> Seq<Seq<char>> {
    seq![creation_date_expr(time_zone), "-overwrite_original"@, target]
}

fn push_str(v: &mut Vec<String>, s: &str)
    ensures
        strings_view(final(v)@) == strings_view(old(v)@).push(s@),
{
    let ghost pre = v@;
    v.push(String::from_str(s));
    assert(strings_view(v@) =~= strings_view(pre).push(s@));
}

/// The arguments of the encoder that compresses `source` into `target`.
pub fn encoder_args(source: &String, target: &String) -> (r: Vec<String>)
    ensures
        strings_view(r@) == encoder_args_spec(source@, target@),
{
    let mut v: Vec<String> = Vec::new();
    push_str(&mut v, "-i");
    push_str(&mut v, source.as_str());
    push_str(&mut v, "-vcodec");
    push_str(&mut v, "libx264");
    push_str(&mut v, "-crf");
    push_str(&mut v, "23");
    push_str(&mut v, "-acodec");
    push_str(&mut v, "aac");
    push_str(&mut v, "-b:a");
    push_str(&mut v, "128k");
    push_str(&mut v, "-map_metadata");
    push_str(&mut v, "0");
    push_str(&mut v, target.as_str());
    push_str(&mut v, "-v");
    push_str(&mut v, "warning");
    push_str(&mut v, "-hide_banner");
    push_str(&mut v, "-stats");
    assert(strings_view(v@) =~= encoder_args_spec(source@, target@));
    v
}

/// The arguments of the metadata tool that corrects the creation date of
/// `target`, overwriting it in place.
pub fn metadata_args(target: &String, time_zone: &String) -> (r: Vec<String>)
    ensures
        strings_view(r@) == metadata_args_spec(target@, time_zone@),
{
    let mut expr = String::from_str("-Keys:CreationDate<${CreateDate;ShiftTime(\"");
    expr.append(time_zone.as_str());
    expr.append("\")}");
    expr.append(time_zone.as_str());
    let mut v: Vec<String> = Vec::new();
    v.push(expr);
    push_str(&mut v, "-overwrite_original");
    push_str(&mut v, target.as_str());
    assert(strings_view(v@) =~= metadata_args_spec(target@, time_zone@));
    v
}

pub open spec fn missing_creation_time() -> ErrorView {
    ErrorView::DateError("Could not correct the creation date"@, "Creation time not available on video asset"@)
}

impl VideoFile {
    /// The metadata tool's arguments that give `target`, the compressed copy
    /// of this file, this file's creation date shifted by `time_zone`; fails
    /// when this file's creation time was not found.
    pub fn set_creation_date_with_time_zone(&self, target: &String, time_zone: &String) -> (r:
        Result<Vec<String>, CompressionError>)
        ensures
            match r {
                Ok(args) => self@.creation_time is Some && strings_view(args@)
                    == metadata_args_spec(target@, time_zone@),
                Err(e) => self@.creation_time is None && e@ == missing_creation_time(),
            },
    {
        if self.creation_time().is_none() {
            return Err(
                CompressionError::DateError(
                    String::from_str("Could not correct the creation date"),
                    String::from_str("Creation time not available on video asset"),
                ),
            );
        }
        Ok(metadata_args(target, time_zone))
    }

    /// As `set_creation_date_with_time_zone`, with the time zone given as an
    /// offset from UTC in seconds.
    pub fn set_creation_date(&self, target: &String, utc_offset_seconds: i32) -> (r: Result<
        Vec<String>,
        CompressionError,
    >)
        ensures
            match r {
                Ok(args) => self@.creation_time is Some && strings_view(args@)
                    == metadata_args_spec(target@, offset_text(utc_offset_seconds as int)),
                Err(e) => self@.creation_time is None && e@ == missing_creation_time(),
            },
    {
        let time_zone = offset_string(utc_offset_seconds);
        self.set_creation_date_with_time_zone(target, &time_zone)
    }
}

} // verus!

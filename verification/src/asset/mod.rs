//! How an asset of each kind is written to its destination.

use vstd::prelude::*;
use vstd::string::StringExecFns;
use crate::models::file_kind::{AssetFile, AssetKind};
use crate::text::{debug_quote, debug_text};

verus! {

/// The quality, on a scale from 0 to 100, at which JPEG images are encoded.
pub const JPEG_QUALITY: u8 = 72;

/// How hard the PNG encoder compresses.
#[derive(Clone, Copy, Debug, PartialEq, Eq, Structural)]
pub enum PngCompression {
    Default,
    Fast,
    Best,
}

/// The filter that the PNG encoder applies to each row before compressing.
#[derive(Clone, Copy, Debug, PartialEq, Eq, Structural)]
pub enum PngFilter {
    NoFilter,
    Sub,
    Up,
    Avg,
    Paeth,
    Adaptive,
}

/// What has to happen on disk to write one asset. The library decides it; the
/// caller carries it out.
#[derive(Debug, PartialEq, Eq)]
pub enum WriteAction {
    /// Decode the image at `source` and encode it as PNG at `destination`.
    EncodePng { source: String, destination: String, compression: PngCompression, filter: PngFilter },
    /// Decode the image at `source` and encode it as JPEG at `destination`.
    EncodeJpeg { source: String, destination: String, quality: u8 },
    /// Hand `description` to the media pipeline, which reads and writes the
    /// files that it names.
    RunPipeline { description: String },
    /// Copy the bytes of `source` to `destination` as they are.
    CopyBytes { source: String, destination: String },
}

/// A `WriteAction` as plain values.
pub enum WriteActionView {
    EncodePng { source: Seq<char>, destination: Seq<char>, compression: PngCompression, filter: PngFilter },
    EncodeJpeg { source: Seq<char>, destination: Seq<char>, quality: u8 },
    RunPipeline { description: Seq<char> },
    CopyBytes { source: Seq<char>, destination: Seq<char> },
}

impl View for WriteAction {
    type V = WriteActionView;

    open spec fn view(&self) -> WriteActionView {
        match *self {
            WriteAction::EncodePng { source, destination, compression, filter } => WriteActionView::EncodePng {
                source: source@,
                destination: destination@,
                compression,
                filter,
            },
            WriteAction::EncodeJpeg { source, destination, quality } => WriteActionView::EncodeJpeg {
                source: source@,
                destination: destination@,
                quality,
            },
            WriteAction::RunPipeline { description } => WriteActionView::RunPipeline {
                description: description@,
            },
            WriteAction::CopyBytes { source, destination } => WriteActionView::CopyBytes {
                source: source@,
                destination: destination@,
            },
        }
    }
}

/// The description of the pipeline that decodes `source`, encodes it as H.264
/// and writes it into an MP4 container at `destination`. Both paths stand in
/// it as `Debug` prints them.
pub open spec fn pipeline_description(source: Seq<char>, destination: Seq<char>) -> Seq<char> {
    "filesrc location="@ + debug_text(source)
        + "! decodebin ! x264enc ! mp4mux ! filesink location="@ + debug_text(destination)
}

/// The action that writes an asset of kind `kind`, found at `source`, to
/// `destination`.
pub open spec fn write_action(kind: AssetKind, source: Seq<char>, destination: Seq<char>) -> WriteActionView {
    match kind {
        AssetKind::PNG => WriteActionView::EncodePng {
            source,
            destination,
            compression: PngCompression::Best,
            filter: PngFilter::NoFilter,
        },
        AssetKind::JPG => WriteActionView::EncodeJpeg { source, destination, quality: JPEG_QUALITY },
        AssetKind::MP4 => WriteActionView::RunPipeline {
            description: pipeline_description(source, destination),
        },
        AssetKind::MP3 | AssetKind::PDF | AssetKind::WAV => WriteActionView::CopyBytes {
            source,
            destination,
        },
    }
}

/// The pipeline description around two paths that are quoted already.
pub fn pipeline_of_quoted(quoted_source: &str, quoted_destination: &str) -> (description: String)
    ensures
        description@ == "filesrc location="@ + quoted_source@
            + "! decodebin ! x264enc ! mp4mux ! filesink location="@ + quoted_destination@,
{
    let mut description = "filesrc location=".to_owned();
    description.append(quoted_source);
    description.append("! decodebin ! x264enc ! mp4mux ! filesink location=");
    description.append(quoted_destination);
    description
}

/// Builds the pipeline description for `source` and `destination`: each is
/// quoted as `Debug` prints it, and the description is put around them.
pub fn describe_pipeline(source: &str, destination: &str) -> (description: String)
    ensures
        description@ == pipeline_description(source@, destination@),
{
    let quoted_source = debug_quote(source);
    let quoted_destination = debug_quote(destination);
    pipeline_of_quoted(quoted_source.as_str(), quoted_destination.as_str())
}

impl AssetFile {
    /// Decides how this asset is written to `to`: images are encoded anew, a
    /// video goes through the media pipeline, and everything else is copied
    /// byte for byte.
    pub fn write(&self, to: &str) -> (action: WriteAction)
        ensures
            action@ == write_action(self.kind(), self.path(), to@),
    {
        match self {
            AssetFile::PNG(path) => WriteAction::EncodePng {
                source: path.clone(),
                destination: to.to_owned(),
                compression: PngCompression::Best,
                filter: PngFilter::NoFilter,
            },
            AssetFile::JPG(path) => WriteAction::EncodeJpeg {
                source: path.clone(),
                destination: to.to_owned(),
                quality: JPEG_QUALITY,
            },
            AssetFile::MP4(src) => WriteAction::RunPipeline {
                description: describe_pipeline(src.as_str(), to),
            },
            AssetFile::MP3(path) | AssetFile::PDF(path) | AssetFile::WAV(path) => WriteAction::CopyBytes {
                source: path.clone(),
                destination: to.to_owned(),
            },
        }
    }
}

} // verus!

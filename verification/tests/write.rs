use asset_ops::asset::{
    describe_pipeline, pipeline_of_quoted, PngCompression, PngFilter, WriteAction, JPEG_QUALITY,
};
use asset_ops::models::file_kind::AssetFile;

#[test]
fn a_png_is_encoded_anew_at_best_compression_without_filter() {
    assert_eq!(
        AssetFile::PNG("/x/cover.png".to_string()).write("/out/cover.png"),
        WriteAction::EncodePng {
            source: "/x/cover.png".to_string(),
            destination: "/out/cover.png".to_string(),
            compression: PngCompression::Best,
            filter: PngFilter::NoFilter,
        }
    );
}

#[test]
fn a_jpeg_is_encoded_anew_at_quality_72() {
    assert_eq!(JPEG_QUALITY, 72);
    assert_eq!(
        AssetFile::JPG("in/a.jpeg".to_string()).write("out/a.jpeg"),
        WriteAction::EncodeJpeg {
            source: "in/a.jpeg".to_string(),
            destination: "out/a.jpeg".to_string(),
            quality: 72,
        }
    );
}

#[test]
fn a_video_goes_through_the_pipeline() {
    assert_eq!(
        AssetFile::MP4("/y/clip.mp4".to_string()).write("/out/clip.mp4"),
        WriteAction::RunPipeline {
            description: "filesrc location=\"/y/clip.mp4\"! decodebin ! x264enc ! mp4mux ! filesink location=\"/out/clip.mp4\"".to_string(),
        }
    );
}

#[test]
fn audio_and_documents_are_copied_as_they_are() {
    for asset in [
        AssetFile::MP3("s/a.x".to_string()),
        AssetFile::WAV("s/a.x".to_string()),
        AssetFile::PDF("s/a.x".to_string()),
    ] {
        assert_eq!(
            asset.write("d/a.x"),
            WriteAction::CopyBytes { source: "s/a.x".to_string(), destination: "d/a.x".to_string() }
        );
    }
}

#[test]
fn the_pipeline_names_both_paths_as_debug_prints_them() {
    assert_eq!(
        describe_pipeline("a b.mp4", "out/a-b.mp4"),
        "filesrc location=\"a b.mp4\"! decodebin ! x264enc ! mp4mux ! filesink location=\"out/a-b.mp4\""
    );
    assert_eq!(
        describe_pipeline("q\"uo\\te.mp4", "t\tab\n.mp4"),
        "filesrc location=\"q\\\"uo\\\\te.mp4\"! decodebin ! x264enc ! mp4mux ! filesink location=\"t\\tab\\n.mp4\""
    );
    assert_eq!(
        describe_pipeline("", ""),
        "filesrc location=\"\"! decodebin ! x264enc ! mp4mux ! filesink location=\"\""
    );
    let source = "\u{e9}t\u{e9} \u{7f}.mp4";
    assert_eq!(
        describe_pipeline(source, "o"),
        format!(
            "filesrc location={:?}! decodebin ! x264enc ! mp4mux ! filesink location={:?}",
            source, "o"
        )
    );
}

#[test]
fn the_pipeline_is_put_around_the_quoted_paths_as_they_are() {
    assert_eq!(
        pipeline_of_quoted("X", "Y"),
        "filesrc location=X! decodebin ! x264enc ! mp4mux ! filesink location=Y"
    );
    assert_eq!(
        pipeline_of_quoted("\"a b\"", "'c'"),
        "filesrc location=\"a b\"! decodebin ! x264enc ! mp4mux ! filesink location='c'"
    );
    assert_eq!(
        pipeline_of_quoted("", ""),
        "filesrc location=! decodebin ! x264enc ! mp4mux ! filesink location="
    );
    assert_eq!(
        describe_pipeline("in.mp4", "out.mp4"),
        pipeline_of_quoted("\"in.mp4\"", "\"out.mp4\"")
    );
}

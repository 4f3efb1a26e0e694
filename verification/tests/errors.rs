use asset_ops::errors::AssetOpsError;
use asset_ops::models::file_kind::{AssetFile, ParseAssetFileError};

#[test]
fn each_error_has_its_message() {
    assert_eq!(AssetOpsError::NoFileExtension.message(), "File name has no extension");
    assert_eq!(AssetOpsError::InvalidFileName.message(), "Not a valid file name");
    assert_eq!(AssetOpsError::InvalidBaseFile.message(), "No valid base file");
    assert_eq!(AssetOpsError::OsStringNotUtf8.message(), "An OS string is not valid utf-8");
}

#[test]
fn a_wrapping_error_speaks_with_the_words_of_what_it_wraps() {
    assert_eq!(AssetOpsError::IoError("No such file".to_string()).message(), "No such file");
    assert_eq!(AssetOpsError::ImageError("Format error".to_string()).message(), "Format error");
    assert_eq!(AssetOpsError::RegexError("unclosed group".to_string()).message(), "unclosed group");
    let inner = ParseAssetFileError::new("Unsupported file type: gif".to_string());
    assert_eq!(AssetOpsError::ParseAssetFileError(inner).message(), "Unsupported file type: gif");
}

#[test]
fn a_classification_error_converts() {
    let error = AssetFile::from_str("a.gif").unwrap_err();
    let wrapped: AssetOpsError = error.into();
    assert_eq!(
        wrapped,
        AssetOpsError::ParseAssetFileError(ParseAssetFileError::new(
            "Unsupported file type: gif".to_string()
        ))
    );
    assert_eq!(wrapped.message(), "Unsupported file type: gif");
}

use asset_ops::filename_predicate;

#[test]
fn test_valid_filenames() {
    let valid_filenames = vec![
        "valid.pdf",
        "valid.png",
        "valid.jpeg",
        "valid.jpg",
        "valid.mp4",
        "valid.wav",
        "valid.mp3",
        "valid/valid.pdf",
        r"filename\valid.pdf",
    ];

    for filename in valid_filenames {
        assert!(
            filename_predicate(filename),
            "Expected {} to be a valid filename",
            filename
        );
    }
}

#[test]
fn test_invalid_filenames() {
    let invalid_filenames = vec![
        "filename.txt",
        "filename.docx",
        "filename.exe",
        "filename:invalid.pdf",
        "filename*invalid.pdf",
        "filename?invalid.pdf",
        "filename<invalid.pdf",
        "filename>invalid.pdf",
        "filename|invalid.pdf",
    ];

    for filename in invalid_filenames {
        assert!(
            !filename_predicate(filename),
            "Expected {} to be an invalid filename",
            filename
        );
    }
}

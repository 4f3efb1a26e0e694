//! Asset kinds, and the classification of a path by its extension.

use vstd::prelude::*;
use vstd::string::StringExecFns;
use crate::text::{
    after_last, chars_of, find_last, last_index_of, lemma_last_index_of_is, string_of, tail_is,
};

verus! {

/// The kind of an asset, without its path.
#[derive(Clone, Copy, Debug, PartialEq, Eq, Structural)]
pub enum AssetKind {
    PDF,
    PNG,
    JPG,
    MP4,
    WAV,
    MP3,
}

/// An asset of a known kind, with the path it was found under.
#[derive(Debug, PartialEq, Eq)]
pub enum AssetFile {
    PDF(String),
    PNG(String),
    JPG(String),
    MP4(String),
    WAV(String),
    MP3(String),
}

impl AssetFile {
    /// The kind of this asset.
    pub open spec fn kind(self) -> AssetKind {
        match self {
            AssetFile::PDF(_) => AssetKind::PDF,
            AssetFile::PNG(_) => AssetKind::PNG,
            AssetFile::JPG(_) => AssetKind::JPG,
            AssetFile::MP4(_) => AssetKind::MP4,
            AssetFile::WAV(_) => AssetKind::WAV,
            AssetFile::MP3(_) => AssetKind::MP3,
        }
    }

    /// The source path of this asset.
    pub open spec fn path(self) -> Seq<char> {
        match self {
            AssetFile::PDF(p) => p@,
            AssetFile::PNG(p) => p@,
            AssetFile::JPG(p) => p@,
            AssetFile::MP4(p) => p@,
            AssetFile::WAV(p) => p@,
            AssetFile::MP3(p) => p@,
        }
    }
}

/// Why a path could not be classified, in words.
#[derive(Debug, PartialEq, Eq)]
pub struct ParseAssetFileError(String);

impl View for ParseAssetFileError {
    type V = Seq<char>;

    closed spec fn view(&self) -> Seq<char> {
        self.0@
    }
}

impl ParseAssetFileError {
    /// An error that says `message`.
    pub fn new(message: String) -> (error: Self)
        ensures
            error@ == message@,
    {
        ParseAssetFileError(message)
    }

    /// The message of this error.
    pub fn message(&self) -> (message: String)
        ensures
            message@ == self@,
    {
        self.0.clone()
    }
}

/// The extension of `path`: what follows its last dot, if it has a dot.
pub open spec fn extension_of(path: Seq<char>) -> Option<Seq<char>> {
    if last_index_of(path, '.') < 0 {
        None
    } else {
        Some(after_last(path, '.'))
    }
}

/// The kind that an extension stands for. Only these six extensions, in lower
/// case, stand for one.
pub open spec fn kind_of_extension(ext: Seq<char>) -> Option<AssetKind> {
    if ext == "png"@ {
        Some(AssetKind::PNG)
    } else if ext == "jpeg"@ || ext == "jpg"@ {
        Some(AssetKind::JPG)
    } else if ext == "wav"@ {
        Some(AssetKind::WAV)
    } else if ext == "mp3"@ {
        Some(AssetKind::MP3)
    } else if ext == "mp4"@ {
        Some(AssetKind::MP4)
    } else {
        None
    }
}

/// The message for a path without a dot.
pub open spec fn no_extension_message() -> Seq<char> {
    "File name has no extension"@
}

/// The message for a path whose extension `ext` stands for no kind.
pub open spec fn unsupported_message(ext: Seq<char>) -> Seq<char> {
    "Unsupported file type: "@ + ext
}

/// The kind of the asset at `path`, or the message that says why it has none.
pub open spec fn classified(path: Seq<char>) -> Result<AssetKind, Seq<char>> {
    match extension_of(path) {
        None => Err(no_extension_message()),
        Some(ext) => match kind_of_extension(ext) {
            Some(kind) => Ok(kind),
            None => Err(unsupported_message(ext)),
        },
    }
}

/// A path made of a stem, a dot and an extension without dots is classified
/// by that extension alone: `png`, `jpeg`, `jpg`, `wav`, `mp3` and `mp4` give
/// their kind, `jpeg` and `jpg` the same one, and any other extension is
/// turned down by name.
pub proof fn lemma_classified_by_extension(stem: Seq<char>, ext: Seq<char>)
    requires
        !ext.contains('.'),
    ensures
        extension_of(stem.push('.') + ext) == Some(ext),
        classified(stem.push('.') + ext) == match kind_of_extension(ext) {
            Some(kind) => Ok::<AssetKind, Seq<char>>(kind),
            None => Err(unsupported_message(ext)),
        },
{
    let path = stem.push('.') + ext;
    let dot = stem.len() as int;
    assert forall|j: int| dot < j < path.len() implies path[j] != '.' by {
        assert(path[j] == ext[j - dot - 1]);
        assert(ext.contains(ext[j - dot - 1]));
    }
    lemma_last_index_of_is(path, '.', dot);
    assert(path.subrange(dot + 1, path.len() as int) == ext);
}

/// A path without a dot has no extension, and no kind.
pub proof fn lemma_unclassified_without_dot(path: Seq<char>)
    requires
        !path.contains('.'),
    ensures
        extension_of(path) is None,
        classified(path) == Err::<AssetKind, Seq<char>>(no_extension_message()),
{
    assert forall|j: int| -1 < j < path.len() implies path[j] != '.' by {
        assert(path.contains(path[j]));
    }
    lemma_last_index_of_is(path, '.', -1);
}

/// The six extensions that stand for a kind.
pub proof fn lemma_known_extensions()
    ensures
        kind_of_extension("png"@) == Some(AssetKind::PNG),
        kind_of_extension("jpeg"@) == Some(AssetKind::JPG),
        kind_of_extension("jpg"@) == Some(AssetKind::JPG),
        kind_of_extension("wav"@) == Some(AssetKind::WAV),
        kind_of_extension("mp3"@) == Some(AssetKind::MP3),
        kind_of_extension("mp4"@) == Some(AssetKind::MP4),
        forall|ext: Seq<char>|
            ext != "png"@ && ext != "jpeg"@ && ext != "jpg"@ && ext != "wav"@ && ext != "mp3"@ && ext
                != "mp4"@ ==> #[trigger] kind_of_extension(ext) is None,
{
    reveal_strlit("png");
    reveal_strlit("jpeg");
    reveal_strlit("jpg");
    reveal_strlit("wav");
    reveal_strlit("mp3");
    reveal_strlit("mp4");
    assert("png"@.len() == 3 && "jpeg"@.len() == 4 && "jpg"@.len() == 3);
    assert("jpg"@[0] != "png"@[0]);
    assert("wav"@[0] != "png"@[0] && "wav"@[0] != "jpg"@[0]);
    assert("mp3"@[0] != "png"@[0] && "mp3"@[0] != "jpg"@[0] && "mp3"@[0] != "wav"@[0]);
    assert("mp4"@[0] != "png"@[0] && "mp4"@[0] != "jpg"@[0] && "mp4"@[0] != "wav"@[0]);
    assert("mp4"@[2] != "mp3"@[2]);
}

impl AssetFile {
    /// An asset of kind `kind` at `path`.
    fn of_kind(kind: AssetKind, path: String) -> (asset: AssetFile)
        ensures
            asset.kind() == kind,
            asset.path() == path@,
    {
        match kind {
            AssetKind::PDF => AssetFile::PDF(path),
            AssetKind::PNG => AssetFile::PNG(path),
            AssetKind::JPG => AssetFile::JPG(path),
            AssetKind::MP4 => AssetFile::MP4(path),
            AssetKind::WAV => AssetFile::WAV(path),
            AssetKind::MP3 => AssetFile::MP3(path),
        }
    }

    /// Classifies `s` by what follows its last dot. The asset keeps `s` as its
    /// path. A path without a dot, or with an extension outside the six known
    /// ones, is turned down with a message; the match is exact, so `PNG` is
    /// no known extension.
    pub fn from_str(s: &str) -> (result: Result<AssetFile, ParseAssetFileError>)
        ensures
            match classified(s@) {
                Ok(kind) => result matches Ok(asset) && asset.kind() == kind && asset.path() == s@,
                Err(message) => result matches Err(error) && error@ == message,
            },
    {
        let chars = chars_of(s);
        let dot = match find_last(&chars, '.') {
            Some(dot) => dot,
            None => {
                return Err(ParseAssetFileError("File name has no extension".to_owned()));
            },
        };
        let from = dot + 1;
        let kind = if tail_is(&chars, from, &chars_of("png")) {
            AssetKind::PNG
        } else if tail_is(&chars, from, &chars_of("jpeg")) || tail_is(&chars, from, &chars_of("jpg")) {
            AssetKind::JPG
        } else if tail_is(&chars, from, &chars_of("wav")) {
            AssetKind::WAV
        } else if tail_is(&chars, from, &chars_of("mp3")) {
            AssetKind::MP3
        } else if tail_is(&chars, from, &chars_of("mp4")) {
            AssetKind::MP4
        } else {
            let extension = string_of(&chars, from, chars.len());
            let mut message = "Unsupported file type: ".to_owned();
            message.append(extension.as_str());
            return Err(ParseAssetFileError(message));
        };
        Ok(AssetFile::of_kind(kind, s.to_owned()))
    }
}

impl std::str::FromStr for AssetFile {
    type Err = ParseAssetFileError;

    fn from_str(s: &str) -> (result: Result<AssetFile, ParseAssetFileError>)
        ensures
            match classified(s@) {
                Ok(kind) => result matches Ok(asset) && asset.kind() == kind && asset.path() == s@,
                Err(message) => result matches Err(error) && error@ == message,
            },
    {
        AssetFile::from_str(s)
    }
}

} // verus!

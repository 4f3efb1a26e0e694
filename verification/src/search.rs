//! Where a matched asset goes: its file name, the slug of that name, and the
//! path of that slug inside one flat destination folder.

use vstd::prelude::*;
use vstd::string::StringExecFns;
use crate::asset::{write_action, WriteAction, WriteActionView};
use crate::errors::AssetOpsError;
use crate::json::{leaves, JsonValue};
use crate::scan::{asset_paths, names_asset, texts};
use crate::models::file_kind::{classified, AssetFile, AssetKind};
use crate::slug::{lemma_slug_text_is_plain, lemma_slug_text_is_slug, slug_of, Slug};
use crate::text::{
    after_last, chars_of, find_last, last_index_of, lemma_last_index_of, lemma_last_index_of_is,
    lowercase, string_of,
};

verus! {

/// What a path on disk turned out to be.
#[derive(Clone, Copy, Debug, PartialEq, Eq, Structural)]
pub enum FileSystemEntity {
    File,
    Folder,
}

impl FileSystemEntity {
    /// The entity that a path's metadata stands for. Anything that is neither
    /// a regular file nor a directory is treated as a file.
    pub open spec fn of_metadata(is_file: bool, is_dir: bool) -> FileSystemEntity {
        if !is_file && is_dir {
            FileSystemEntity::Folder
        } else {
            FileSystemEntity::File
        }
    }

    /// Classifies a path from the two answers of its metadata.
    pub fn classify(is_file: bool, is_dir: bool) -> (entity: FileSystemEntity)
        ensures
            entity == Self::of_metadata(is_file, is_dir),
    {
        if is_file {
            FileSystemEntity::File
        } else if is_dir {
            FileSystemEntity::Folder
        } else {
            FileSystemEntity::File
        }
    }
}

/// The file to look for.
#[derive(Clone, Copy, Debug)]
pub enum TargetFile<'src> {
    /// A file named by its full path.
    AbsolutePath(&'src str),
}

impl<'src> TargetFile<'src> {
    /// The path of the target.
    pub open spec fn path(self) -> Seq<char> {
        match self {
            TargetFile::AbsolutePath(path) => path@,
        }
    }
}

/// `path` without the separators and the `.` segments that it ends in.
pub open spec fn without_trailing(path: Seq<char>) -> Seq<char>
    decreases path.len(),
{
    if path.len() > 0 && path.last() == '/' {
        without_trailing(path.drop_last())
    } else if path.len() >= 2 && path.last() == '.' && path[path.len() - 2] == '/' {
        without_trailing(path.subrange(0, path.len() - 2))
    } else {
        path
    }
}

/// The file name of `path`: its final segment, trailing separators and `.`
/// segments set aside. A path that ends in `..`, or that is made of
/// separators and `.` alone, has none.
pub open spec fn file_name_of(path: Seq<char>) -> Option<Seq<char>> {
    let name = after_last(without_trailing(path), '/');
    if name.len() == 0 || name == seq!['.'] || name == seq!['.', '.'] {
        None
    } else {
        Some(name)
    }
}

/// `name` inside `folder`: the two joined by one separator, which is left out
/// where `folder` is empty or ends in one.
pub open spec fn joined(folder: Seq<char>, name: Seq<char>) -> Seq<char> {
    if folder.len() == 0 || folder.last() == '/' {
        folder + name
    } else {
        folder.push('/') + name
    }
}

/// Where the file at `source_path` lands in `folder`: under the slug of its
/// file name, if it has a file name.
pub open spec fn destination_of(folder: Seq<char>, source_path: Seq<char>) -> Option<Seq<char>> {
    match file_name_of(source_path) {
        Some(name) => Some(joined(folder, slug_of(name))),
        None => None,
    }
}

/// The file name of `path`, if it has one.
pub fn file_name(path: &str) -> (name: Option<String>)
    ensures
        match file_name_of(path@) {
            Some(text) => name matches Some(found) && found@ == text,
            None => name is None,
        },
{
    let mut chars = chars_of(path);
    let mut end: usize = chars.len();
    let mut trailing = true;
    proof {
        assert(chars@.take(end as int) == chars@);
    }
    while trailing
        invariant
            end <= chars.len(),
            chars@ == path@,
            without_trailing(path@) == without_trailing(chars@.take(end as int)),
            !trailing ==> without_trailing(chars@.take(end as int)) == chars@.take(end as int),
        decreases end + if trailing { 1int } else { 0int },
    {
        let ghost head = chars@.take(end as int);
        if end > 0 && chars[end - 1] == '/' {
            end -= 1;
            assert(head.drop_last() == chars@.take(end as int));
        } else if end >= 2 && chars[end - 1] == '.' && chars[end - 2] == '/' {
            end -= 2;
            assert(head.subrange(0, head.len() - 2) == chars@.take(end as int));
        } else {
            trailing = false;
        }
    }
    chars.truncate(end);
    let start = match find_last(&chars, '/') {
        Some(slash) => slash + 1,
        None => 0,
    };
    let length = chars.len() - start;
    if length == 0 || (length == 1 && chars[start] == '.') || (length == 2 && chars[start] == '.'
        && chars[start + 1] == '.') {
        proof {
            let name = after_last(chars@, '/');
            if length == 1 {
                assert(name =~= seq!['.']);
            }
            if length == 2 {
                assert(name =~= seq!['.', '.']);
            }
        }
        return None;
    }
    proof {
        let name = after_last(chars@, '/');
        assert(name[0] == chars@[start as int]);
        if length == 2 {
            assert(name[1] == chars@[start + 1]);
        }
    }
    Some(string_of(&chars, start, chars.len()))
}

/// The path of `name` inside `folder`.
pub fn join(folder: &str, name: &str) -> (path: String)
    ensures
        path@ == joined(folder@, name@),
{
    let chars = chars_of(folder);
    let mut path = folder.to_owned();
    if chars.len() > 0 && chars[chars.len() - 1] != '/' {
        path.push('/');
    }
    path.append(name);
    path
}

/// A path that can be classified ends in its extension, so it has a file
/// name.
pub proof fn lemma_classified_has_file_name(path: Seq<char>)
    requires
        classified(path) is Ok,
    ensures
        file_name_of(path) is Some,
{
    reveal_strlit("png");
    reveal_strlit("jpeg");
    reveal_strlit("jpg");
    reveal_strlit("wav");
    reveal_strlit("mp3");
    reveal_strlit("mp4");
    let dot = last_index_of(path, '.');
    let ext = after_last(path, '.');
    lemma_last_index_of(path, '.');
    lemma_last_index_of(path, '/');
    let slash = last_index_of(path, '/');
    assert(3 <= ext.len() <= 4);
    assert forall|j: int| dot < j < path.len() implies path[j] != '/' && path[j] != '.' by {
        assert(path[j] == ext[j - dot - 1]);
    }
    assert(path.last() == path[path.len() - 1]);
    assert(without_trailing(path) == path);
    assert(slash < dot);
    assert(after_last(path, '/').len() >= 4);
}

/// The destination lies in the folder itself, whatever folders the source
/// lies in: the slug holds no separator, and it is all that follows the last
/// separator of the destination.
pub proof fn lemma_destination_is_flat(folder: Seq<char>, source_path: Seq<char>)
    requires
        file_name_of(source_path) is Some,
    ensures
        destination_of(folder, source_path) is Some,
        !slug_of(file_name_of(source_path)->0).contains('/'),
        after_last(destination_of(folder, source_path)->0, '/') == slug_of(
            file_name_of(source_path)->0,
        ),
{
    let name = file_name_of(source_path)->0;
    let slug = slug_of(name);
    lemma_slug_text_is_slug(lowercase(name));
    lemma_slug_text_is_plain(slug);
    let destination = joined(folder, slug);
    let head = destination.len() - slug.len();
    assert forall|j: int| head <= j < destination.len() implies destination[j] != '/' by {
        assert(destination[j] == slug[j - head]);
        assert(slug.contains(slug[j - head]));
    }
    lemma_last_index_of_is(destination, '/', head - 1);
    assert(destination.subrange(head, destination.len() as int) == slug);
}

/// Two sources whose file names have the same slug get the same destination:
/// the later write wins.
pub proof fn lemma_same_slug_same_destination(folder: Seq<char>, a: Seq<char>, b: Seq<char>)
    requires
        file_name_of(a) is Some,
        file_name_of(b) is Some,
        slug_of(file_name_of(a)->0) == slug_of(file_name_of(b)->0),
    ensures
        destination_of(folder, a) == destination_of(folder, b),
{
}

/// How many of `paths`, from the first on, can be classified before one
/// cannot.
pub open spec fn classifiable_prefix(paths: Seq<Seq<char>>) -> nat
    decreases paths.len(),
{
    if paths.len() == 0 || classified(paths.first()) is Err {
        0
    } else {
        1 + classifiable_prefix(paths.drop_first())
    }
}

/// The first `n` of `paths` can be classified and the next one, if there is
/// one, cannot: then `n` is the length of the classifiable prefix.
pub proof fn lemma_classifiable_prefix_is(paths: Seq<Seq<char>>, n: int)
    requires
        0 <= n <= paths.len(),
        forall|j: int| 0 <= j < n ==> classified(#[trigger] paths[j]) is Ok,
        n < paths.len() ==> classified(paths[n]) is Err,
    ensures
        classifiable_prefix(paths) == n,
    decreases paths.len(),
{
    if n > 0 {
        let rest = paths.drop_first();
        assert(classified(paths[0]) is Ok);
        assert forall|j: int| 0 <= j < n - 1 implies classified(#[trigger] rest[j]) is Ok by {
            assert(rest[j] == paths[j + 1]);
        }
        if n - 1 < rest.len() {
            assert(rest[n - 1] == paths[n]);
        }
        lemma_classifiable_prefix_is(rest, n - 1);
    }
}

/// The action that gets the asset at `source_path` into `folder`, for a path
/// that can be classified.
pub open spec fn transfer_of(folder: Seq<char>, source_path: Seq<char>) -> WriteActionView
    recommends
        classified(source_path) is Ok,
{
    write_action(
        classified(source_path)->Ok_0,
        source_path,
        destination_of(folder, source_path)->0,
    )
}

/// The action that gets the file at `source_path` to `destination` when it
/// is searched and copied: what its kind asks for where it can be classified,
/// and a byte copy for every other file.
pub open spec fn copy_action(source_path: Seq<char>, destination: Seq<char>) -> WriteActionView {
    match classified(source_path) {
        Ok(kind) => write_action(kind, source_path, destination),
        Err(_) => WriteActionView::CopyBytes { source: source_path, destination },
    }
}

/// What the harvest of a manifest comes to: the actions to carry out, in
/// order, and the error that ended the planning, if one did. The actions
/// that stand before a failure are still to be carried out.
#[derive(Debug, PartialEq, Eq)]
pub struct Harvest {
    pub actions: Vec<WriteAction>,
    pub failure: Option<AssetOpsError>,
}

/// Two sources whose file names are the same in lower case get the same
/// destination, and where neither can be classified, both are copied there:
/// `A.PDF` and `a.pdf` land on one file, and the later copy wins.
pub proof fn lemma_same_lowercase_same_destination(folder: Seq<char>, a: Seq<char>, b: Seq<char>)
    requires
        file_name_of(a) is Some,
        file_name_of(b) is Some,
        lowercase(file_name_of(a)->0) == lowercase(file_name_of(b)->0),
    ensures
        destination_of(folder, a) is Some,
        destination_of(folder, a) == destination_of(folder, b),
        classified(a) is Err && classified(b) is Err ==> {
            &&& copy_action(a, destination_of(folder, a)->0) == (WriteActionView::CopyBytes {
                source: a,
                destination: destination_of(folder, a)->0,
            })
            &&& copy_action(b, destination_of(folder, b)->0) == (WriteActionView::CopyBytes {
                source: b,
                destination: destination_of(folder, a)->0,
            })
        },
{
}

/// Places assets in one destination folder.
pub struct FileSearcher<'dest> {
    dest_folder_path: &'dest str,
}

impl<'dest> FileSearcher<'dest> {
    /// The destination folder.
    pub closed spec fn folder(self) -> Seq<char> {
        self.dest_folder_path@
    }

    /// A searcher that places what it finds in `dest_folder_path`.
    pub fn new(dest_folder_path: &'dest str) -> (searcher: Self)
        ensures
            searcher.folder() == dest_folder_path@,
    {
        Self { dest_folder_path }
    }

    /// Where the file at `source_path` is to land: in the destination folder
    /// itself, whatever folders the source lies in, under the slug of its
    /// file name. Two sources whose names have the same slug get the same
    /// destination. A path without a file name is turned down.
    pub fn destination_for(&self, source_path: &str) -> (result: Result<String, AssetOpsError>)
        ensures
            match destination_of(self.folder(), source_path@) {
                Some(destination) => result matches Ok(path) && path@ == destination,
                None => result matches Err(AssetOpsError::InvalidFileName),
            },
    {
        match file_name(source_path) {
            Some(name) => {
                let slug = Slug::new(name.as_str());
                Ok(join(self.dest_folder_path, slug.as_str()))
            },
            None => Err(AssetOpsError::InvalidFileName),
        }
    }

    /// Decides how the asset at `source_path` gets into the destination
    /// folder: it is classified by its extension, named by the slug of its
    /// file name, and written as its kind asks. A path that cannot be
    /// classified is turned down with the classifier's error.
    pub fn transfer(&self, source_path: &str) -> (result: Result<WriteAction, AssetOpsError>)
        ensures
            match classified(source_path@) {
                Ok(kind) => {
                    &&& result matches Ok(action)
                    &&& destination_of(self.folder(), source_path@) matches Some(destination)
                    &&& action@ == write_action(kind, source_path@, destination)
                },
                Err(message) => result matches Err(AssetOpsError::ParseAssetFileError(error))
                    && error@ == message,
            },
    {
        let asset = match AssetFile::from_str(source_path) {
            Ok(asset) => asset,
            Err(error) => {
                return Err(AssetOpsError::from(error));
            },
        };
        proof {
            lemma_classified_has_file_name(source_path@);
        }
        match self.destination_for(source_path) {
            Ok(destination) => Ok(asset.write(destination.as_str())),
            Err(error) => Err(error),
        }
    }

    /// Plans the harvest of `tree`: its asset paths are taken in the order of
    /// the walk, and each is transferred until one cannot be classified. That
    /// one ends the harvest with its error; what stands before it is planned
    /// in full, and nothing after it is looked at.
    pub fn harvest(&self, tree: &JsonValue) -> (harvest: Harvest)
        ensures
            ({
                let paths = leaves(*tree).filter(|leaf: Seq<char>| names_asset(leaf));
                let n = classifiable_prefix(paths);
                &&& harvest.actions@.len() == n <= paths.len()
                &&& forall|i: int|
                    0 <= i < n ==> (#[trigger] harvest.actions@[i])@ == transfer_of(
                        self.folder(),
                        paths[i],
                    )
                &&& n == paths.len() ==> harvest.failure is None
                &&& n < paths.len() ==> (harvest.failure matches Some(
                    AssetOpsError::ParseAssetFileError(error),
                ) && classified(paths[n as int]) == Err::<AssetKind, Seq<char>>(error@))
            }),
    {
        let found = asset_paths(tree);
        let ghost paths = texts(found@);
        let mut actions: Vec<WriteAction> = Vec::new();
        let mut i: usize = 0;
        while i < found.len()
            invariant
                i <= found.len(),
                paths == texts(found@),
                paths == leaves(*tree).filter(|leaf: Seq<char>| names_asset(leaf)),
                actions@.len() == i,
                forall|j: int| 0 <= j < i ==> classified(#[trigger] paths[j]) is Ok,
                forall|j: int|
                    0 <= j < i ==> (#[trigger] actions@[j])@ == transfer_of(self.folder(), paths[j]),
            decreases found.len() - i,
        {
            assert(paths[i as int] == found@[i as int]@);
            match self.transfer(found[i].as_str()) {
                Ok(action) => {
                    actions.push(action);
                },
                Err(error) => {
                    proof {
                        lemma_classifiable_prefix_is(paths, i as int);
                    }
                    return Harvest { actions, failure: Some(error) };
                },
            }
            i += 1;
        }
        proof {
            lemma_classifiable_prefix_is(paths, i as int);
        }
        Harvest { actions, failure: None }
    }

    /// Decides how `target_file` gets into the destination folder, under the
    /// slug of its file name. An image is encoded anew and a video goes
    /// through the media pipeline, as `AssetFile::write` says of each kind;
    /// every other file, of a known kind or not, is copied byte for byte. A
    /// target without a file name is turned down. `search_directory` plays no
    /// part for a target named by its full path.
    pub fn search_and_copy(&self, target_file: TargetFile, search_directory: &str) -> (result: Result<
        WriteAction,
        AssetOpsError,
    >)
        ensures
            match destination_of(self.folder(), target_file.path()) {
                Some(destination) => result matches Ok(action) && action@ == copy_action(
                    target_file.path(),
                    destination,
                ),
                None => result matches Err(AssetOpsError::InvalidFileName),
            },
    {
        match target_file {
            TargetFile::AbsolutePath(p) => {
                let destination = self.destination_for(p)?;
                match AssetFile::from_str(p) {
                    Ok(asset) => Ok(asset.write(destination.as_str())),
                    Err(_) => Ok(WriteAction::CopyBytes { source: p.to_owned(), destination }),
                }
            },
        }
    }
}

} // verus!

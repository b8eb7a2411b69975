//! The session transcript and the originals it records.
//!
//! Each entry of a transcript may report one tool use on a file, and with it
//! the content the file had before. For every file the session touched, the
//! content reported first is the file's original: the state before any edit.

use vstd::prelude::*;

verus! {

/// The outcome of one tool use, as the transcript reports it.
#[derive(Debug, PartialEq, Eq)]
pub struct ToolUseResult {
    /// The file that was affected.
    pub file_path: Option<String>,
    /// The file's content before the tool ran.
    pub original_file: Option<String>,
    /// The content that the tool read or wrote.
    pub content: Option<String>,
}

/// One record of the transcript.
#[derive(Debug, PartialEq, Eq)]
pub struct TranscriptEntry {
    pub tool_use_result: Option<ToolUseResult>,
}

/// A file of the session by its path, with its original content.
pub type FileModel = (Seq<char>, Seq<char>);

/// The path under which `entry` is tracked: that of its tool-use result,
/// provided the path is not empty and the result carries an original or a
/// content.
pub open spec fn tracked_path(entry: TranscriptEntry) -> Option<Seq<char>> {
    match entry.tool_use_result {
        Some(result) => match result.file_path {
            Some(path) => if path@.len() > 0 && (result.original_file is Some || result.content
                is Some) {
                Some(path@)
            } else {
                None
            },
            None => None,
        },
        None => None,
    }
}

/// The original content that `entry` records; empty where it records none.
pub open spec fn recorded_original(entry: TranscriptEntry) -> Seq<char> {
    match entry.tool_use_result {
        Some(result) => match result.original_file {
            Some(original) => original@,
            None => Seq::empty(),
        },
        None => Seq::empty(),
    }
}

/// Whether `files` holds a file under `path`.
pub open spec fn has_path(files: Seq<FileModel>, path: Seq<char>) -> bool {
    exists|i: int| 0 <= i < files.len() && (#[trigger] files[i]).0 == path
}

/// No path occurs twice in `files`.
pub open spec fn distinct_paths(files: Seq<FileModel>) -> bool {
    forall|i: int, j: int|
        0 <= i < j < files.len() ==> (#[trigger] files[i]).0 != (#[trigger] files[j]).0
}

/// `files` after `entry`: a tracked entry adds its file unless the path is
/// already there; nothing ever replaces a file.
pub open spec fn record_entry(files: Seq<FileModel>, entry: TranscriptEntry) -> Seq<FileModel> {
    match tracked_path(entry) {
        Some(path) => if has_path(files, path) {
            files
        } else {
            files.push((path, recorded_original(entry)))
        },
        None => files,
    }
}

/// The files of a transcript with their originals, in the order of first mention.
pub open spec fn originals_of(entries: Seq<TranscriptEntry>) -> Seq<FileModel>
    decreases entries.len(),
{
    if entries.len() == 0 {
        Seq::empty()
    } else {
        record_entry(originals_of(entries.drop_last()), entries.last())
    }
}

/// The original content by path.
pub open spec fn originals_map(files: Seq<FileModel>) -> Map<Seq<char>, Seq<char>> {
    Map::new(
        |path: Seq<char>| has_path(files, path),
        |path: Seq<char>| files[choose|i: int| 0 <= i < files.len() && (#[trigger] files[i]).0 == path].1,
    )
}

/// Whether some entry of the transcript is tracked under `path`.
pub open spec fn mentions(entries: Seq<TranscriptEntry>, path: Seq<char>) -> bool {
    exists|i: int| 0 <= i < entries.len() && tracked_path(#[trigger] entries[i]) == Some(path)
}

/// Recording an entry keeps every file that was there, in its place.
pub proof fn lemma_record_entry_keeps(files: Seq<FileModel>, entry: TranscriptEntry)
    ensures
        files.len() <= record_entry(files, entry).len() <= files.len() + 1,
        forall|k: int| 0 <= k < files.len() ==> record_entry(files, entry)[k] == files[k],
{
}

/// Among the files that an entry is recorded into, each path stays unique.
pub proof fn lemma_record_entry_distinct(files: Seq<FileModel>, entry: TranscriptEntry)
    requires
        distinct_paths(files),
    ensures
        distinct_paths(record_entry(files, entry)),
{
    let after = record_entry(files, entry);
    assert forall|i: int, j: int| 0 <= i < j < after.len() implies (#[trigger] after[i]).0 != (
    #[trigger] after[j]).0 by {
        if j < files.len() {
            assert(after[i] == files[i] && after[j] == files[j]);
        } else {
            assert(after[i] == files[i]);
            assert(!has_path(files, after[j].0));
        }
    }
}

/// The files of a transcript hold at most one file for each path.
pub proof fn lemma_originals_distinct(entries: Seq<TranscriptEntry>)
    ensures
        distinct_paths(originals_of(entries)),
    decreases entries.len(),
{
    if entries.len() > 0 {
        lemma_originals_distinct(entries.drop_last());
        lemma_record_entry_distinct(originals_of(entries.drop_last()), entries.last());
    }
}

/// The files of a transcript are exactly the paths that its tracked entries name.
pub proof fn lemma_originals_cover(entries: Seq<TranscriptEntry>, path: Seq<char>)
    ensures
        has_path(originals_of(entries), path) <==> mentions(entries, path),
    decreases entries.len(),
{
    if entries.len() > 0 {
        let prefix = entries.drop_last();
        let before = originals_of(prefix);
        let after = originals_of(entries);
        lemma_originals_cover(prefix, path);
        lemma_record_entry_keeps(before, entries.last());
        if has_path(after, path) {
            let k = choose|k: int| 0 <= k < after.len() && (#[trigger] after[k]).0 == path;
            if k < before.len() {
                assert(before[k].0 == path);
                let i = choose|i: int|
                    0 <= i < prefix.len() && tracked_path(#[trigger] prefix[i]) == Some(path);
                assert(entries[i] == prefix[i]);
            } else {
                assert(tracked_path(entries[entries.len() - 1]) == Some(path));
            }
        }
        if mentions(entries, path) {
            let i = choose|i: int|
                0 <= i < entries.len() && tracked_path(#[trigger] entries[i]) == Some(path);
            if i < prefix.len() {
                assert(prefix[i] == entries[i]);
                let k = choose|k: int| 0 <= k < before.len() && (#[trigger] before[k]).0 == path;
                assert(after[k] == before[k]);
            } else if has_path(before, path) {
                assert(after == before);
            } else {
                assert(after[before.len() as int].0 == path);
            }
        }
    }
}

/// No file of a transcript stands under the empty path.
pub proof fn lemma_originals_paths_not_empty(entries: Seq<TranscriptEntry>)
    ensures
        forall|k: int|
            0 <= k < originals_of(entries).len() ==> (#[trigger] originals_of(entries)[k]).0.len()
                > 0,
        !has_path(originals_of(entries), Seq::empty()),
    decreases entries.len(),
{
    if entries.len() > 0 {
        lemma_originals_paths_not_empty(entries.drop_last());
        lemma_record_entry_keeps(originals_of(entries.drop_last()), entries.last());
    }
}

/// Where no path occurs twice, the map gives each file its own original.
pub proof fn lemma_originals_map_at(files: Seq<FileModel>, k: int)
    requires
        distinct_paths(files),
        0 <= k < files.len(),
    ensures
        originals_map(files).contains_key(files[k].0),
        originals_map(files)[files[k].0] == files[k].1,
{
    let path = files[k].0;
    let found = choose|i: int| 0 <= i < files.len() && (#[trigger] files[i]).0 == path;
    if found < k {
        assert(files[found].0 != files[k].0);
    } else if k < found {
        assert(files[k].0 != files[found].0);
    }
}

/// The first original wins: a path keeps the original of the first entry
/// that is tracked under it, whatever later entries for that path record.
pub proof fn lemma_first_original_wins(entries: Seq<TranscriptEntry>, first: int, path: Seq<char>)
    requires
        0 <= first < entries.len(),
        tracked_path(entries[first]) == Some(path),
        forall|j: int| 0 <= j < first ==> tracked_path(entries[j]) != Some(path),
    ensures
        originals_map(originals_of(entries)).contains_key(path),
        originals_map(originals_of(entries))[path] == recorded_original(entries[first]),
{
    lemma_first_mention_kept(entries, first, path);
    lemma_originals_distinct(entries);
    let files = originals_of(entries);
    let k = choose|k: int|
        0 <= k < files.len() && #[trigger] files[k] == (path, recorded_original(entries[first]));
    lemma_originals_map_at(files, k);
}

/// The file that the first entry for a path adds is still among the files at the end.
proof fn lemma_first_mention_kept(entries: Seq<TranscriptEntry>, first: int, path: Seq<char>)
    requires
        0 <= first < entries.len(),
        tracked_path(entries[first]) == Some(path),
        forall|j: int| 0 <= j < first ==> tracked_path(entries[j]) != Some(path),
    ensures
        exists|k: int|
            0 <= k < originals_of(entries).len() && #[trigger] originals_of(entries)[k] == (
                path,
                recorded_original(entries[first]),
            ),
    decreases entries.len(),
{
    let prefix = entries.drop_last();
    let before = originals_of(prefix);
    let after = originals_of(entries);
    let file = (path, recorded_original(entries[first]));
    lemma_record_entry_keeps(before, entries.last());
    if first == entries.len() - 1 {
        lemma_originals_cover(prefix, path);
        if mentions(prefix, path) {
            let i = choose|i: int|
                0 <= i < prefix.len() && tracked_path(#[trigger] prefix[i]) == Some(path);
            assert(prefix[i] == entries[i]);
        }
        assert(after[before.len() as int] == file);
    } else {
        assert(prefix[first] == entries[first]);
        assert forall|j: int| 0 <= j < first implies tracked_path(prefix[j]) != Some(path) by {
            assert(prefix[j] == entries[j]);
        }
        lemma_first_mention_kept(prefix, first, path);
        let k = choose|k: int| 0 <= k < before.len() && #[trigger] before[k] == file;
        assert(after[k] == file);
    }
}

/// One file that the session touched.
struct TrackedFile {
    path: String,
    original: String,
}

/// Path and original content of each of `files`.
spec fn file_models(files: Seq<TrackedFile>) -> Seq<FileModel> {
    Seq::new(files.len(), |i: int| (files[i].path@, files[i].original@))
}

/// The files that a session touched, each with its original content, in the
/// order in which the transcript first mentions them.
pub struct FileOriginals {
    files: Vec<TrackedFile>,
}

impl View for FileOriginals {
    type V = Map<Seq<char>, Seq<char>>;

    /// The original content of each file, by its path.
    open spec fn view(&self) -> Map<Seq<char>, Seq<char>> {
        originals_map(self.files())
    }
}

impl FileOriginals {
    /// The files with their originals, in the order of first mention.
    pub closed spec fn files(&self) -> Seq<FileModel> {
        file_models(self.files@)
    }

    #[verifier::type_invariant]
    spec fn paths_are_distinct(&self) -> bool {
        distinct_paths(self.files())
    }

    /// A collection without files.
    pub fn new() -> (originals: Self)
        ensures
            originals.files() == Seq::<FileModel>::empty(),
            distinct_paths(originals.files()),
    {
        let originals = FileOriginals { files: Vec::new() };
        assert(originals.files() =~= Seq::<FileModel>::empty());
        originals
    }

    /// The number of files.
    pub fn len(&self) -> (n: usize)
        ensures
            n == self.files().len(),
    {
        self.files.len()
    }

    /// The path of the file at `index`.
    pub fn path_at(&self, index: usize) -> (path: &String)
        requires
            index < self.files().len(),
        ensures
            path@ == self.files()[index as int].0,
    {
        &self.files[index].path
    }

    /// The original content of the file at `index`.
    pub fn original_at(&self, index: usize) -> (original: &String)
        requires
            index < self.files().len(),
        ensures
            original@ == self.files()[index as int].1,
    {
        &self.files[index].original
    }

    /// The place of the file under `path`, if there is one.
    pub fn position(&self, path: &String) -> (found: Option<usize>)
        ensures
            match found {
                Some(index) => index < self.files().len() && self.files()[index as int].0 == path@,
                None => !has_path(self.files(), path@),
            },
    {
        let mut index: usize = 0;
        while index < self.files.len()
            invariant
                index <= self.files@.len(),
                forall|k: int| 0 <= k < index ==> (#[trigger] self.files()[k]).0 != path@,
            decreases self.files@.len() - index,
        {
            if self.files[index].path == *path {
                return Some(index);
            }
            index = index + 1;
        }
        None
    }

    /// The original content recorded for `path`, if the session touched it.
    pub fn get(&self, path: &String) -> (original: Option<&String>)
        ensures
            match original {
                Some(text) => self@.contains_key(path@) && text@ == self@[path@],
                None => !self@.contains_key(path@),
            },
    {
        proof {
            use_type_invariant(self);
        }
        match self.position(path) {
            Some(index) => {
                proof {
                    lemma_originals_map_at(self.files(), index as int);
                }
                Some(&self.files[index].original)
            },
            None => None,
        }
    }

    /// Takes note of one transcript entry: a tracked entry adds its file with
    /// the original it records, unless the file is already there.
    pub fn record(self, entry: &TranscriptEntry) -> (after: Self)
        ensures
            after.files() == record_entry(self.files(), *entry),
            distinct_paths(after.files()),
    {
        proof {
            use_type_invariant(&self);
            lemma_record_entry_distinct(self.files(), *entry);
        }
        if let Some(result) = &entry.tool_use_result {
            if let Some(path) = &result.file_path {
                if !path.as_str().is_empty() && (result.original_file.is_some()
                    || result.content.is_some()) {
                    if self.position(path).is_none() {
                        let original = match &result.original_file {
                            Some(text) => text.clone(),
                            None => String::new(),
                        };
                        let ghost before = self.files();
                        let mut files = self.files;
                        files.push(TrackedFile { path: path.clone(), original });
                        assert(file_models(files@) =~= before.push(
                            (path@, recorded_original(*entry)),
                        ));
                        return FileOriginals { files };
                    }
                }
            }
        }
        self
    }

    /// Reads a whole transcript: every file it tracks, with its first original.
    pub fn from_entries(entries: &Vec<TranscriptEntry>) -> (originals: Self)
        ensures
            originals.files() == originals_of(entries@),
            distinct_paths(originals.files()),
    {
        let mut originals = FileOriginals::new();
        let mut index: usize = 0;
        while index < entries.len()
            invariant
                index <= entries@.len(),
                originals.files() == originals_of(entries@.take(index as int)),
                distinct_paths(originals.files()),
            decreases entries@.len() - index,
        {
            originals = originals.record(&entries[index]);
            proof {
                let upto = entries@.take(index + 1);
                assert(upto.drop_last() == entries@.take(index as int));
                assert(upto.last() == entries@[index as int]);
            }
            index = index + 1;
        }
        assert(entries@.take(index as int) == entries@);
        originals
    }
}

} // verus!

use crate::timed::{lemma_filter_of_empty, lemma_filter_push};
use vstd::prelude::*;

verus! {

/// What a file is chosen for.
#[derive(Clone, Copy, Debug, PartialEq, Eq, Structural)]
pub enum OpenFileType {
    /// To write the exported music to.
    Export,
    /// To read saved music from.
    ReadSave,
    /// To load as an instrument bank.
    SoundFont,
    /// To write the music to.
    WriteSave,
}

impl OpenFileType {
    /// The extensions of the files that are listed for this purpose.
    pub open spec fn spec_extensions(self) -> Seq<Seq<char>> {
        match self {
            OpenFileType::Export => seq!["wav"@, "mid"@, "mp3"@, "ogg"@, "flac"@],
            OpenFileType::ReadSave => seq!["cac"@],
            OpenFileType::SoundFont => seq!["sf2"@, "sf3"@],
            OpenFileType::WriteSave => seq!["cac"@],
        }
    }

    /// The extensions of the files that are listed for this purpose.
    pub fn get_extensions(self) -> (extensions: Vec<&'static str>)
        ensures
            extensions@.map_values(|e: &'static str| e@) == self.spec_extensions(),
    {
        let mut extensions: Vec<&'static str> = Vec::new();
        match self {
            OpenFileType::Export => {
                extensions.push("wav");
                extensions.push("mid");
                extensions.push("mp3");
                extensions.push("ogg");
                extensions.push("flac");
            },
            OpenFileType::ReadSave => {
                extensions.push("cac");
            },
            OpenFileType::SoundFont => {
                extensions.push("sf2");
                extensions.push("sf3");
            },
            OpenFileType::WriteSave => {
                extensions.push("cac");
            },
        }
        proof {
            assert(extensions@.map_values(|e: &'static str| e@) =~= self.spec_extensions());
        }
        extensions
    }
}

/// A file or a directory in a listing.
pub struct FileOrDirectory {
    /// Its path.
    pub path: String,
    /// Whether it is a file.
    pub is_file: bool,
}

/// A `FileOrDirectory` as plain values.
pub struct EntryView {
    pub path: Seq<char>,
    pub is_file: bool,
}

impl View for FileOrDirectory {
    type V = EntryView;

    open spec fn view(&self) -> EntryView {
        EntryView { path: self.path@, is_file: self.is_file }
    }
}

/// The entries of `entries` as plain values.
pub open spec fn entry_views(entries: Seq<FileOrDirectory>) -> Seq<EntryView> {
    entries.map_values(|e: FileOrDirectory| e@)
}

/// The number of directories among `entries`.
pub open spec fn count_folders(entries: Seq<EntryView>) -> nat
    decreases entries.len(),
{
    if entries.len() == 0 {
        0
    } else {
        count_folders(entries.drop_last()) + if entries.last().is_file {
            0nat
        } else {
            1nat
        }
    }
}

/// The place of the first entry of `entries` with the path `path`, if one
/// has it.
pub open spec fn first_with_path(entries: Seq<EntryView>, path: Seq<char>) -> Option<usize> {
    if exists|i: int| 0 <= i < entries.len() && (#[trigger] entries[i]).path == path {
        let first = choose|i: int|
            0 <= i < entries.len() && (#[trigger] entries[i]).path == path && forall|k: int|
                0 <= k < i ==> (#[trigger] entries[k]).path != path;
        Some(first as usize)
    } else {
        None
    }
}

/// The entry that is selected as a directory is entered: the directory that
/// was left, if there was one and it is listed; else, in a listing with
/// directories and files, the entry behind as many entries as there are
/// directories; in a listing of only the one or the other, the first entry;
/// in an empty listing, none.
pub open spec fn spec_selection(entries: Seq<EntryView>, previous: Option<Seq<char>>) -> Option<
    usize,
> {
    match previous {
        Some(path) => first_with_path(entries, path),
        None => {
            let folders = count_folders(entries);
            if entries.len() == 0 {
                None
            } else if folders == 0 || folders == entries.len() {
                Some(0usize)
            } else {
                Some(folders as usize)
            }
        },
    }
}

/// The entries of a directory, and the one that is selected.
pub struct ChildPaths {
    /// The entries: the directories first, then the files.
    pub children: Vec<FileOrDirectory>,
    /// The place of the selected entry, if one is selected.
    pub selected: Option<usize>,
}

impl ChildPaths {
    /// Nothing is listed and nothing is selected.
    pub fn new() -> (paths: ChildPaths)
        ensures
            paths.children@ == Seq::<FileOrDirectory>::empty(),
            paths.selected.is_none(),
    {
        ChildPaths { children: Vec::new(), selected: None }
    }

    /// Takes `children` as the entries of the directory that was entered,
    /// and selects one of them: the directory `previous_directory` that was
    /// left, where there is one, else the first file, or the first directory
    /// in a listing without files.
    pub fn set(&mut self, children: Vec<FileOrDirectory>, previous_directory: Option<String>)
        ensures
            final(self).children == children,
            final(self).selected == spec_selection(
                entry_views(children@),
                match previous_directory {
                    Some(p) => Some(p@),
                    None => None,
                },
            ),
    {
        let ghost entries = entry_views(children@);
        let n: usize = children.len();
        let selected = match previous_directory {
            Some(previous) => {
                let mut found: Option<usize> = None;
                let mut i: usize = 0;
                while i < n && found.is_none()
                    invariant
                        n == children.len(),
                        i <= n,
                        entries == entry_views(children@),
                        found.is_none() ==> forall|k: int|
                            0 <= k < i ==> (#[trigger] entries[k]).path != previous@,
                        found matches Some(f) ==> f < n && entries[f as int].path == previous@
                            && forall|k: int| 0 <= k < f ==> (#[trigger] entries[k]).path != previous@,
                    decreases n - i + if found.is_none() {
                        1int
                    } else {
                        0int
                    },
                {
                    if children[i].path == previous {
                        found = Some(i);
                    } else {
                        i += 1;
                    }
                }
                proof {
                    match found {
                        Some(f) => {
                            let first = choose|i: int|
                                0 <= i < entries.len() && (#[trigger] entries[i]).path == previous@
                                    && forall|k: int|
                                    0 <= k < i ==> (#[trigger] entries[k]).path != previous@;
                            if first < f {
                                assert(entries[first].path != previous@);
                            }
                            if f < first {
                                assert(entries[f as int].path != previous@);
                            }
                        },
                        None => {},
                    }
                }
                found
            },
            None => {
                let mut folders: usize = 0;
                let mut i: usize = 0;
                proof {
                    assert(entries.subrange(0, 0) =~= Seq::<EntryView>::empty());
                }
                while i < n
                    invariant
                        n == children.len(),
                        i <= n,
                        entries == entry_views(children@),
                        folders == count_folders(entries.subrange(0, i as int)),
                        folders <= i,
                    decreases n - i,
                {
                    proof {
                        assert(entries.subrange(0, i + 1).drop_last() =~= entries.subrange(0, i as int));
                    }
                    if !children[i].is_file {
                        folders += 1;
                    }
                    i += 1;
                }
                proof {
                    assert(entries.subrange(0, n as int) =~= entries);
                }
                if n == 0 {
                    None
                } else if folders == 0 || folders == n {
                    Some(0)
                } else {
                    Some(folders)
                }
            },
        };
        self.selected = selected;
        self.children = children;
    }
}

impl Default for ChildPaths {
    /// Nothing is listed and nothing is selected.
    fn default() -> (paths: Self)
        ensures
            paths.children@ == Seq::<FileOrDirectory>::empty(),
            paths.selected.is_none(),
    {
        ChildPaths::new()
    }
}

/// An entry of a directory as it was read: with the extension of its name,
/// and whether it is a file, or a directory that can be read.
pub struct DirectoryEntry {
    /// Its path.
    pub path: String,
    /// The extension of its name, if it has one.
    pub extension: Option<String>,
    /// Whether it is a file.
    pub is_file: bool,
    /// Whether it is a directory.
    pub is_directory: bool,
}

/// Whether `extension` is among `extensions`.
pub open spec fn is_listed(extensions: Seq<Seq<char>>, extension: Option<Seq<char>>) -> bool {
    extension matches Some(e) && extensions.contains(e)
}

/// Holds of the directories.
pub open spec fn is_folder() -> spec_fn(DirectoryEntry) -> bool {
    |e: DirectoryEntry| e.is_directory
}

/// Holds of the files whose extension is among `extensions`.
pub open spec fn is_wanted_file(extensions: Seq<Seq<char>>) -> spec_fn(DirectoryEntry) -> bool {
    |e: DirectoryEntry|
        e.is_file && is_listed(
            extensions,
            match e.extension {
                Some(x) => Some(x@),
                None => None,
            },
        )
}

/// Makes a listed directory of an entry.
pub open spec fn as_folder() -> spec_fn(DirectoryEntry) -> EntryView {
    |e: DirectoryEntry| EntryView { path: e.path@, is_file: false }
}

/// Makes a listed file of an entry.
pub open spec fn as_file() -> spec_fn(DirectoryEntry) -> EntryView {
    |e: DirectoryEntry| EntryView { path: e.path@, is_file: true }
}

/// Whether `extension` is among the extensions of `open_file_type`.
pub fn has_extension(open_file_type: OpenFileType, extension: &Option<String>) -> (listed: bool)
    ensures
        listed == is_listed(
            open_file_type.spec_extensions(),
            match extension {
                Some(x) => Some(x@),
                None => None,
            },
        ),
{
    match extension {
        Some(wanted) => {
            let extensions = open_file_type.get_extensions();
            let ghost views = extensions@.map_values(|e: &'static str| e@);
            let mut i: usize = 0;
            while i < extensions.len()
                invariant
                    i <= extensions.len(),
                    views == extensions@.map_values(|e: &'static str| e@),
                    views == open_file_type.spec_extensions(),
                    *extension == Some(*wanted),
                    forall|k: int| 0 <= k < i ==> views[k] != wanted@,
                decreases extensions.len() - i,
            {
                let candidate = String::from_str(extensions[i]);
                if candidate == *wanted {
                    proof {
                        assert(views[i as int] == wanted@);
                        assert(open_file_type.spec_extensions().contains(wanted@));
                    }
                    return true;
                }
                i += 1;
            }
            false
        },
        None => false,
    }
}

impl ChildPaths {
    /// The listing of a directory for `open_file_type`: its directories, then
    /// those of its files whose extension `open_file_type` lists, both in the
    /// order of `entries`.
    pub fn get_paths_in_directory(
        entries: &Vec<DirectoryEntry>,
        open_file_type: OpenFileType,
    ) -> (paths: Vec<FileOrDirectory>)
        ensures
            entry_views(paths@) == entries@.filter(is_folder()).map_values(as_folder())
                + entries@.filter(is_wanted_file(open_file_type.spec_extensions())).map_values(as_file()),
    {
        let ghost wanted = is_wanted_file(open_file_type.spec_extensions());
        let mut folders: Vec<FileOrDirectory> = Vec::new();
        let mut files: Vec<FileOrDirectory> = Vec::new();
        let n: usize = entries.len();
        let mut i: usize = 0;
        proof {
            assert(entries@.subrange(0, 0) =~= Seq::<DirectoryEntry>::empty());
            lemma_filter_of_empty::<DirectoryEntry>(is_folder());
            lemma_filter_of_empty::<DirectoryEntry>(wanted);
            assert(entry_views(folders@) =~= Seq::<DirectoryEntry>::empty().map_values(as_folder()));
            assert(entry_views(files@) =~= Seq::<DirectoryEntry>::empty().map_values(as_file()));
        }
        while i < n
            invariant
                n == entries.len(),
                i <= n,
                wanted == is_wanted_file(open_file_type.spec_extensions()),
                entry_views(folders@) == entries@.subrange(0, i as int).filter(is_folder()).map_values(
                    as_folder(),
                ),
                entry_views(files@) == entries@.subrange(0, i as int).filter(wanted).map_values(
                    as_file(),
                ),
            decreases n - i,
        {
            let entry = &entries[i];
            let ghost prefix = entries@.subrange(0, i as int);
            proof {
                assert(entries@.subrange(0, i + 1) =~= prefix.push(*entry));
                lemma_filter_push(prefix, *entry, is_folder());
                lemma_filter_push(prefix, *entry, wanted);
            }
            if entry.is_directory {
                let ghost before = folders@;
                folders.push(FileOrDirectory { path: entry.path.clone(), is_file: false });
                proof {
                    assert(entry_views(folders@) =~= entry_views(before).push(as_folder()(*entry)));
                    assert(prefix.filter(is_folder()).push(*entry).map_values(as_folder())
                        =~= prefix.filter(is_folder()).map_values(as_folder()).push(
                        as_folder()(*entry),
                    ));
                }
            }
            if entry.is_file && has_extension(open_file_type, &entry.extension) {
                let ghost before = files@;
                files.push(FileOrDirectory { path: entry.path.clone(), is_file: true });
                proof {
                    assert(entry_views(files@) =~= entry_views(before).push(as_file()(*entry)));
                    assert(prefix.filter(wanted).push(*entry).map_values(as_file()) =~= prefix.filter(
                        wanted,
                    ).map_values(as_file()).push(as_file()(*entry)));
                }
            }
            i += 1;
        }
        proof {
            assert(entries@.subrange(0, n as int) =~= entries@);
        }
        let ghost listed = entry_views(folders@);
        let ghost more = entry_views(files@);
        let ghost before = folders@;
        let ghost added = files@;
        folders.append(&mut files);
        proof {
            assert(folders@ =~= before + added);
            assert(entry_views(folders@) =~= listed + more);
        }
        folders
    }
}

} // verus!

//! The contents of one directory: its sub-directories and the audio files in
//! it, in the order of their names.

use vstd::prelude::*;

use super::format::{classify, SupportedFormat};
use super::listing::{
    classified, insertion_point, lemma_listing_exact, lemma_listing_sorted, listing,
    sorted_by_name,
};
use super::path::{
    child_path, extension, extension_of, is_component, is_component_name, join,
    shown_before_or_equal,
};

verus! {

/// What the file system reports of one entry of a directory.
#[derive(Debug, Clone, PartialEq, Eq)]
pub struct Child {
    /// The name of the entry within its directory.
    pub name: String,
    /// Whether the entry is a directory.
    pub is_dir: bool,
    /// Whether the entry is a regular file.
    pub is_file: bool,
}

impl Child {
    /// The entry called `name`, of the given kind.
    pub fn new(name: &str, is_dir: bool, is_file: bool) -> (child: Child)
        ensures
            child@ == (ChildView { name: name@, is_dir, is_file }),
    {
        Child { name: name.to_owned(), is_dir, is_file }
    }
}

/// A `Child` as the rules see it.
pub struct ChildView {
    pub name: Seq<char>,
    pub is_dir: bool,
    pub is_file: bool,
}

impl View for Child {
    type V = ChildView;

    open spec fn view(&self) -> ChildView {
        ChildView { name: self.name@, is_dir: self.is_dir, is_file: self.is_file }
    }
}

/// The views of a run of children, in order.
pub open spec fn child_views(children: Seq<Child>) -> Seq<ChildView> {
    children.map_values(|child: Child| child@)
}

/// What kind of thing a listed entry is.
pub enum Kind {
    Dir,
    AudioFile(SupportedFormat),
}

/// A listed entry as the rules see it: a sub-directory, or an audio file
/// with its format.
pub struct Entry {
    pub kind: Kind,
    /// The name under which the entry is shown: the last component of its
    /// path. An entry whose path ends in no component of its own, as the
    /// root does, has none.
    pub name: Option<Seq<char>>,
    /// Where the entry lies.
    pub path: Seq<char>,
}

/// The name under which an entry reported as `name` is shown: `name` itself
/// where it is one component of a path, and none otherwise.
pub open spec fn shown(name: Seq<char>) -> Option<Seq<char>> {
    if is_component(name) {
        Some(name)
    } else {
        None
    }
}

/// The text of `name`, where there is one.
pub open spec fn text_of(name: Option<&str>) -> Option<Seq<char>> {
    match name {
        Some(text) => Some(text@),
        None => None,
    }
}

impl Entry {
    /// A name is one component of a path, and the last one of the path of
    /// the entry. An audio file has a name, and its format is the one that
    /// the extension of the name stands for.
    pub open spec fn wf(self) -> bool {
        &&& self.name matches Some(name) ==> {
            &&& is_component(name)
            &&& exists|dir: Seq<char>| self.path == join(dir, name)
        }
        &&& self.kind matches Kind::AudioFile(format) ==> {
            &&& self.name matches Some(name)
            &&& extension_of(name) matches Some(ext)
            &&& classify(ext) == Some(format)
        }
    }
}

/// The name of a well-formed entry ends its path, and what comes before it
/// in the path is nothing or ends in a `/`.
pub proof fn lemma_name_ends_path(entry: Entry)
    requires
        entry.wf(),
        entry.name is Some,
    ensures
        ({
            let name = entry.name->0;
            let cut = entry.path.len() - name.len();
            &&& cut >= 0
            &&& entry.path.subrange(cut, entry.path.len() as int) == name
            &&& cut == 0 || entry.path[cut - 1] == '/'
        }),
{
    let name = entry.name->0;
    let dir = choose|dir: Seq<char>| entry.path == join(dir, name);
    let cut = entry.path.len() - name.len();
    assert(name[0] != '/');
    assert(entry.path.subrange(cut, entry.path.len() as int) =~= name);
}

/// The audio file that `child` of the directory `dir` is: a regular file
/// whose name is one component of a path and whose extension names a
/// supported format. Anything else is none.
pub open spec fn audio_file_of(dir: Seq<char>, child: ChildView) -> Option<Entry> {
    if child.is_file && is_component(child.name) {
        match extension_of(child.name) {
            Some(ext) => match classify(ext) {
                Some(format) => Some(
                    Entry {
                        kind: Kind::AudioFile(format),
                        name: Some(child.name),
                        path: join(dir, child.name),
                    },
                ),
                None => None,
            },
            None => None,
        }
    } else {
        None
    }
}

/// The entry that `child` of the directory `dir` is listed as: a directory as
/// such, a regular file as an audio file where it is one, anything else not
/// at all. A directory reported under what is no component of a path is
/// listed without a name.
pub open spec fn classify_child(dir: Seq<char>, child: ChildView) -> Option<Entry> {
    if child.is_dir {
        Some(Entry { kind: Kind::Dir, name: shown(child.name), path: join(dir, child.name) })
    } else {
        audio_file_of(dir, child)
    }
}

/// An audio file of the library.
#[derive(Debug)]
pub struct File {
    name: String,
    format: SupportedFormat,
    path: String,
}

impl View for File {
    type V = Entry;

    closed spec fn view(&self) -> Entry {
        Entry { kind: Kind::AudioFile(self.format), name: Some(self.name@), path: self.path@ }
    }
}

impl Clone for File {
    fn clone(&self) -> (copy: File)
        ensures
            copy@ == self@,
    {
        proof {
            use_type_invariant(self);
        }
        File { name: self.name.clone(), format: self.format, path: self.path.clone() }
    }
}

impl File {
    #[verifier::type_invariant]
    spec fn inv(&self) -> bool {
        self@.wf()
    }

    /// The file that `child` of the directory `dir` is, or an error where it
    /// is no audio file.
    pub fn try_from(dir: &str, child: &Child) -> (file: Result<File, ()>)
        ensures
            file is Ok <==> audio_file_of(dir@, child@) is Some,
            file matches Ok(f) ==> audio_file_of(dir@, child@) == Some(f@),
    {
        if !child.is_file || !is_component_name(child.name.as_str()) {
            return Err(());
        }
        let format: SupportedFormat = match extension(child.name.as_str()) {
            Some(ext) => match SupportedFormat::try_from(ext) {
                Ok(format) => format,
                Err(_) => {
                    return Err(());
                },
            },
            None => {
                return Err(());
            },
        };
        let path: String = child_path(dir, child.name.as_str());
        Ok(File { name: child.name.clone(), format, path })
    }

    /// The name of the file, which is the last component of its path.
    pub fn name(&self) -> (name: &str)
        ensures
            self@.name == Some(name@),
            self@.wf(),
    {
        proof {
            use_type_invariant(self);
        }
        self.name.as_str()
    }

    /// The format of the file, which is the one that the extension of its
    /// name stands for.
    pub fn format(&self) -> (format: SupportedFormat)
        ensures
            self@.kind == Kind::AudioFile(format),
            self@.wf(),
    {
        proof {
            use_type_invariant(self);
        }
        self.format
    }

    /// Where the file lies.
    pub fn path(&self) -> (path: &str)
        ensures
            path@ == self@.path,
    {
        self.path.as_str()
    }
}

/// A sub-directory of the library.
#[derive(Debug)]
pub struct Folder {
    name: Option<String>,
    path: String,
}

impl View for Folder {
    type V = Entry;

    closed spec fn view(&self) -> Entry {
        Entry {
            kind: Kind::Dir,
            name: match self.name {
                Some(name) => Some(name@),
                None => None,
            },
            path: self.path@,
        }
    }
}

impl Clone for Folder {
    fn clone(&self) -> (copy: Folder)
        ensures
            copy@ == self@,
    {
        proof {
            use_type_invariant(self);
        }
        let name: Option<String> = match &self.name {
            Some(name) => Some(name.clone()),
            None => None,
        };
        Folder { name, path: self.path.clone() }
    }
}

impl Folder {
    #[verifier::type_invariant]
    spec fn inv(&self) -> bool {
        self@.wf()
    }

    /// The directory that is reported as `name` in the directory `dir`. It
    /// is shown as `name` where that is one component of a path. What is
    /// none names no entry of `dir`: the directory at the path has no name
    /// to be shown under, as the root has none.
    pub fn new(dir: &str, name: &str) -> (folder: Folder)
        ensures
            folder@ == (Entry { kind: Kind::Dir, name: shown(name@), path: join(dir@, name@) }),
    {
        let shown_as: Option<String> = if is_component_name(name) {
            Some(name.to_owned())
        } else {
            None
        };
        Folder { name: shown_as, path: child_path(dir, name) }
    }

    /// The name of the directory, which is the last component of its path;
    /// none where the path has no such component.
    pub fn name(&self) -> (name: Option<&str>)
        ensures
            text_of(name) == self@.name,
            self@.wf(),
    {
        proof {
            use_type_invariant(self);
        }
        match &self.name {
            Some(name) => Some(name.as_str()),
            None => None,
        }
    }

    /// Where the directory lies.
    pub fn path(&self) -> (path: &str)
        ensures
            path@ == self@.path,
    {
        self.path.as_str()
    }
}

/// One entry of a listing.
#[derive(Debug)]
pub enum DirContent {
    Dir(Folder),
    AudioFile(File),
}

impl View for DirContent {
    type V = Entry;

    open spec fn view(&self) -> Entry {
        match self {
            DirContent::Dir(folder) => folder@,
            DirContent::AudioFile(file) => file@,
        }
    }
}

impl Clone for DirContent {
    fn clone(&self) -> (copy: DirContent)
        ensures
            copy@ == self@,
    {
        match self {
            DirContent::Dir(folder) => DirContent::Dir(folder.clone()),
            DirContent::AudioFile(file) => DirContent::AudioFile(file.clone()),
        }
    }
}

impl DirContent {
    /// The entry that `child` of the directory `dir` is listed as, or an
    /// error where it is not listed.
    pub fn try_from(dir: &str, child: &Child) -> (entry: Result<DirContent, ()>)
        ensures
            entry is Ok <==> classify_child(dir@, child@) is Some,
            entry matches Ok(e) ==> classify_child(dir@, child@) == Some(e@),
    {
        if child.is_dir {
            Ok(DirContent::Dir(Folder::new(dir, child.name.as_str())))
        } else {
            match File::try_from(dir, child) {
                Ok(file) => Ok(DirContent::AudioFile(file)),
                Err(_) => Err(()),
            }
        }
    }

    /// The name under which the entry is shown: the last component of its
    /// path. An audio file always has one; a directory has none where its
    /// path ends in no component of its own, as the root does.
    pub fn name(&self) -> (name: Option<&str>)
        ensures
            text_of(name) == self@.name,
            self@.kind is AudioFile ==> name is Some,
            self@.wf(),
    {
        match self {
            DirContent::Dir(folder) => folder.name(),
            DirContent::AudioFile(file) => Some(file.name()),
        }
    }

    /// Where the entry lies.
    pub fn path(&self) -> (path: &str)
        ensures
            path@ == self@.path,
    {
        match self {
            DirContent::Dir(folder) => folder.path(),
            DirContent::AudioFile(file) => file.path(),
        }
    }

    /// The format of the entry where it is an audio file.
    pub fn format(&self) -> (format: Option<SupportedFormat>)
        ensures
            match format {
                Some(f) => self@.kind == Kind::AudioFile(f),
                None => self@.kind is Dir,
            },
    {
        match self {
            DirContent::Dir(_) => None,
            DirContent::AudioFile(file) => Some(file.format()),
        }
    }

    /// Whether the entry is a sub-directory.
    pub fn is_dir(&self) -> (dir: bool)
        ensures
            dir == (self@.kind is Dir),
    {
        match self {
            DirContent::Dir(_) => true,
            DirContent::AudioFile(_) => false,
        }
    }
}

/// The views of a run of entries, in order.
pub open spec fn entry_views(entries: Seq<DirContent>) -> Seq<Entry> {
    entries.map_values(|entry: DirContent| entry@)
}

/// The listing of a directory.
#[derive(Debug)]
pub struct DirContents(Vec<DirContent>);

impl View for DirContents {
    type V = Seq<Entry>;

    closed spec fn view(&self) -> Seq<Entry> {
        entry_views(self.0@)
    }
}

impl Clone for DirContents {
    fn clone(&self) -> (copy: DirContents)
        ensures
            copy@ == self@,
    {
        proof {
            use_type_invariant(self);
        }
        let mut entries: Vec<DirContent> = Vec::new();
        let mut i: usize = 0;
        while i < self.0.len()
            invariant
                i <= self.0.len(),
                entry_views(entries@) =~= entry_views(self.0@).take(i as int),
            decreases self.0.len() - i,
        {
            let entry: DirContent = self.0[i].clone();
            assert(entry@ == self.0@[i as int]@);
            assert(entry_views(self.0@).take(i as int + 1) =~= entry_views(self.0@).take(
                i as int,
            ).push(entry@));
            let ghost before = entries@;
            entries.push(entry);
            assert(entry_views(entries@) =~= entry_views(before).push(entry@));
            i += 1;
        }
        assert(entry_views(self.0@).take(self.0.len() as int) =~= entry_views(self.0@));
        DirContents(entries)
    }
}

impl Default for DirContents {
    /// The listing that holds nothing.
    fn default() -> (contents: DirContents)
        ensures
            contents@ == Seq::<Entry>::empty(),
    {
        let contents = DirContents(Vec::new());
        assert(contents@ =~= Seq::<Entry>::empty());
        contents
    }
}

impl DirContents {
    #[verifier::type_invariant]
    spec fn inv(&self) -> bool {
        sorted_by_name(self@)
    }

    /// Lists the directory `dir`, of which the file system reports the
    /// entries `children`: its sub-directories and its audio files, in the
    /// order of their names. Entries of the same name stay in the order in
    /// which they were reported, and so do those without a name, which come
    /// first. A directory that could not be read has no children, and its
    /// listing is empty.
    pub fn new(dir: &str, children: &[Child]) -> (contents: DirContents)
        ensures
            contents@ == listing(dir@, child_views(children@)),
            sorted_by_name(contents@),
            contents@.to_multiset() == classified(dir@, child_views(children@)).to_multiset(),
            children@.len() == 0 ==> contents@.len() == 0,
    {
        let ghost all = child_views(children@);
        let mut entries: Vec<DirContent> = Vec::new();
        let mut i: usize = 0;
        assert(all.take(0) =~= Seq::<ChildView>::empty());
        while i < children.len()
            invariant
                i <= children.len(),
                all == child_views(children@),
                entry_views(entries@) == listing(dir@, all.take(i as int)),
            decreases children.len() - i,
        {
            proof {
                assert(all.take(i as int + 1).drop_last() =~= all.take(i as int));
                assert(all.take(i as int + 1).last() == children@[i as int]@);
                lemma_listing_sorted(dir@, all.take(i as int));
            }
            match DirContent::try_from(dir, &children[i]) {
                Ok(entry) => {
                    let at: usize = DirContents::place(&entries, &entry);
                    let ghost before = entries@;
                    let ghost added = entry@;
                    entries.insert(at, entry);
                    assert(entry_views(entries@) =~= entry_views(before).insert(at as int, added));
                },
                Err(_) => {},
            }
            i += 1;
        }
        proof {
            assert(all.take(children@.len() as int) =~= all);
            lemma_listing_sorted(dir@, all);
            lemma_listing_exact(dir@, all);
        }
        DirContents(entries)
    }

    /// Where `entry` goes into `entries`.
    fn place(entries: &Vec<DirContent>, entry: &DirContent) -> (at: usize)
        ensures
            at == insertion_point(entry_views(entries@), entry@.name),
            at <= entries.len(),
    {
        let ghost views = entry_views(entries@);
        let ours: Option<&str> = entry.name();
        let mut at: usize = entries.len();
        assert(views.take(at as int) =~= views);
        while at > 0
            invariant
                at <= entries.len(),
                views == entry_views(entries@),
                text_of(ours) == entry@.name,
                insertion_point(views, entry@.name) == insertion_point(
                    views.take(at as int),
                    entry@.name,
                ),
            decreases at,
        {
            let other: &DirContent = &entries[at - 1];
            assert(views.take(at as int).last() == other@);
            assert(views.take(at as int).drop_last() =~= views.take(at as int - 1));
            if shown_before_or_equal(other.name(), ours) {
                return at;
            }
            at -= 1;
        }
        at
    }

    /// The entries of the listing; their names ascend.
    pub fn list(&self) -> (entries: &[DirContent])
        ensures
            entry_views(entries@) == self@,
            sorted_by_name(self@),
    {
        proof {
            use_type_invariant(self);
        }
        self.0.as_slice()
    }
}

} // verus!

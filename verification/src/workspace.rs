use vstd::prelude::*;
use vstd::utf8::{decode_utf8, encode_utf8, encode_utf8_decode_utf8, is_char_boundary};
use crate::models::FolderInfo;
use crate::text::{decimal, owned, push_decimal, push_str, str_eq};

verus! {

/// A folder of the workspace, and whether its files go into the chat context.
#[derive(Debug, Clone)]
pub struct WorkspaceFolder {
    pub path: String,
    pub included: bool,
}

/// Why a folder could not be added.
#[derive(Debug)]
pub enum WorkspaceError {
    NotFound(String),
    NotADirectory(String),
    AlreadyAdded(String),
}

/// The error by its values.
pub enum WorkspaceErrorView {
    NotFound(Seq<char>),
    NotADirectory(Seq<char>),
    AlreadyAdded(Seq<char>),
}

impl View for WorkspaceError {
    type V = WorkspaceErrorView;

    open spec fn view(&self) -> WorkspaceErrorView {
        match self {
            WorkspaceError::NotFound(p) => WorkspaceErrorView::NotFound(p@),
            WorkspaceError::NotADirectory(p) => WorkspaceErrorView::NotADirectory(p@),
            WorkspaceError::AlreadyAdded(p) => WorkspaceErrorView::AlreadyAdded(p@),
        }
    }
}

/// The message of an error.
pub open spec fn error_text(e: WorkspaceErrorView) -> Seq<char> {
    match e {
        WorkspaceErrorView::NotFound(p) => "Path does not exist: "@ + p,
        WorkspaceErrorView::NotADirectory(p) => "Path is not a directory: "@ + p,
        WorkspaceErrorView::AlreadyAdded(p) => "Folder already added: "@ + p,
    }
}

impl WorkspaceError {
    /// The message of the error.
    pub fn message(&self) -> (r: String)
        ensures
            r@ == error_text(self@),
    {
        let (lead, p) = match self {
            WorkspaceError::NotFound(p) => ("Path does not exist: ", p),
            WorkspaceError::NotADirectory(p) => ("Path is not a directory: ", p),
            WorkspaceError::AlreadyAdded(p) => ("Folder already added: ", p),
        };
        let mut r = owned(lead);
        push_str(&mut r, p.as_str());
        r
    }
}

/// The folders by path and inclusion.
pub open spec fn folder_views(folders: Seq<WorkspaceFolder>) -> Seq<(Seq<char>, bool)> {
    folders.map_values(|f: WorkspaceFolder| (f.path@, f.included))
}

/// Some folder has path `p`.
pub open spec fn has_path(folders: Seq<(Seq<char>, bool)>, p: Seq<char>) -> bool {
    exists|i: int| 0 <= i < folders.len() && folders[i].0 == p
}

/// No two folders share a path.
pub open spec fn paths_unique(folders: Seq<(Seq<char>, bool)>) -> bool {
    forall|i: int, j: int| 0 <= i < j < folders.len() ==> folders[i].0 != folders[j].0
}

/// Every folder is included.
pub open spec fn all_included(folders: Seq<(Seq<char>, bool)>) -> bool {
    forall|i: int| 0 <= i < folders.len() ==> (#[trigger] folders[i]).1
}

/// The folders without those at path `p`, in order.
pub open spec fn without_path(folders: Seq<(Seq<char>, bool)>, p: Seq<char>) -> Seq<(Seq<char>, bool)>
    decreases folders.len(),
{
    if folders.len() == 0 {
        Seq::empty()
    } else {
        let rest = without_path(folders.drop_last(), p);
        if folders.last().0 == p {
            rest
        } else {
            rest.push(folders.last())
        }
    }
}

/// The outcome of adding the folder at `p`, given what the file system says
/// of it: it must exist, be a directory, and not be in the workspace yet.
pub open spec fn admission(folders: Seq<(Seq<char>, bool)>, p: Seq<char>, exists: bool, is_dir: bool) -> Option<
    WorkspaceErrorView,
> {
    if !exists {
        Some(WorkspaceErrorView::NotFound(p))
    } else if !is_dir {
        Some(WorkspaceErrorView::NotADirectory(p))
    } else if has_path(folders, p) {
        Some(WorkspaceErrorView::AlreadyAdded(p))
    } else {
        None
    }
}

/// What a scan of a folder found: its name, when the path has one, and how
/// many files lie under it.
#[derive(Debug)]
pub struct FolderScan {
    pub name: Option<String>,
    pub file_count: usize,
}

/// The name shown for a folder: its own, or `unnamed`.
pub open spec fn shown_name(name: Option<String>) -> Seq<char> {
    match name {
        Some(n) => n@,
        None => "unnamed"@,
    }
}

/// The interface's view of a folder, given a scan of it; the count is kept
/// modulo 2^32.
pub open spec fn folder_info_matches(info: FolderInfo, path: Seq<char>, included: bool, scan: FolderScan) -> bool {
    &&& info.path@ == path
    &&& info.name@ == shown_name(scan.name)
    &&& info.file_count == scan.file_count as u32
    &&& info.included == included
}

/// The interface's view of a folder.
fn folder_info(path: &String, included: bool, scan: &FolderScan) -> (r: FolderInfo)
    ensures
        folder_info_matches(r, path@, included, *scan),
{
    let name = match &scan.name {
        Some(n) => n.clone(),
        None => owned("unnamed"),
    };
    #[verifier::truncate]
    let file_count: u32 = scan.file_count as u32;
    FolderInfo { path: path.clone(), name, file_count, included }
}

/// The folders that the chat may read.
pub struct WorkspaceManager {
    folders: Vec<WorkspaceFolder>,
}

impl WorkspaceManager {
    /// No two folders share a path, and every folder is included.
    #[verifier::type_invariant]
    spec fn well_formed(self) -> bool {
        &&& paths_unique(folder_views(self.folders@))
        &&& all_included(folder_views(self.folders@))
    }

    /// The folders by path and inclusion, in the order they were added.
    pub closed spec fn folders_view(&self) -> Seq<(Seq<char>, bool)> {
        folder_views(self.folders@)
    }

    /// An empty workspace.
    pub fn new() -> (r: WorkspaceManager)
        ensures
            r.folders_view() == Seq::<(Seq<char>, bool)>::empty(),
            paths_unique(r.folders_view()),
            all_included(r.folders_view()),
    {
        let r = WorkspaceManager { folders: Vec::new() };
        assert(r.folders_view() =~= Seq::<(Seq<char>, bool)>::empty());
        r
    }

    /// The folders, in the order they were added.
    pub fn folders(&self) -> (r: &Vec<WorkspaceFolder>)
        ensures
            folder_views(r@) == self.folders_view(),
    {
        &self.folders
    }

    /// Whether a folder at `path` is in the workspace.
    fn contains_path(&self, path: &str) -> (r: bool)
        ensures
            r == has_path(self.folders_view(), path@),
    {
        let ghost fv = self.folders_view();
        let mut i: usize = 0;
        while i < self.folders.len()
            invariant
                fv == folder_views(self.folders@),
                fv.len() == self.folders@.len(),
                i <= self.folders.len(),
                forall|j: int| 0 <= j < i ==> fv[j].0 != path@,
            decreases self.folders.len() - i,
        {
            if str_eq(self.folders[i].path.as_str(), path) {
                assert(fv[i as int].0 == path@);
                return true;
            }
            i = i + 1;
        }
        false
    }

    /// Whether the folder at `path` may be added, given whether it exists and
    /// is a directory.
    pub fn check_new_folder(&self, path: &str, exists: bool, is_dir: bool) -> (r: Result<
        (),
        WorkspaceError,
    >)
        ensures
            match r {
                Ok(_) => admission(self.folders_view(), path@, exists, is_dir) is None,
                Err(e) => admission(self.folders_view(), path@, exists, is_dir) == Some(e@),
            },
    {
        if !exists {
            return Err(WorkspaceError::NotFound(owned(path)));
        }
        if !is_dir {
            return Err(WorkspaceError::NotADirectory(owned(path)));
        }
        if self.contains_path(path) {
            return Err(WorkspaceError::AlreadyAdded(owned(path)));
        }
        Ok(())
    }

    /// Adds the folder at `path`, included, when it exists, is a directory
    /// and is not in the workspace yet; `scan` is what a walk of it found.
    pub fn add_folder(&mut self, path: &str, exists: bool, is_dir: bool, scan: FolderScan) -> (r: Result<
        FolderInfo,
        WorkspaceError,
    >)
        ensures
            paths_unique(final(self).folders_view()),
            all_included(final(self).folders_view()),
            match r {
                Ok(info) => {
                    &&& admission(old(self).folders_view(), path@, exists, is_dir) is None
                    &&& final(self).folders_view() == old(self).folders_view().push((path@, true))
                    &&& folder_info_matches(info, path@, true, scan)
                },
                Err(e) => {
                    &&& admission(old(self).folders_view(), path@, exists, is_dir) == Some(e@)
                    &&& final(self).folders_view() == old(self).folders_view()
                },
            },
    {
        proof {
            use_type_invariant(&*self);
        }
        match self.check_new_folder(path, exists, is_dir) {
            Err(e) => Err(e),
            Ok(_) => {
                let folder = WorkspaceFolder { path: owned(path), included: true };
                let info = folder_info(&folder.path, true, &scan);
                let mut folders: Vec<WorkspaceFolder> = Vec::new();
                std::mem::swap(&mut folders, &mut self.folders);
                let ghost before = folders@;
                folders.push(folder);
                assert(folder_views(folders@) =~= folder_views(before).push((path@, true)));
                proof {
                    lemma_paths_stay_unique(folder_views(before), path@);
                    lemma_inclusion_kept(folder_views(before), path@);
                }
                self.folders = folders;
                Ok(info)
            },
        }
    }

    /// Takes the folder at `path` out of the workspace.
    pub fn remove_folder(&mut self, path: &str)
        ensures
            final(self).folders_view() == without_path(old(self).folders_view(), path@),
            final(self).folders_view() == old(self).folders_view().filter(not_at(path@)),
            !has_path(final(self).folders_view(), path@),
            paths_unique(final(self).folders_view()),
            all_included(final(self).folders_view()),
    {
        proof {
            use_type_invariant(&*self);
            lemma_remove_keeps_others(self.folders_view(), path@);
            lemma_remove_removes(self.folders_view(), path@);
            lemma_paths_stay_unique(self.folders_view(), path@);
            lemma_inclusion_kept(self.folders_view(), path@);
        }
        let ghost fv = self.folders_view();
        let mut kept: Vec<WorkspaceFolder> = Vec::new();
        let mut i: usize = 0;
        while i < self.folders.len()
            invariant
                fv == folder_views(self.folders@),
                fv.len() == self.folders@.len(),
                i <= self.folders.len(),
                folder_views(kept@) == without_path(fv.take(i as int), path@),
            decreases self.folders.len() - i,
        {
            let f = &self.folders[i];
            proof {
                assert(fv.take(i + 1).drop_last() =~= fv.take(i as int));
                assert(fv.take(i + 1).last() == (f.path@, f.included));
            }
            if !str_eq(f.path.as_str(), path) {
                let ghost before = kept@;
                let c = WorkspaceFolder { path: f.path.clone(), included: f.included };
                kept.push(c);
                assert(folder_views(kept@) =~= folder_views(before).push((f.path@, f.included)));
            }
            i = i + 1;
        }
        assert(fv.take(self.folders.len() as int) =~= fv);
        self.folders = kept;
    }

    /// The interface's view of every folder, given a scan of each, in order;
    /// every folder is shown included.
    pub fn list_folders(&self, scans: &Vec<FolderScan>) -> (r: Vec<FolderInfo>)
        requires
            scans@.len() == self.folders_view().len(),
        ensures
            r@.len() == self.folders_view().len(),
            all_included(self.folders_view()),
            forall|i: int| 0 <= i < r@.len() ==> (#[trigger] r@[i]).included,
            forall|i: int|
                0 <= i < r@.len() ==> folder_info_matches(
                    #[trigger] r@[i],
                    self.folders_view()[i].0,
                    self.folders_view()[i].1,
                    scans@[i],
                ),
    {
        proof {
            use_type_invariant(self);
        }
        let ghost fv = self.folders_view();
        let mut r: Vec<FolderInfo> = Vec::new();
        let mut i: usize = 0;
        while i < self.folders.len()
            invariant
                fv == folder_views(self.folders@),
                fv.len() == self.folders@.len(),
                scans@.len() == fv.len(),
                i <= self.folders.len(),
                r@.len() == i,
                forall|k: int|
                    0 <= k < i ==> folder_info_matches(#[trigger] r@[k], fv[k].0, fv[k].1, scans@[k]),
            decreases self.folders.len() - i,
        {
            let f = &self.folders[i];
            r.push(folder_info(&f.path, f.included, &scans[i]));
            i = i + 1;
        }
        r
    }

    /// The paths of the folders whose files go into the chat, in order.
    pub fn included_paths(&self) -> (r: Vec<String>)
        ensures
            r@.map_values(|p: String| p@) == included_of(self.folders_view()),
    {
        let ghost fv = self.folders_view();
        let mut r: Vec<String> = Vec::new();
        let mut i: usize = 0;
        while i < self.folders.len()
            invariant
                fv == folder_views(self.folders@),
                fv.len() == self.folders@.len(),
                i <= self.folders.len(),
                r@.map_values(|p: String| p@) == included_of(fv.take(i as int)),
            decreases self.folders.len() - i,
        {
            let f = &self.folders[i];
            proof {
                assert(fv.take(i + 1).drop_last() =~= fv.take(i as int));
                assert(fv.take(i + 1).last() == (f.path@, f.included));
            }
            if f.included {
                let ghost before = r@;
                r.push(f.path.clone());
                assert(r@.map_values(|p: String| p@) =~= before.map_values(|p: String| p@).push(
                    f.path@,
                ));
            }
            i = i + 1;
        }
        assert(fv.take(self.folders.len() as int) =~= fv);
        r
    }
}

/// The paths of the included folders, in order.
pub open spec fn included_of(folders: Seq<(Seq<char>, bool)>) -> Seq<Seq<char>>
    decreases folders.len(),
{
    if folders.len() == 0 {
        Seq::empty()
    } else {
        let rest = included_of(folders.drop_last());
        if folders.last().1 {
            rest.push(folders.last().0)
        } else {
            rest
        }
    }
}

/// Whether a folder is not at path `p`.
pub open spec fn not_at(p: Seq<char>) -> spec_fn((Seq<char>, bool)) -> bool {
    |f: (Seq<char>, bool)| f.0 != p
}

/// Removing the folders at a path keeps every other folder, in order: the
/// result is the folders whose path differs from it.
pub proof fn lemma_remove_keeps_others(folders: Seq<(Seq<char>, bool)>, p: Seq<char>)
    ensures
        without_path(folders, p) == folders.filter(not_at(p)),
    decreases folders.len(),
{
    reveal(Seq::filter);
    if folders.len() > 0 {
        lemma_remove_keeps_others(folders.drop_last(), p);
    }
}

/// Adding a folder and then removing it leaves the workspace as it was.
pub proof fn lemma_add_then_remove(folders: Seq<(Seq<char>, bool)>, p: Seq<char>)
    requires
        !has_path(folders, p),
    ensures
        without_path(folders.push((p, true)), p) == folders,
{
    lemma_without_absent(folders, p);
    assert(folders.push((p, true)).drop_last() =~= folders);
}

/// Removing a path that is not there changes nothing.
pub proof fn lemma_without_absent(folders: Seq<(Seq<char>, bool)>, p: Seq<char>)
    requires
        !has_path(folders, p),
    ensures
        without_path(folders, p) == folders,
    decreases folders.len(),
{
    if folders.len() > 0 {
        let init = folders.drop_last();
        assert(!has_path(init, p)) by {
            if has_path(init, p) {
                let i = choose|i: int| 0 <= i < init.len() && init[i].0 == p;
                assert(folders[i].0 == p);
            }
        }
        lemma_without_absent(init, p);
        assert(folders.last().0 != p) by {
            assert(folders[folders.len() - 1].0 != p);
        }
        assert(init.push(folders.last()) =~= folders);
    }
}

/// After removing a path, no folder has it, and the others stay in order.
pub proof fn lemma_remove_removes(folders: Seq<(Seq<char>, bool)>, p: Seq<char>)
    ensures
        !has_path(without_path(folders, p), p),
        forall|f: (Seq<char>, bool)| #[trigger] without_path(folders, p).contains(f) ==> folders.contains(f),
    decreases folders.len(),
{
    if folders.len() > 0 {
        let init = folders.drop_last();
        lemma_remove_removes(init, p);
        let rest = without_path(init, p);
        assert forall|f: (Seq<char>, bool)| #[trigger] without_path(folders, p).contains(f) implies folders.contains(f) by {
            if rest.contains(f) {
                assert(init.contains(f));
                let i = choose|i: int| 0 <= i < init.len() && init[i] == f;
                assert(folders[i] == f);
            } else {
                assert(f == folders.last());
                assert(folders[folders.len() - 1] == f);
            }
        }
        if folders.last().0 != p {
            assert forall|i: int| 0 <= i < rest.push(folders.last()).len() implies rest.push(folders.last())[i].0 != p by {
                if i < rest.len() {
                    assert(rest[i].0 != p) by {
                        if rest[i].0 == p {
                            assert(has_path(rest, p));
                        }
                    }
                }
            }
        }
    }
}

/// Adding folders keeps their paths distinct, and so does removing one.
pub proof fn lemma_paths_stay_unique(folders: Seq<(Seq<char>, bool)>, p: Seq<char>)
    requires
        paths_unique(folders),
    ensures
        !has_path(folders, p) ==> paths_unique(folders.push((p, true))),
        paths_unique(without_path(folders, p)),
    decreases folders.len(),
{
    if !has_path(folders, p) {
        assert forall|i: int, j: int| 0 <= i < j < folders.push((p, true)).len() implies folders.push(
            (p, true),
        )[i].0 != folders.push((p, true))[j].0 by {
            if j == folders.len() {
                assert(folders[i].0 != p);
            }
        }
    }
    if folders.len() > 0 {
        let init = folders.drop_last();
        lemma_paths_stay_unique(init, p);
        lemma_remove_removes(init, p);
        let rest = without_path(init, p);
        if folders.last().0 != p {
            assert forall|i: int, j: int| 0 <= i < j < rest.push(folders.last()).len() implies rest.push(
                folders.last(),
            )[i].0 != rest.push(folders.last())[j].0 by {
                if j == rest.len() {
                    assert(rest.contains(rest[i]));
                    assert(init.contains(rest[i]));
                    let k = choose|k: int| 0 <= k < init.len() && init[k] == rest[i];
                    assert(folders[k] == rest[i]);
                    assert(folders[folders.len() - 1] == folders.last());
                }
            }
        }
    }
}

/// Adding an included folder, or removing folders, keeps every folder
/// included when every folder was.
pub proof fn lemma_inclusion_kept(folders: Seq<(Seq<char>, bool)>, p: Seq<char>)
    requires
        all_included(folders),
    ensures
        all_included(folders.push((p, true))),
        all_included(without_path(folders, p)),
{
    lemma_remove_removes(folders, p);
    let rest = without_path(folders, p);
    assert forall|i: int| 0 <= i < rest.len() implies (#[trigger] rest[i]).1 by {
        assert(rest.contains(rest[i]));
        let k = choose|k: int| 0 <= k < folders.len() && folders[k] == rest[i];
        assert(folders[k].1);
    }
    assert forall|i: int| 0 <= i < folders.push((p, true)).len() implies (#[trigger] folders.push(
        (p, true),
    )[i]).1 by {
        if i < folders.len() {
            assert(folders[i].1);
        }
    }
}

/// How deep the chat context walks below each included folder.
pub const CONTEXT_WALK_DEPTH: usize = 2;

/// How deep the workspace search walks below each included folder.
pub const SEARCH_WALK_DEPTH: usize = 3;

/// How deep a folder listing walks below the folder.
pub const LIST_WALK_DEPTH: usize = 3;

/// The largest file text, in bytes, that goes into the context whole.
pub const MAX_CONTEXT_FILE_BYTES: usize = 50_000;

/// The extensions of the files whose text goes into the context.
pub open spec fn text_extensions() -> Seq<Seq<char>> {
    seq![
        "rs"@, "js"@, "ts"@, "py"@, "go"@, "c"@, "cpp"@, "h"@, "hpp"@, "java"@, "kt"@, "swift"@,
        "rb"@, "php"@, "html"@, "css"@, "scss"@, "json"@, "yaml"@, "yml"@, "toml"@, "md"@, "txt"@,
        "sh"@, "ps1"@, "bat"@, "xml"@, "sql"@, "ini"@, "cfg"@, "dockerfile"@,
    ]
}

/// The extensions whose files go into the context are exactly these: source
/// code, markup, configuration and plain text, `txt` among them.
pub proof fn lemma_text_extensions_are(e: Seq<char>)
    ensures
        text_extensions().contains(e) <==> (e == "rs"@ || e == "js"@ || e == "ts"@ || e == "py"@
            || e == "go"@ || e == "c"@ || e == "cpp"@ || e == "h"@ || e == "hpp"@ || e == "java"@
            || e == "kt"@ || e == "swift"@ || e == "rb"@ || e == "php"@ || e == "html"@ || e
            == "css"@ || e == "scss"@ || e == "json"@ || e == "yaml"@ || e == "yml"@ || e
            == "toml"@ || e == "md"@ || e == "txt"@ || e == "sh"@ || e == "ps1"@ || e == "bat"@
            || e == "xml"@ || e == "sql"@ || e == "ini"@ || e == "cfg"@ || e == "dockerfile"@),
{
    let t = text_extensions();
    if e == "rs"@ { assert(t[0] == e); }
    if e == "js"@ { assert(t[1] == e); }
    if e == "ts"@ { assert(t[2] == e); }
    if e == "py"@ { assert(t[3] == e); }
    if e == "go"@ { assert(t[4] == e); }
    if e == "c"@ { assert(t[5] == e); }
    if e == "cpp"@ { assert(t[6] == e); }
    if e == "h"@ { assert(t[7] == e); }
    if e == "hpp"@ { assert(t[8] == e); }
    if e == "java"@ { assert(t[9] == e); }
    if e == "kt"@ { assert(t[10] == e); }
    if e == "swift"@ { assert(t[11] == e); }
    if e == "rb"@ { assert(t[12] == e); }
    if e == "php"@ { assert(t[13] == e); }
    if e == "html"@ { assert(t[14] == e); }
    if e == "css"@ { assert(t[15] == e); }
    if e == "scss"@ { assert(t[16] == e); }
    if e == "json"@ { assert(t[17] == e); }
    if e == "yaml"@ { assert(t[18] == e); }
    if e == "yml"@ { assert(t[19] == e); }
    if e == "toml"@ { assert(t[20] == e); }
    if e == "md"@ { assert(t[21] == e); }
    if e == "txt"@ { assert(t[22] == e); }
    if e == "sh"@ { assert(t[23] == e); }
    if e == "ps1"@ { assert(t[24] == e); }
    if e == "bat"@ { assert(t[25] == e); }
    if e == "xml"@ { assert(t[26] == e); }
    if e == "sql"@ { assert(t[27] == e); }
    if e == "ini"@ { assert(t[28] == e); }
    if e == "cfg"@ { assert(t[29] == e); }
    if e == "dockerfile"@ { assert(t[30] == e); }
}

/// Whether a file with extension `ext` (without the dot, as written) is read
/// into the context.
pub fn is_text_extension(ext: &str) -> (r: bool)
    ensures
        r == text_extensions().contains(ext@),
{
    let known: [&str; 31] = [
        "rs", "js", "ts", "py", "go", "c", "cpp", "h", "hpp", "java", "kt", "swift", "rb", "php",
        "html", "css", "scss", "json", "yaml", "yml", "toml", "md", "txt", "sh", "ps1", "bat", "xml",
        "sql", "ini", "cfg", "dockerfile",
    ];
    let ghost names = known@.map_values(|s: &str| s@);
    assert(names =~= text_extensions());
    let mut i: usize = 0;
    while i < 31
        invariant
            i <= 31,
            names == known@.map_values(|s: &str| s@),
            names == text_extensions(),
            forall|j: int| 0 <= j < i ==> names[j] != ext@,
        decreases 31 - i,
    {
        if str_eq(known[i], ext) {
            assert(names[i as int] == ext@);
            return true;
        }
        i = i + 1;
    }
    assert(!text_extensions().contains(ext@)) by {
        if text_extensions().contains(ext@) {
            let j = choose|j: int| 0 <= j < names.len() && names[j] == ext@;
            assert(j < 31);
        }
    }
    false
}

/// The text of a file as it goes into the context: whole when it has at most
/// `MAX_CONTEXT_FILE_BYTES` bytes, otherwise a note of its size followed by
/// its first `MAX_CONTEXT_FILE_BYTES` bytes.
pub open spec fn context_text(content: Seq<char>) -> Seq<char> {
    let bytes = encode_utf8(content);
    if bytes.len() > MAX_CONTEXT_FILE_BYTES {
        "[File too large: "@ + decimal(bytes.len()) + " bytes, truncated]\n"@ + decode_utf8(
            bytes.subrange(0, MAX_CONTEXT_FILE_BYTES as int),
        )
    } else {
        content
    }
}

/// The text cannot be cut at `MAX_CONTEXT_FILE_BYTES` bytes: it is longer
/// and that offset falls inside a character.
pub open spec fn cut_splits_char(content: Seq<char>) -> bool {
    encode_utf8(content).len() > MAX_CONTEXT_FILE_BYTES && !is_char_boundary(
        encode_utf8(content),
        MAX_CONTEXT_FILE_BYTES as int,
    )
}

/// The text of a file as it goes into the context.
pub fn context_file_text(content: &str) -> (r: String)
    requires
        !cut_splits_char(content@),
        encode_utf8(content@).len() <= usize::MAX,
    ensures
        r@ == context_text(content@),
{
    let len = content.len();
    if len > MAX_CONTEXT_FILE_BYTES {
        let (head, _tail) = content.split_at(MAX_CONTEXT_FILE_BYTES);
        proof {
            encode_utf8_decode_utf8(head@);
        }
        let mut r = owned("[File too large: ");
        push_decimal(&mut r, len as u128);
        push_str(&mut r, " bytes, truncated]\n");
        push_str(&mut r, head);
        r
    } else {
        owned(content)
    }
}

/// The files read for the chat context, each path once.
pub struct ContextFiles {
    files: Vec<(String, String)>,
}

/// Sets the text of `path`: an existing entry takes the new text in place,
/// a new path goes last.
pub open spec fn files_insert(files: Seq<(Seq<char>, Seq<char>)>, path: Seq<char>, text: Seq<char>) -> Seq<
    (Seq<char>, Seq<char>),
> {
    match first_file(files, path) {
        Some(i) => files.update(i, (path, text)),
        None => files.push((path, text)),
    }
}

/// The position of the first entry for `path`.
pub open spec fn first_file(files: Seq<(Seq<char>, Seq<char>)>, path: Seq<char>) -> Option<int> {
    if exists|i: int| 0 <= i < files.len() && files[i].0 == path {
        Some(
            choose|i: int|
                0 <= i < files.len() && files[i].0 == path && forall|j: int|
                    0 <= j < i ==> files[j].0 != path,
        )
    } else {
        None
    }
}

pub proof fn lemma_first_file_at(files: Seq<(Seq<char>, Seq<char>)>, path: Seq<char>, i: int)
    requires
        0 <= i < files.len(),
        files[i].0 == path,
        forall|j: int| 0 <= j < i ==> files[j].0 != path,
    ensures
        first_file(files, path) == Some(i),
{
    let k = choose|k: int|
        0 <= k < files.len() && files[k].0 == path && forall|j: int| 0 <= j < k ==> files[j].0 != path;
    if k < i {
        assert(files[k].0 != path);
    } else if k > i {
        assert(files[i].0 != path);
    }
}

/// No two entries share a path.
pub open spec fn files_unique(files: Seq<(Seq<char>, Seq<char>)>) -> bool {
    forall|i: int, j: int| 0 <= i < j < files.len() ==> files[i].0 != files[j].0
}

/// The section of the context for one file.
pub open spec fn file_section(path: Seq<char>, text: Seq<char>) -> Seq<char> {
    "### "@ + path + "\n```\n"@ + text + "\n```\n\n"@
}

/// The sections of the files, in order.
pub open spec fn sections(files: Seq<(Seq<char>, Seq<char>)>) -> Seq<char>
    decreases files.len(),
{
    if files.len() == 0 {
        Seq::empty()
    } else {
        sections(files.drop_last()) + file_section(files.last().0, files.last().1)
    }
}

/// The context for the chat: nothing when no file was read, otherwise a
/// heading, a line of introduction and a section per file.
pub open spec fn context_of(files: Seq<(Seq<char>, Seq<char>)>) -> Seq<char> {
    if files.len() == 0 {
        Seq::empty()
    } else {
        "## Workspace Context\n\n"@ + "The following files are available in the workspace:\n\n"@
            + sections(files)
    }
}

/// The entries by path and text.
pub open spec fn entry_views(files: Seq<(String, String)>) -> Seq<(Seq<char>, Seq<char>)> {
    files.map_values(|f: (String, String)| (f.0@, f.1@))
}

impl ContextFiles {
    /// No two entries share a path.
    #[verifier::type_invariant]
    spec fn paths_distinct(self) -> bool {
        files_unique(entry_views(self.files@))
    }

    /// The files by path and text, in the order they were first read.
    pub closed spec fn files_view(&self) -> Seq<(Seq<char>, Seq<char>)> {
        entry_views(self.files@)
    }

    /// No file read yet.
    pub fn new() -> (r: ContextFiles)
        ensures
            r.files_view() == Seq::<(Seq<char>, Seq<char>)>::empty(),
            files_unique(r.files_view()),
    {
        let files: Vec<(String, String)> = Vec::new();
        assert(entry_views(files@) =~= Seq::<(Seq<char>, Seq<char>)>::empty());
        ContextFiles { files }
    }

    /// The position of the entry for `path`.
    fn position(&self, path: &str) -> (r: Option<usize>)
        ensures
            match r {
                Some(i) => i < self.files_view().len() && first_file(self.files_view(), path@) == Some(
                    i as int,
                ),
                None => first_file(self.files_view(), path@) is None,
            },
    {
        let ghost fv = self.files_view();
        let mut i: usize = 0;
        while i < self.files.len()
            invariant
                fv == entry_views(self.files@),
                fv.len() == self.files@.len(),
                i <= self.files.len(),
                forall|j: int| 0 <= j < i ==> fv[j].0 != path@,
            decreases self.files.len() - i,
        {
            if str_eq(self.files[i].0.as_str(), path) {
                proof {
                    lemma_first_file_at(fv, path@, i as int);
                }
                return Some(i);
            }
            i = i + 1;
        }
        None
    }

    /// Records the text of the file at `path`, cut down as `context_text` says.
    pub fn add(&mut self, path: String, content: &str)
        requires
            !cut_splits_char(content@),
            encode_utf8(content@).len() <= usize::MAX,
        ensures
            final(self).files_view() == files_insert(old(self).files_view(), path@, context_text(content@)),
            files_unique(final(self).files_view()),
    {
        proof {
            use_type_invariant(&*self);
        }
        let text = context_file_text(content);
        let ghost fv = self.files_view();
        let ghost pv = path@;
        let ghost tv = text@;
        let pos = self.position(path.as_str());
        let mut files: Vec<(String, String)> = Vec::new();
        std::mem::swap(&mut files, &mut self.files);
        match pos {
            Some(i) => {
                files.set(i, (path, text));
                proof {
                    assert(entry_views(files@) =~= fv.update(i as int, (pv, tv)));
                    let nv = fv.update(i as int, (pv, tv));
                    assert forall|a: int, b: int| 0 <= a < b < nv.len() implies (#[trigger] nv[a]).0
                        != (#[trigger] nv[b]).0 by {
                        assert(fv[a].0 != fv[b].0);
                        let k = choose|k: int|
                            0 <= k < fv.len() && fv[k].0 == pv && forall|j: int|
                                0 <= j < k ==> fv[j].0 != pv;
                        assert(k == i);
                    }
                }
            },
            None => {
                files.push((path, text));
                proof {
                    assert(!(exists|k: int| 0 <= k < fv.len() && fv[k].0 == pv));
                    assert(entry_views(files@) =~= fv.push((pv, tv)));
                    let nv = fv.push((pv, tv));
                    assert forall|a: int, b: int| 0 <= a < b < nv.len() implies (#[trigger] nv[a]).0 != (
                    #[trigger] nv[b]).0 by {
                        if b == fv.len() {
                            assert(fv[a].0 != pv);
                        } else {
                            assert(fv[a].0 != fv[b].0);
                        }
                    }
                }
            },
        }
        self.files = files;
    }

    /// The context text for the chat.
    pub fn render(&self) -> (r: String)
        ensures
            r@ == context_of(self.files_view()),
    {
        let ghost fv = self.files_view();
        if self.files.len() == 0 {
            return String::new();
        }
        let mut r = owned("## Workspace Context\n\n");
        push_str(&mut r, "The following files are available in the workspace:\n\n");
        let ghost head = r@;
        let mut i: usize = 0;
        assert(fv.take(0) =~= Seq::<(Seq<char>, Seq<char>)>::empty());
        while i < self.files.len()
            invariant
                fv == entry_views(self.files@),
                fv.len() == self.files@.len(),
                i <= self.files.len(),
                r@ == head + sections(fv.take(i as int)),
            decreases self.files.len() - i,
        {
            let (p, t) = (&self.files[i].0, &self.files[i].1);
            push_str(&mut r, "### ");
            push_str(&mut r, p.as_str());
            push_str(&mut r, "\n```\n");
            push_str(&mut r, t.as_str());
            push_str(&mut r, "\n```\n\n");
            proof {
                assert(fv.take(i + 1).drop_last() =~= fv.take(i as int));
                assert(fv.take(i + 1).last() == (p@, t@));
                assert(r@ =~= head + sections(fv.take(i + 1)));
            }
            i = i + 1;
        }
        assert(fv.take(self.files.len() as int) =~= fv);
        r
    }
}

/// At most how many paths the workspace search returns.
pub const SEARCH_RESULT_LIMIT: usize = 20;

/// The paths with each run of equal neighbours cut to one.
pub open spec fn dedup_runs(s: Seq<Seq<char>>) -> Seq<Seq<char>>
    decreases s.len(),
{
    if s.len() == 0 {
        Seq::empty()
    } else {
        let rest = dedup_runs(s.drop_last());
        if s.len() >= 2 && s[s.len() - 2] == s.last() {
            rest
        } else {
            rest.push(s.last())
        }
    }
}

/// The answer of a workspace search: the matching paths without repeated
/// neighbours, at most `SEARCH_RESULT_LIMIT` of them.
pub open spec fn search_result(found: Seq<Seq<char>>) -> Seq<Seq<char>> {
    let d = dedup_runs(found);
    if d.len() > SEARCH_RESULT_LIMIT {
        d.take(SEARCH_RESULT_LIMIT as int)
    } else {
        d
    }
}

/// Cutting runs keeps the last path and leaves no equal neighbours.
pub proof fn lemma_dedup_runs(s: Seq<Seq<char>>)
    ensures
        dedup_runs(s).len() <= s.len(),
        s.len() > 0 ==> dedup_runs(s).len() > 0 && dedup_runs(s).last() == s.last(),
        forall|i: int| 0 <= i < dedup_runs(s).len() - 1 ==> #[trigger] dedup_runs(s)[i] != dedup_runs(s)[i + 1],
        forall|p: Seq<char>| #[trigger] dedup_runs(s).contains(p) ==> s.contains(p),
        forall|p: Seq<char>| #[trigger] s.contains(p) ==> dedup_runs(s).contains(p),
    decreases s.len(),
{
    if s.len() > 0 {
        let init = s.drop_last();
        lemma_dedup_runs(init);
        let d = dedup_runs(init);
        let ds = dedup_runs(s);
        assert forall|p: Seq<char>| #[trigger] s.contains(p) implies ds.contains(p) by {
            assert(ds[ds.len() - 1] == s.last());
            if p != s.last() {
                let k = choose|k: int| 0 <= k < s.len() && s[k] == p;
                assert(k < s.len() - 1);
                assert(init[k] == p);
                assert(init.contains(p));
                let m = choose|m: int| 0 <= m < d.len() && d[m] == p;
                assert(ds[m] == p);
            }
        }
        assert forall|p: Seq<char>| #[trigger] dedup_runs(s).contains(p) implies s.contains(p) by {
            if d.contains(p) {
                let k = choose|k: int| 0 <= k < init.len() && init[k] == p;
                assert(s[k] == p);
            } else {
                assert(s[s.len() - 1] == p);
            }
        }
        if s.len() >= 2 && s[s.len() - 2] == s.last() {
            assert(init.last() == s[s.len() - 2]);
        }
    }
}

/// Paths without equal neighbours are kept as they are: only a path right
/// after itself is dropped.
pub proof fn lemma_dedup_keeps_distinct_neighbours(s: Seq<Seq<char>>)
    requires
        forall|i: int| 0 <= i < s.len() - 1 ==> #[trigger] s[i] != s[i + 1],
    ensures
        dedup_runs(s) == s,
    decreases s.len(),
{
    if s.len() > 0 {
        let init = s.drop_last();
        assert forall|i: int| 0 <= i < init.len() - 1 implies #[trigger] init[i] != init[i + 1] by {
            assert(s[i] != s[i + 1]);
        }
        lemma_dedup_keeps_distinct_neighbours(init);
        if s.len() >= 2 {
            assert(s[s.len() - 2] != s[s.len() - 1]);
        }
        assert(init.push(s.last()) =~= s);
    }
}

/// A path found again right after itself adds nothing; any other path is
/// added at the end.
pub proof fn lemma_dedup_push(s: Seq<Seq<char>>, p: Seq<char>)
    ensures
        s.len() > 0 && s.last() == p ==> dedup_runs(s.push(p)) == dedup_runs(s),
        !(s.len() > 0 && s.last() == p) ==> dedup_runs(s.push(p)) == dedup_runs(s).push(p),
{
    assert(s.push(p).drop_last() =~= s);
    if s.len() > 0 {
        assert(s.push(p)[s.len() - 1] == s.last());
    }
}

/// The answer of a search has at most `SEARCH_RESULT_LIMIT` paths, all of
/// them found, and no path right after itself.
pub proof fn lemma_search_result(found: Seq<Seq<char>>)
    ensures
        search_result(found).len() <= SEARCH_RESULT_LIMIT,
        forall|i: int|
            0 <= i < search_result(found).len() - 1 ==> #[trigger] search_result(found)[i] != search_result(
                found,
            )[i + 1],
        forall|p: Seq<char>| #[trigger] search_result(found).contains(p) ==> found.contains(p),
        search_result(found) == dedup_runs(found).take(search_result(found).len() as int),
        search_result(found).len() == if dedup_runs(found).len() < SEARCH_RESULT_LIMIT {
            dedup_runs(found).len()
        } else {
            SEARCH_RESULT_LIMIT as nat
        },
        found.len() > 0 ==> search_result(found).len() > 0,
        dedup_runs(found).len() <= SEARCH_RESULT_LIMIT ==> forall|p: Seq<char>|
            #[trigger] found.contains(p) ==> search_result(found).contains(p),
{
    lemma_dedup_runs(found);
    let d = dedup_runs(found);
    let r = search_result(found);
    assert(r =~= d.take(r.len() as int));
    assert forall|p: Seq<char>| #[trigger] r.contains(p) implies found.contains(p) by {
        let k = choose|k: int| 0 <= k < r.len() && r[k] == p;
        assert(d[k] == p);
        assert(d.contains(p));
    }
    assert forall|i: int| 0 <= i < r.len() - 1 implies #[trigger] r[i] != r[i + 1] by {
        assert(d[i] != d[i + 1]);
    }
}

/// The answer of a workspace search, from the matching paths in walk order.
pub fn finish_search(found: Vec<String>) -> (r: Vec<String>)
    ensures
        r@.map_values(|p: String| p@) == search_result(found@.map_values(|p: String| p@)),
{
    let ghost fv = found@.map_values(|p: String| p@);
    let mut r: Vec<String> = Vec::new();
    let mut i: usize = 0;
    while i < found.len()
        invariant
            fv == found@.map_values(|p: String| p@),
            i <= found.len(),
            r@.map_values(|p: String| p@) == dedup_runs(fv.take(i as int)),
        decreases found.len() - i,
    {
        proof {
            assert(fv.take(i + 1).drop_last() =~= fv.take(i as int));
        }
        let repeat = i > 0 && str_eq(found[i - 1].as_str(), found[i].as_str());
        if !repeat {
            let ghost before = r@;
            r.push(found[i].clone());
            assert(r@.map_values(|p: String| p@) =~= before.map_values(|p: String| p@).push(found[i as int]@));
        }
        i = i + 1;
    }
    assert(fv.take(found.len() as int) =~= fv);
    if r.len() > SEARCH_RESULT_LIMIT {
        let ghost before = r@;
        r.truncate(SEARCH_RESULT_LIMIT);
        assert(r@.map_values(|p: String| p@) =~= before.map_values(|p: String| p@).take(
            SEARCH_RESULT_LIMIT as int,
        ));
    }
    r
}

} // verus!

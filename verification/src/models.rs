use vstd::prelude::*;

verus! {

/// A model that the local Ollama server offers.
#[derive(Debug, Clone)]
pub struct OllamaModel {
    pub name: String,
    pub model: String,
    pub size: u64,
    pub parameter_size: String,
    pub format: String,
    pub family: String,
    pub families: Option<Vec<String>>,
    pub quantization_level: String,
}

/// A folder of the workspace as the interface shows it.
#[derive(Debug, Clone)]
pub struct FolderInfo {
    pub path: String,
    pub name: String,
    pub file_count: u32,
    pub included: bool,
}

/// One entry of a folder listing.
#[derive(Debug, Clone)]
pub struct WorkspaceFile {
    pub path: String,
    pub name: String,
    pub size: u64,
    pub is_dir: bool,
    pub extension: String,
}

/// A tool of the registry as the interface shows it.
#[derive(Debug, Clone)]
pub struct ToolStatus {
    pub name: String,
    pub display_name: String,
    pub description: String,
    pub enabled: bool,
    pub available: bool,
}

/// An independent copy of a list of texts.
pub fn copy_strings(v: &Vec<String>) -> (r: Vec<String>)
    ensures
        r@ == v@,
{
    let mut r: Vec<String> = Vec::new();
    let mut i: usize = 0;
    while i < v.len()
        invariant
            i <= v.len(),
            r@ == v@.subrange(0, i as int),
        decreases v.len() - i,
    {
        r.push(v[i].clone());
        assert(r@ =~= v@.subrange(0, i + 1));
        i = i + 1;
    }
    assert(v@.subrange(0, v.len() as int) =~= v@);
    r
}

/// An independent copy of an optional list of texts.
pub fn copy_optional_strings(v: &Option<Vec<String>>) -> (r: Option<Vec<String>>)
    ensures
        match v {
            Some(x) => r is Some && r->0@ == x@,
            None => r is None,
        },
{
    match v {
        Some(x) => Some(copy_strings(x)),
        None => None,
    }
}

impl WorkspaceFile {
    /// The listing entry for a walked path: a missing file name or extension
    /// is written as the empty text.
    pub fn from_entry(
        path: String,
        name: Option<String>,
        size: u64,
        is_dir: bool,
        extension: Option<String>,
    ) -> (r: WorkspaceFile)
        ensures
            r.path == path,
            r.size == size,
            r.is_dir == is_dir,
            r.name@ == match name {
                Some(n) => n@,
                None => Seq::<char>::empty(),
            },
            r.extension@ == match extension {
                Some(e) => e@,
                None => Seq::<char>::empty(),
            },
    {
        let name = match name {
            Some(n) => n,
            None => String::new(),
        };
        let extension = match extension {
            Some(e) => e,
            None => String::new(),
        };
        WorkspaceFile { path, name, size, is_dir, extension }
    }
}

} // verus!

use vstd::prelude::*;
use vstd::utf8::encode_utf8;
use crate::text::{
    ascii_lower, contains_str, contains_text, decimal, is_ascii_text, joined, lowercase, owned, push_decimal, push_signed_decimal,
    push_str, signed_decimal, to_lowercase,
};

verus! {

/// The answer of `read_file`: the contents in a fenced block, or the error.
pub open spec fn read_file_text(path: Seq<char>, outcome: Result<Seq<char>, Seq<char>>) -> Seq<char> {
    match outcome {
        Ok(c) => "Contents of "@ + path + ":\n```\n"@ + c + "\n```"@,
        Err(e) => "Error reading "@ + path + ": "@ + e,
    }
}

/// The answer of `read_file` once the file was read (`Ok` with its text) or
/// the read failed (`Err` with the error's message).
pub fn read_file_report(path: &str, outcome: &Result<String, String>) -> (r: String)
    ensures
        r@ == read_file_text(
            path@,
            match outcome {
                Ok(c) => Ok(c@),
                Err(e) => Err(e@),
            },
        ),
{
    match outcome {
        Ok(c) => {
            let mut r = owned("Contents of ");
            push_str(&mut r, path);
            push_str(&mut r, ":\n```\n");
            push_str(&mut r, c.as_str());
            push_str(&mut r, "\n```");
            r
        },
        Err(e) => {
            let mut r = owned("Error reading ");
            push_str(&mut r, path);
            push_str(&mut r, ": ");
            push_str(&mut r, e.as_str());
            r
        },
    }
}

/// The answer of `write_file`: how many bytes went to which file, or the error.
pub open spec fn write_file_text(path: Seq<char>, content: Seq<char>, outcome: Result<(), Seq<char>>) -> Seq<
    char,
> {
    match outcome {
        Ok(_) => "Wrote "@ + decimal(encode_utf8(content).len()) + " bytes to "@ + path,
        Err(e) => "Error writing "@ + path + ": "@ + e,
    }
}

/// The answer of `write_file` once the write succeeded or failed; the count
/// is of the UTF-8 bytes of `content`.
pub fn write_file_report(path: &str, content: &str, outcome: &Result<(), String>) -> (r: String)
    requires
        encode_utf8(content@).len() <= usize::MAX,
    ensures
        r@ == write_file_text(
            path@,
            content@,
            match outcome {
                Ok(_) => Ok(()),
                Err(e) => Err(e@),
            },
        ),
{
    match outcome {
        Ok(_) => {
            let mut r = owned("Wrote ");
            push_decimal(&mut r, content.len() as u128);
            push_str(&mut r, " bytes to ");
            push_str(&mut r, path);
            r
        },
        Err(e) => {
            let mut r = owned("Error writing ");
            push_str(&mut r, path);
            push_str(&mut r, ": ");
            push_str(&mut r, e.as_str());
            r
        },
    }
}

/// What a directory entry is.
#[derive(Clone, Copy, Debug, PartialEq, Eq, Structural)]
pub enum EntryKind {
    Dir,
    File,
    Unknown,
}

/// One entry of a directory: its name and what it is.
#[derive(Debug)]
pub struct DirEntryInfo {
    pub name: String,
    pub kind: EntryKind,
}

/// The mark that a listing puts before an entry.
pub open spec fn kind_mark(k: EntryKind) -> Seq<char> {
    match k {
        EntryKind::Dir => "[DIR]"@,
        EntryKind::File => "[FILE]"@,
        EntryKind::Unknown => "[?]"@,
    }
}

/// The lines of a listing: a title, then one line per entry.
pub open spec fn listing_lines(path: Seq<char>, entries: Seq<DirEntryInfo>) -> Seq<Seq<char>> {
    seq!["Directory listing for "@ + path + ":"@] + entries.map_values(
        |e: DirEntryInfo| kind_mark(e.kind) + " "@ + e.name@,
    )
}

/// The answer of `list_directory`.
pub open spec fn list_directory_text(path: Seq<char>, listing: Option<Seq<DirEntryInfo>>) -> Seq<char> {
    match listing {
        Some(entries) => joined(listing_lines(path, entries), "\n"@),
        None => "Error: could not list directory "@ + path,
    }
}

/// The answer of `list_directory` given the entries that could be read, or
/// `None` when the directory could not be opened.
pub fn list_directory_report(path: &str, listing: &Option<Vec<DirEntryInfo>>) -> (r: String)
    ensures
        r@ == list_directory_text(
            path@,
            match listing {
                Some(v) => Some(v@),
                None => None,
            },
        ),
{
    match listing {
        None => {
            let mut r = owned("Error: could not list directory ");
            push_str(&mut r, path);
            r
        },
        Some(entries) => {
            let mut title = owned("Directory listing for ");
            push_str(&mut title, path);
            push_str(&mut title, ":");
            let mut out = title;
            let ghost lines = listing_lines(path@, entries@);
            assert(lines.take(1) =~= seq![lines[0]]);
            let mut i: usize = 0;
            while i < entries.len()
                invariant
                    i <= entries.len(),
                    lines == listing_lines(path@, entries@),
                    lines.len() == entries.len() + 1,
                    out@ == joined(lines.take(i + 1), "\n"@),
                decreases entries.len() - i,
            {
                let e = &entries[i];
                push_str(&mut out, "\n");
                match e.kind {
                    EntryKind::Dir => push_str(&mut out, "[DIR]"),
                    EntryKind::File => push_str(&mut out, "[FILE]"),
                    EntryKind::Unknown => push_str(&mut out, "[?]"),
                }
                push_str(&mut out, " ");
                push_str(&mut out, e.name.as_str());
                proof {
                    assert(lines.take(i + 2).drop_last() =~= lines.take(i + 1));
                    assert(lines[i + 1] == kind_mark(e.kind) + " "@ + e.name@);
                    assert(out@ =~= joined(lines.take(i + 1), "\n"@) + "\n"@ + lines[i + 1]);
                }
                i = i + 1;
            }
            assert(lines.take(entries.len() + 1) =~= lines);
            out
        },
    }
}

/// `query` occurs in `content`, letter case aside.
pub open spec fn matches_query(content: Seq<char>, query: Seq<char>) -> bool {
    contains_text(lowercase(content), lowercase(query))
}

/// Whether `query` occurs in `content`, both taken in lower case.
pub fn text_matches(content: &str, query: &str) -> (r: bool)
    ensures
        r == matches_query(content@, query@),
        is_ascii_text(content@) && is_ascii_text(query@) ==> r == contains_text(
            content@.map_values(|c: char| ascii_lower(c)),
            query@.map_values(|c: char| ascii_lower(c)),
        ),
{
    let c = to_lowercase(content);
    let q = to_lowercase(query);
    contains_str(c.as_str(), q.as_str())
}

/// How many matches the search tool reports at most.
pub const SEARCH_TOOL_LIMIT: usize = 10;

/// The files that the search tool has found so far; it stops at
/// `SEARCH_TOOL_LIMIT` of them.
pub struct SearchHits {
    paths: Vec<String>,
}

impl SearchHits {
    /// The paths found, in order.
    pub closed spec fn found(&self) -> Seq<Seq<char>> {
        self.paths@.map_values(|p: String| p@)
    }

    /// No file found yet.
    pub fn new() -> (r: SearchHits)
        ensures
            r.found() == Seq::<Seq<char>>::empty(),
    {
        let r = SearchHits { paths: Vec::new() };
        assert(r.found() =~= Seq::<Seq<char>>::empty());
        r
    }

    /// Whether the search has found enough.
    pub fn is_full(&self) -> (r: bool)
        ensures
            r == (self.found().len() >= SEARCH_TOOL_LIMIT),
    {
        self.paths.len() >= SEARCH_TOOL_LIMIT
    }

    /// Looks at one readable file: records its path when its text matches the
    /// query, and tells whether the search is now full.
    pub fn offer(&mut self, path: String, content: &str, query: &str) -> (full: bool)
        requires
            old(self).found().len() < SEARCH_TOOL_LIMIT,
        ensures
            final(self).found() == if matches_query(content@, query@) {
                old(self).found().push(path@)
            } else {
                old(self).found()
            },
            full == (final(self).found().len() >= SEARCH_TOOL_LIMIT),
            final(self).found().len() <= SEARCH_TOOL_LIMIT,
    {
        if text_matches(content, query) {
            let ghost before = self.paths@;
            self.paths.push(path);
            assert(self.paths@.map_values(|p: String| p@) =~= before.map_values(|p: String| p@).push(
                path@,
            ));
        }
        self.paths.len() >= SEARCH_TOOL_LIMIT
    }

    /// The paths found, in order.
    pub fn paths(&self) -> (r: &Vec<String>)
        ensures
            r@.map_values(|p: String| p@) == self.found(),
    {
        &self.paths
    }
}

/// The answer of `search_files` for the paths found.
pub open spec fn search_text(query: Seq<char>, path: Seq<char>, found: Seq<Seq<char>>) -> Seq<char> {
    if found.len() == 0 {
        "No files found matching '"@ + query + "' in "@ + path
    } else {
        "Found "@ + decimal(found.len()) + " matches:\n"@ + joined(found, "\n"@)
    }
}

/// The answer of `search_files` for the paths found.
pub fn search_report(query: &str, path: &str, found: &Vec<String>) -> (r: String)
    ensures
        r@ == search_text(query@, path@, found@.map_values(|p: String| p@)),
{
    if found.len() == 0 {
        let mut r = owned("No files found matching '");
        push_str(&mut r, query);
        push_str(&mut r, "' in ");
        push_str(&mut r, path);
        r
    } else {
        let mut r = owned("Found ");
        push_decimal(&mut r, found.len() as u128);
        push_str(&mut r, " matches:\n");
        let body = crate::text::join(found, "\n");
        push_str(&mut r, body.as_str());
        r
    }
}

/// How deep the search tool walks below its directory.
pub const SEARCH_TOOL_DEPTH: usize = 5;

/// The program and arguments that run a shell command: `cmd /C` on Windows,
/// `sh -c` elsewhere.
pub fn shell_invocation(on_windows: bool, command: &str) -> (r: (String, Vec<String>))
    ensures
        r.0@ == (if on_windows {
            "cmd"@
        } else {
            "sh"@
        }),
        r.1@.map_values(|a: String| a@) == seq![
            if on_windows {
                "/C"@
            } else {
                "-c"@
            },
            command@,
        ],
{
    let (program, flag) = if on_windows {
        (owned("cmd"), owned("/C"))
    } else {
        (owned("sh"), owned("-c"))
    };
    let mut args: Vec<String> = Vec::new();
    args.push(flag);
    args.push(owned(command));
    assert(args@.map_values(|a: String| a@) =~= seq![args@[0]@, command@]);
    (program, args)
}

/// The answer of `shell_command`: the output, with the error output after it when
/// there is some, or the error that kept the command from running.
pub open spec fn shell_text(outcome: Result<(Seq<char>, Seq<char>), Seq<char>>) -> Seq<char> {
    match outcome {
        Ok((out, err)) => if err.len() > 0 {
            "stdout:\n"@ + out + "\nstderr:\n"@ + err
        } else {
            out
        },
        Err(e) => "Error executing command: "@ + e,
    }
}

/// The answer of `shell_command` given the command's standard output and error
/// output, or the error that kept it from running.
pub fn shell_report(outcome: &Result<(String, String), String>) -> (r: String)
    ensures
        r@ == shell_text(
            match outcome {
                Ok((o, e)) => Ok((o@, e@)),
                Err(e) => Err(e@),
            },
        ),
{
    match outcome {
        Ok((out, err)) => {
            if err.as_str().is_empty() {
                out.clone()
            } else {
                let mut r = owned("stdout:\n");
                push_str(&mut r, out.as_str());
                push_str(&mut r, "\nstderr:\n");
                push_str(&mut r, err.as_str());
                r
            }
        },
        Err(e) => {
            let mut r = owned("Error executing command: ");
            push_str(&mut r, e.as_str());
            r
        },
    }
}

/// The answer of `get_env`: the variable's value, or a note that it is not set.
pub fn env_report(value: Option<String>) -> (r: String)
    ensures
        r@ == match value {
            Some(v) => v@,
            None => "(not set)"@,
        },
{
    match value {
        Some(v) => v,
        None => owned("(not set)"),
    }
}

/// The answer of `computer_screenshot` once the capture was saved or failed.
pub fn screenshot_report(outcome: &Result<String, String>) -> (r: String)
    ensures
        r@ == match outcome {
            Ok(p) => "Screenshot saved to: "@ + p@,
            Err(e) => "Screenshot failed: "@ + e@,
        },
{
    match outcome {
        Ok(p) => {
            let mut r = owned("Screenshot saved to: ");
            push_str(&mut r, p.as_str());
            r
        },
        Err(e) => {
            let mut r = owned("Screenshot failed: ");
            push_str(&mut r, e.as_str());
            r
        },
    }
}

/// The answer of `computer_click` once the click was sent or failed.
pub fn click_report(button: &str, x: i32, y: i32, outcome: &Result<(), String>) -> (r: String)
    ensures
        r@ == match outcome {
            Ok(_) => "Clicked "@ + button@ + " button at ("@ + signed_decimal(x as int) + ", "@
                + signed_decimal(y as int) + ")"@,
            Err(e) => "Click failed: "@ + e@,
        },
{
    match outcome {
        Ok(_) => {
            let mut r = owned("Clicked ");
            push_str(&mut r, button);
            push_str(&mut r, " button at (");
            push_signed_decimal(&mut r, x as i64);
            push_str(&mut r, ", ");
            push_signed_decimal(&mut r, y as i64);
            push_str(&mut r, ")");
            r
        },
        Err(e) => {
            let mut r = owned("Click failed: ");
            push_str(&mut r, e.as_str());
            r
        },
    }
}

/// The answer of `computer_type` once the text was typed or typing failed.
pub fn type_report(text: &str, outcome: &Result<(), String>) -> (r: String)
    ensures
        r@ == match outcome {
            Ok(_) => "Typed: "@ + text@,
            Err(e) => "Type failed: "@ + e@,
        },
{
    match outcome {
        Ok(_) => {
            let mut r = owned("Typed: ");
            push_str(&mut r, text);
            r
        },
        Err(e) => {
            let mut r = owned("Type failed: ");
            push_str(&mut r, e.as_str());
            r
        },
    }
}

} // verus!

//! What is known of the files that a decision is about, and the decisions on
//! what has to be made again.
use vstd::prelude::*;

use crate::paths;
use crate::text;

verus! {

/// One file or directory as it was found. `modified` is its time of change,
/// where the system gives one; `contents` is its text, where it could be read.
#[derive(Debug, Clone)]
pub struct FileEntry {
    pub path: String,
    pub is_file: bool,
    pub modified: Option<u64>,
    pub contents: Option<String>,
}

/// What was found; a path without an entry is not there.
#[derive(Debug, Clone)]
pub struct Disk {
    pub entries: Vec<FileEntry>,
}

/// The first entry for `path` among `v`.
pub open spec fn entry_of(v: Seq<FileEntry>, path: Seq<char>) -> Option<FileEntry>
    decreases v.len(),
{
    if v.len() == 0 {
        None
    } else if v[0].path@ == path {
        Some(v[0])
    } else {
        entry_of(v.subrange(1, v.len() as int), path)
    }
}

impl Disk {
    pub open spec fn entry(self, path: Seq<char>) -> Option<FileEntry> {
        entry_of(self.entries@, path)
    }

    pub open spec fn present(self, path: Seq<char>) -> bool {
        self.entry(path) is Some
    }

    pub open spec fn file_at(self, path: Seq<char>) -> bool {
        self.entry(path) matches Some(e) && e.is_file
    }

    pub open spec fn time_of(self, path: Seq<char>) -> Option<u64> {
        match self.entry(path) {
            Some(e) => e.modified,
            None => None,
        }
    }

    pub open spec fn text_of(self, path: Seq<char>) -> Option<Seq<char>> {
        match self.entry(path) {
            Some(e) => match e.contents {
                Some(c) => Some(c@),
                None => None,
            },
            None => None,
        }
    }

    /// The entry for `path`.
    pub fn find(&self, path: &str) -> (r: Option<&FileEntry>)
        ensures
            match r {
                Some(e) => self.entry(path@) == Some(*e),
                None => self.entry(path@) is None,
            },
    {
        let mut i: usize = 0;
        proof {
            assert(self.entries@.subrange(0, self.entries@.len() as int) =~= self.entries@);
        }
        while i < self.entries.len()
            invariant
                i <= self.entries.len(),
                entry_of(self.entries@, path@) == entry_of(
                    self.entries@.subrange(i as int, self.entries@.len() as int),
                    path@,
                ),
            decreases self.entries.len() - i,
        {
            if text::same(self.entries[i].path.as_str(), path) {
                return Some(&self.entries[i]);
            }
            proof {
                let rest = self.entries@.subrange(i as int, self.entries@.len() as int);
                assert(rest.subrange(1, rest.len() as int) =~= self.entries@.subrange(
                    i + 1,
                    self.entries@.len() as int,
                ));
            }
            i += 1;
        }
        None
    }

    pub fn is_there(&self, path: &str) -> (r: bool)
        ensures
            r == self.present(path@),
    {
        self.find(path).is_some()
    }

    pub fn is_file(&self, path: &str) -> (r: bool)
        ensures
            r == self.file_at(path@),
    {
        match self.find(path) {
            Some(e) => e.is_file,
            None => false,
        }
    }

    pub fn modified(&self, path: &str) -> (r: Option<u64>)
        ensures
            r == self.time_of(path@),
    {
        match self.find(path) {
            Some(e) => e.modified,
            None => None,
        }
    }
}

/// A time that is missing, or later than `output`.
pub open spec fn later(dependency: Option<u64>, output: u64) -> bool {
    match dependency {
        Some(d) => d > output,
        None => true,
    }
}

/// A file has to be made again when it is not there, or something that it is
/// made from is not there or was changed after it.
pub open spec fn stale(disk: Disk, output: Seq<char>, deps: Seq<Seq<char>>) -> bool {
    match disk.time_of(output) {
        None => true,
        Some(o) => exists|i: int| 0 <= i < deps.len() && later(disk.time_of(#[trigger] deps[i]), o),
    }
}

pub fn generated_file_needs_rebuild(disk: &Disk, output: &str, dependencies: &Vec<String>) -> (r:
    bool)
    ensures
        r == stale(*disk, output@, text::texts(dependencies@)),
{
    let made: u64 = match disk.modified(output) {
        Some(t) => t,
        None => {
            return true;
        },
    };
    let ghost deps = text::texts(dependencies@);
    let mut i: usize = 0;
    while i < dependencies.len()
        invariant
            i <= dependencies.len(),
            deps == text::texts(dependencies@),
            disk.time_of(output@) == Some(made),
            forall|k: int| 0 <= k < i ==> !later(disk.time_of(#[trigger] deps[k]), made),
        decreases dependencies.len() - i,
    {
        proof {
            assert(deps[i as int] == dependencies@[i as int]@);
        }
        let newer: bool = match disk.modified(dependencies[i].as_str()) {
            Some(t) => t > made,
            None => true,
        };
        if newer {
            return true;
        }
        i += 1;
    }
    false
}

pub fn generated_outputs_need_rebuild(
    disk: &Disk,
    outputs: &Vec<String>,
    dependencies: &Vec<String>,
) -> (r: bool)
    ensures
        r == exists|i: int|
            0 <= i < outputs@.len() && stale(
                *disk,
                #[trigger] text::texts(outputs@)[i],
                text::texts(dependencies@),
            ),
{
    let mut i: usize = 0;
    while i < outputs.len()
        invariant
            i <= outputs.len(),
            forall|k: int|
                0 <= k < i ==> !stale(
                    *disk,
                    #[trigger] text::texts(outputs@)[k],
                    text::texts(dependencies@),
                ),
        decreases outputs.len() - i,
    {
        proof {
            assert(text::texts(outputs@)[i as int] == outputs@[i as int]@);
        }
        if generated_file_needs_rebuild(disk, outputs[i].as_str(), dependencies) {
            return true;
        }
        i += 1;
    }
    false
}

/// Where the compiled form of a Lisp source stands.
pub open spec fn elc(source: Seq<char>) -> Seq<char> {
    paths::with_extension_of(source, "elc"@)
}

/// A source has to be compiled unless both it and its compiled form are there,
/// and the compiled form is not the older one.
pub open spec fn bytecode_stale(disk: Disk, source: Seq<char>) -> bool {
    match (disk.time_of(source), disk.time_of(elc(source))) {
        (Some(s), Some(e)) => s > e,
        _ => true,
    }
}

pub fn bytecode_needs_rebuild(disk: &Disk, source: &str) -> (r: bool)
    ensures
        r == bytecode_stale(*disk, source@),
{
    let compiled: String = paths::with_extension(source, "elc");
    match (disk.modified(source), disk.modified(compiled.as_str())) {
        (Some(s), Some(e)) => s > e,
        _ => true,
    }
}

pub fn compile_first_needs_rebuild(disk: &Disk, source: &str) -> (r: bool)
    ensures
        r == bytecode_stale(*disk, source@),
{
    bytecode_needs_rebuild(disk, source)
}

/// The compiled form of `dep` was changed after that of `source`.
pub open spec fn compiled_later(disk: Disk, dep: Seq<char>, source: Seq<char>) -> bool {
    match (disk.time_of(elc(dep)), disk.time_of(elc(source))) {
        (Some(d), Some(t)) => d > t,
        _ => false,
    }
}

pub open spec fn bytecode_stale_with(disk: Disk, source: Seq<char>, deps: Seq<Seq<char>>) -> bool {
    ||| bytecode_stale(disk, source)
    ||| exists|i: int|
        0 <= i < deps.len() && (bytecode_stale(disk, #[trigger] deps[i]) || compiled_later(
            disk,
            deps[i],
            source,
        ))
}

pub fn bytecode_needs_rebuild_with_dependencies(
    disk: &Disk,
    source: &str,
    dependencies: &Vec<String>,
) -> (r: bool)
    ensures
        r == bytecode_stale_with(*disk, source@, text::texts(dependencies@)),
{
    if bytecode_needs_rebuild(disk, source) {
        return true;
    }
    let ghost deps = text::texts(dependencies@);
    let compiled: String = paths::with_extension(source, "elc");
    let target: Option<u64> = disk.modified(compiled.as_str());
    let mut i: usize = 0;
    while i < dependencies.len()
        invariant
            i <= dependencies.len(),
            deps == text::texts(dependencies@),
            !bytecode_stale(*disk, source@),
            target == disk.time_of(elc(source@)),
            forall|k: int|
                0 <= k < i ==> !bytecode_stale(*disk, #[trigger] deps[k]) && !compiled_later(
                    *disk,
                    deps[k],
                    source@,
                ),
        decreases dependencies.len() - i,
    {
        proof {
            assert(deps[i as int] == dependencies@[i as int]@);
        }
        let dep: &str = dependencies[i].as_str();
        let dep_elc: String = paths::with_extension(dep, "elc");
        let later_elc: bool = match (disk.modified(dep_elc.as_str()), target) {
            (Some(d), Some(t)) => d > t,
            _ => false,
        };
        if bytecode_needs_rebuild(disk, dep) || later_elc {
            return true;
        }
        i += 1;
    }
    false
}

/// A line that is a comment and says, behind something that is no letter, that
/// the file is not to be compiled.
pub open spec fn marker_at(line: Seq<char>, i: int) -> bool {
    let needle = "no-byte-compile:"@;
    &&& text::occurs_at(line, needle, i)
    &&& i > 0
    &&& !is_letter(line[i - 1])
    &&& text::starts_with(
        text::trimmed_start(line.subrange(i + needle.len(), line.len() as int)),
        "t"@,
    )
}

pub open spec fn is_letter(c: char) -> bool {
    'a' <= c <= 'z' || 'A' <= c <= 'Z'
}

pub open spec fn marker_line(line: Seq<char>) -> bool {
    &&& text::starts_with(line, ";"@)
    &&& exists|i: int| #[trigger] marker_at(line, i)
}

pub open spec fn has_marker(contents: Seq<char>) -> bool {
    exists|i: int|
        0 <= i < text::lines_of(contents).len() && marker_line(
            #[trigger] text::lines_of(contents)[i],
        )
}

/// Two marks cannot overlap: behind the first letter of one comes the rest of it.
proof fn lemma_marks_apart(line: Seq<char>, i: int, j: int)
    requires
        text::occurs_at(line, "no-byte-compile:"@, i),
        text::occurs_at(line, "no-byte-compile:"@, j),
        i < j,
    ensures
        i + "no-byte-compile:"@.len() <= j,
{
    reveal_strlit("no-byte-compile:");
    let needle = "no-byte-compile:"@;
    if j < i + needle.len() {
        let d = j - i;
        let a = line.subrange(i, i + needle.len());
        let b = line.subrange(j, j + needle.len());
        assert(a[d] == line[j]);
        assert(b[0] == line[j]);
        assert(needle[d] == 'n');
        assert(d == 0);
    }
}

/// Whether `line` says that its file is not to be compiled.
pub fn gnu_no_byte_compile_marker_line(line: &str) -> (r: bool)
    ensures
        r == marker_line(line@),
{
    let chars: Vec<char> = text::chars_of(line);
    let all: &[char] = chars.as_slice();
    let needle: Vec<char> = text::chars_of("no-byte-compile:");
    if !text::begins_with(line, ";") {
        return false;
    }
    proof {
        reveal_strlit("no-byte-compile:");
        reveal_strlit("t");
        assert("t"@ =~= seq!['t']);
    }
    let mut from: usize = 0;
    loop
        invariant
            all@ == line@,
            needle@ == "no-byte-compile:"@,
            needle@.len() == 16,
            "t"@ =~= seq!['t'],
            from <= all.len(),
            text::starts_with(line@, ";"@),
            forall|k: int| k < from ==> !#[trigger] marker_at(line@, k),
        decreases all.len() - from,
    {
        match text::find_from(all, needle.as_slice(), from) {
            None => {
                proof {
                    assert forall|k: int| !#[trigger] marker_at(line@, k) by {
                        if k >= from {
                            assert(!text::occurs_at(line@, needle@, k));
                        }
                    }
                }
                return false;
            },
            Some(i) => {
                let rest: &[char] = vstd::slice::slice_subrange(all, i + 16, all.len());
                let tail: &[char] = text::trim_start(rest);
                let separate: bool = i > 0 && !(('a' <= all[i - 1] && all[i - 1] <= 'z') || ('A'
                    <= all[i - 1] && all[i - 1] <= 'Z'));
                let says: bool = tail.len() > 0 && tail[0] == 't';
                proof {
                    if says {
                        assert(tail@.subrange(0, 1) =~= seq!['t']);
                    } else if text::starts_with(tail@, "t"@) {
                        assert(tail@.subrange(0, 1)[0] == tail@[0]);
                    }
                    assert((separate && says) == marker_at(line@, i as int));
                }
                if separate && says {
                    return true;
                }
                proof {
                    assert forall|k: int| k < i + 16 implies !#[trigger] marker_at(line@, k) by {
                        if from <= k < i {
                            assert(!text::occurs_at(line@, needle@, k));
                        } else if i < k && text::occurs_at(line@, needle@, k) {
                            lemma_marks_apart(line@, i as int, k);
                        }
                    }
                }
                from = i + 16;
            },
        }
    }
}

/// Whether a text says that it is not to be compiled.
pub fn text_has_no_byte_compile_marker(contents: &str) -> (r: bool)
    ensures
        r == has_marker(contents@),
{
    let all: Vec<String> = text::lines(contents);
    let mut i: usize = 0;
    while i < all.len()
        invariant
            i <= all.len(),
            text::texts(all@) == text::lines_of(contents@),
            forall|k: int|
                0 <= k < i ==> !marker_line(#[trigger] text::lines_of(contents@)[k]),
        decreases all.len() - i,
    {
        proof {
            assert(text::texts(all@)[i as int] == all@[i as int]@);
        }
        if gnu_no_byte_compile_marker_line(all[i].as_str()) {
            return true;
        }
        i += 1;
    }
    false
}

/// A file that cannot be read has no mark that could be seen.
pub open spec fn marked(disk: Disk, source: Seq<char>) -> bool {
    match disk.text_of(source) {
        Some(t) => has_marker(t),
        None => false,
    }
}

/// Whether the file's text says that it is not to be compiled; `None` where it
/// cannot be read.
pub fn source_has_no_byte_compile_marker(disk: &Disk, source: &str) -> (r: Option<bool>)
    ensures
        r is Some == disk.text_of(source@) is Some,
        r matches Some(b) ==> b == marked(*disk, source@),
{
    match disk.find(source) {
        Some(e) => match &e.contents {
            Some(c) => Some(text_has_no_byte_compile_marker(c.as_str())),
            None => None,
        },
        None => None,
    }
}

/// A source is a candidate when it is compiled already, or does not refuse to be.
pub open spec fn considered(disk: Disk, source: Seq<char>) -> bool {
    disk.file_at(elc(source)) || !marked(disk, source)
}

/// `None` where the source is not compiled yet and cannot be read.
pub fn compile_main_should_consider(disk: &Disk, source: &str) -> (r: Option<bool>)
    ensures
        r is Some == (disk.file_at(elc(source@)) || disk.text_of(source@) is Some),
        r matches Some(b) ==> b == considered(*disk, source@),
{
    let compiled: String = paths::with_extension(source, "elc");
    if disk.is_file(compiled.as_str()) {
        return Some(true);
    }
    match source_has_no_byte_compile_marker(disk, source) {
        Some(b) => Some(!b),
        None => None,
    }
}

pub open spec fn compile_main_stale(disk: Disk, source: Seq<char>) -> bool {
    considered(disk, source) && bytecode_stale(disk, source)
}

pub fn compile_main_needs_rebuild(disk: &Disk, source: &str) -> (r: bool)
    ensures
        r == compile_main_stale(*disk, source@),
{
    let consider: bool = match compile_main_should_consider(disk, source) {
        Some(b) => b,
        None => true,
    };
    consider && bytecode_needs_rebuild(disk, source)
}

/// What `ensure` reports of the first path of `v` that is not there.
pub open spec fn first_missing(disk: Disk, v: Seq<Seq<char>>) -> Option<Seq<char>>
    decreases v.len(),
{
    if v.len() == 0 {
        None
    } else if !disk.present(v[0]) {
        Some(v[0])
    } else {
        first_missing(disk, v.subrange(1, v.len() as int))
    }
}

/// Fails on the first of `required` that is not there.
pub fn ensure_paths_exist(disk: &Disk, required: &Vec<String>) -> (r: Result<(), String>)
    ensures
        match first_missing(*disk, text::texts(required@)) {
            None => r is Ok,
            Some(p) => r matches Err(e) && e@ == "missing required path: "@ + p,
        },
{
    let ghost all = text::texts(required@);
    let mut i: usize = 0;
    proof {
        assert(all.subrange(0, all.len() as int) =~= all);
    }
    while i < required.len()
        invariant
            i <= required.len(),
            all == text::texts(required@),
            first_missing(*disk, all) == first_missing(
                *disk,
                all.subrange(i as int, all.len() as int),
            ),
        decreases required.len() - i,
    {
        proof {
            let rest = all.subrange(i as int, all.len() as int);
            assert(rest[0] == required@[i as int]@);
            assert(rest.subrange(1, rest.len() as int) =~= all.subrange(i + 1, all.len() as int));
        }
        if !disk.is_there(required[i].as_str()) {
            return Err(text::concat("missing required path: ", required[i].as_str()));
        }
        i += 1;
    }
    Ok(())
}

/// The first path of `v` that is no file.
pub open spec fn first_non_file(disk: Disk, v: Seq<Seq<char>>) -> Option<Seq<char>>
    decreases v.len(),
{
    if v.len() == 0 {
        None
    } else if !disk.file_at(v[0]) {
        Some(v[0])
    } else {
        first_non_file(disk, v.subrange(1, v.len() as int))
    }
}

pub fn ensure_generation_input(disk: &Disk, path: &str) -> (r: Result<(), String>)
    ensures
        if disk.file_at(path@) {
            r is Ok
        } else {
            r matches Err(e) && e@ == "missing generated-source input: "@ + path@
        },
{
    if disk.is_file(path) {
        Ok(())
    } else {
        Err(text::concat("missing generated-source input: ", path))
    }
}

/// Fails on the first of `inputs` that is no file.
pub fn ensure_generation_inputs(disk: &Disk, inputs: &Vec<String>) -> (r: Result<(), String>)
    ensures
        match first_non_file(*disk, text::texts(inputs@)) {
            None => r is Ok,
            Some(p) => r matches Err(e) && e@ == "missing generated-source input: "@ + p,
        },
{
    let ghost all = text::texts(inputs@);
    let mut i: usize = 0;
    proof {
        assert(all.subrange(0, all.len() as int) =~= all);
    }
    while i < inputs.len()
        invariant
            i <= inputs.len(),
            all == text::texts(inputs@),
            first_non_file(*disk, all) == first_non_file(
                *disk,
                all.subrange(i as int, all.len() as int),
            ),
        decreases inputs.len() - i,
    {
        proof {
            let rest = all.subrange(i as int, all.len() as int);
            assert(rest[0] == inputs@[i as int]@);
            assert(rest.subrange(1, rest.len() as int) =~= all.subrange(i + 1, all.len() as int));
        }
        match ensure_generation_input(disk, inputs[i].as_str()) {
            Ok(()) => {},
            Err(e) => {
                return Err(e);
            },
        }
        i += 1;
    }
    Ok(())
}

/// What is there of `v`; in a dry run everything counts as there.
pub open spec fn removable(disk: Disk, dry_run: bool, v: Seq<Seq<char>>) -> Seq<Seq<char>> {
    v.filter(|p: Seq<char>| dry_run || disk.present(p))
}

/// The files of `files` that a clean step removes, or would remove in a dry run.
pub fn files_to_remove(disk: &Disk, dry_run: bool, files: &Vec<String>) -> (r: Vec<String>)
    ensures
        text::texts(r@) == removable(*disk, dry_run, text::texts(files@)),
{
    let keep = |s: &str| -> (b: bool)
        ensures
            b == (dry_run || disk.present(s@)),
        { dry_run || disk.is_there(s) };
    paths::kept(files, keep, Ghost(|p: Seq<char>| dry_run || disk.present(p)))
}

} // verus!

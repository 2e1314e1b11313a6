//! `plugins/parse`: checking an uploaded plugin package, a gzip-compressed
//! tar archive, before its files are handed to the plugin loader.

use std::collections::BTreeMap;
use std::io::Read;

use agent_plugins::{McpOutcome, MemSource, Transport};
use flate2::read::GzDecoder;

use vstd::prelude::*;
use vstd::utf8::{decode_utf8, valid_utf8};

use crate::path::{components, join_names, path_components, render_chars, Component, ComponentView};
use crate::command::lossy_text;
use crate::text::{chars_of, concat, string_from_chars};

verus! {

/// The largest compressed archive accepted, in bytes.
pub const MAX_ARCHIVE_BYTES: usize = 16777216;

/// The most bytes the archive's files may hold once decompressed.
pub const MAX_UNCOMPRESSED_BYTES: u64 = 67108864;

/// The most files an archive may hold.
pub const MAX_ENTRIES: usize = 4096;

/// Why a package could not be parsed.
#[derive(Debug, Clone, PartialEq, Eq)]
pub enum PluginError {
    EmptyBody,
    TooLarge,
    InvalidArchive(String),
    /// The parsing task failed.
    Task(String),
}

pub open spec fn plugin_error_status(e: PluginError) -> u16 {
    match e {
        PluginError::EmptyBody | PluginError::InvalidArchive(_) => 400,
        PluginError::TooLarge => 413,
        PluginError::Task(_) => 500,
    }
}

pub open spec fn plugin_error_message(e: PluginError) -> Seq<char> {
    match e {
        PluginError::EmptyBody => "request body is empty; expected a gzip-compressed tar archive"@,
        PluginError::TooLarge => "archive exceeds the 16777216-byte compressed limit"@,
        PluginError::InvalidArchive(m) => "invalid plugin archive: "@ + m@,
        PluginError::Task(_) => "plugin parsing task failed"@,
    }
}

impl PluginError {
    /// The HTTP status: the caller's fault, too large, or the server's.
    pub fn status(&self) -> (res: u16)
        ensures
            res == plugin_error_status(*self),
    {
        match self {
            PluginError::EmptyBody | PluginError::InvalidArchive(_) => 400,
            PluginError::TooLarge => 413,
            PluginError::Task(_) => 500,
        }
    }

    pub fn message(&self) -> (res: String)
        ensures
            res@ == plugin_error_message(*self),
    {
        match self {
            PluginError::EmptyBody => String::from_str("request body is empty; expected a gzip-compressed tar archive"),
            PluginError::TooLarge => String::from_str("archive exceeds the 16777216-byte compressed limit"),
            PluginError::InvalidArchive(m) => concat("invalid plugin archive: ", m),
            PluginError::Task(_) => String::from_str("plugin parsing task failed"),
        }
    }
}

/// An upload is refused when it is empty or over [`MAX_ARCHIVE_BYTES`].
pub fn check_body(len: usize) -> (res: Result<(), PluginError>)
    ensures
        len == 0 ==> res == Err::<(), PluginError>(PluginError::EmptyBody),
        0 < len <= MAX_ARCHIVE_BYTES ==> res is Ok,
        len > MAX_ARCHIVE_BYTES ==> res == Err::<(), PluginError>(PluginError::TooLarge),
{
    if len == 0 {
        return Err(PluginError::EmptyBody);
    }
    if len > MAX_ARCHIVE_BYTES {
        return Err(PluginError::TooLarge);
    }
    Ok(())
}

/// Why an entry's path is refused.
pub enum EntryProblem {
    /// A `..` would leave the plugin root.
    Escapes,
    /// The path starts at the filesystem root.
    Absolute,
}

/// The names of an entry's path, or the first component that refuses it.
pub open spec fn entry_fold(cs: Seq<ComponentView>) -> Result<Seq<Seq<char>>, EntryProblem>
    decreases cs.len(),
{
    if cs.len() == 0 {
        Ok(Seq::empty())
    } else {
        match entry_fold(cs.drop_last()) {
            Err(e) => Err(e),
            Ok(names) => match cs.last() {
                ComponentView::Normal(n) => Ok(names.push(n)),
                ComponentView::CurDir => Ok(names),
                ComponentView::ParentDir => Err(EntryProblem::Escapes),
                ComponentView::RootDir => Err(EntryProblem::Absolute),
            },
        }
    }
}

/// Where an entry lands inside the plugin: its names joined by `/`, nothing
/// when it has none, or an error for a path that leaves the plugin root.
pub open spec fn entry_outcome(path: Seq<char>) -> Result<Option<Seq<char>>, Seq<char>> {
    match entry_fold(components(path)) {
        Err(EntryProblem::Escapes) => Err("archive entry escapes the plugin root: "@ + path),
        Err(EntryProblem::Absolute) => Err("archive entry uses an absolute path: "@ + path),
        Ok(names) => if names.len() == 0 {
            Ok(None)
        } else {
            Ok(Some(join_names(names)))
        },
    }
}

/// The path an archive entry is stored under.
pub fn entry_path(path: &str) -> (res: Result<Option<String>, PluginError>)
    ensures
        match entry_outcome(path@) {
            Err(m) => res matches Err(PluginError::InvalidArchive(msg)) && msg@ == m,
            Ok(None) => res matches Ok(None),
            Ok(Some(p)) => res matches Ok(Some(s)) && s@ == p,
        },
{
    let chars = chars_of(path);
    let comps = path_components(&chars);
    let ghost cs = components(path@);
    let mut names: Vec<Vec<char>> = Vec::new();
    let mut i: usize = 0;
    while i < comps.len()
        invariant
            0 <= i <= comps.len(),
            chars@ == path@,
            cs == components(path@),
            comps@.len() == cs.len(),
            forall|k: int| 0 <= k < comps@.len() ==> #[trigger] comps@[k]@ == cs[k],
            entry_fold(cs.take(i as int)) matches Ok(ns) && ns == names@.map_values(|n: Vec<char>| n@),
        decreases comps.len() - i,
    {
        assert(cs.take(i + 1).drop_last() =~= cs.take(i as int));
        assert(cs.take(i + 1).last() == cs[i as int]);
        let ghost before = names@.map_values(|n: Vec<char>| n@);
        let comp = &comps[i];
        assert(comp@ == cs[i as int]);
        match comp {
            Component::Normal(n) => {
                let c = n.clone();
                assert(c@ =~= n@);
                names.push(c);
                assert(names@.map_values(|n: Vec<char>| n@) =~= before.push(cs[i as int]->Normal_0));
            },
            Component::CurDir => {},
            Component::ParentDir => {
                assert(cs[i as int] == ComponentView::ParentDir);
                assert(entry_fold(cs.take(i + 1)) matches Err(EntryProblem::Escapes));
                proof { lemma_fold_error_sticks(cs, i as int + 1); }
                return Err(PluginError::InvalidArchive(concat("archive entry escapes the plugin root: ", path)));
            },
            Component::RootDir => {
                assert(cs[i as int] == ComponentView::RootDir);
                assert(entry_fold(cs.take(i + 1)) matches Err(EntryProblem::Absolute));
                proof { lemma_fold_error_sticks(cs, i as int + 1); }
                return Err(PluginError::InvalidArchive(concat("archive entry uses an absolute path: ", path)));
            },
        }
        i = i + 1;
    }
    assert(cs.take(i as int) =~= cs);
    if names.len() == 0 {
        Ok(None)
    } else {
        let joined = render_chars(false, &names);
        Ok(Some(string_from_chars(&joined)))
    }
}

/// Once a prefix is refused, so is every longer one, for the same reason.
proof fn lemma_fold_error_sticks(cs: Seq<ComponentView>, i: int)
    requires
        0 <= i <= cs.len(),
        entry_fold(cs.take(i)) is Err,
    ensures
        entry_fold(cs) == entry_fold(cs.take(i)),
    decreases cs.len() - i,
{
    if i < cs.len() {
        assert(cs.take(i + 1).drop_last() =~= cs.take(i));
        lemma_fold_error_sticks(cs, i + 1);
    } else {
        assert(cs.take(i) =~= cs);
    }
}

/// The index of the first `/` in `p`.
pub open spec fn first_slash(p: Seq<char>) -> Option<int> {
    if exists|i: int| 0 <= i < p.len() && p[i] == '/' && forall|j: int| 0 <= j < i ==> p[j] != '/' {
        Some(choose|i: int| 0 <= i < p.len() && p[i] == '/' && forall|j: int| 0 <= j < i ==> p[j] != '/')
    } else {
        None
    }
}

/// The top-level directory of a path with a `/` in it.
pub open spec fn top_dir(p: Seq<char>) -> Option<Seq<char>> {
    match first_slash(p) {
        Some(i) => Some(p.take(i)),
        None => None,
    }
}

/// The one directory every path sits under, when there is exactly one and no
/// file sits at the top.
pub open spec fn single_root(paths: Seq<Seq<char>>) -> Option<Seq<char>> {
    if paths.len() > 0 && (forall|i: int| 0 <= i < paths.len() ==> #[trigger] top_dir(paths[i]) == top_dir(paths[0]))
        && top_dir(paths[0]) is Some {
        top_dir(paths[0])
    } else {
        None
    }
}

/// The files of a package, with a single top-level directory that holds the
/// manifest taken off every path.
pub open spec fn stripped(files: Seq<(Seq<char>, Seq<u8>)>) -> Seq<(Seq<char>, Seq<u8>)> {
    let paths = files.map_values(|f: (Seq<char>, Seq<u8>)| f.0);
    match single_root(paths) {
        Some(r) => if paths.contains(r + "/plugin.json"@) {
            files.map_values(|f: (Seq<char>, Seq<u8>)| (f.0.skip(r.len() + 1int), f.1))
        } else {
            files
        },
        None => files,
    }
}

pub open spec fn file_views(files: Seq<(String, Vec<u8>)>) -> Seq<(Seq<char>, Seq<u8>)> {
    files.map_values(|f: (String, Vec<u8>)| (f.0@, f.1@))
}

/// The index of the first `/` in `p`, if any.
fn slash_index(p: &Vec<char>) -> (res: Option<usize>)
    ensures
        match res {
            Some(i) => first_slash(p@) == Some(i as int) && i < p@.len(),
            None => first_slash(p@) is None,
        },
{
    let mut i: usize = 0;
    while i < p.len()
        invariant
            0 <= i <= p.len(),
            forall|j: int| 0 <= j < i ==> p@[j] != '/',
        decreases p.len() - i,
    {
        if p[i] == '/' {
            let ghost w = choose|k: int| 0 <= k < p@.len() && p@[k] == '/' && forall|j: int| 0 <= j < k ==> p@[j] != '/';
            assert(exists|k: int| 0 <= k < p@.len() && p@[k] == '/' && forall|j: int| 0 <= j < k ==> p@[j] != '/') by {
                assert(0 <= i < p@.len() && p@[i as int] == '/' && forall|j: int| 0 <= j < i ==> p@[j] != '/');
            }
            assert(w == i) by {
                if w < i {
                    assert(p@[w] != '/');
                } else if w > i {
                    assert(p@[i as int] != '/');
                }
            }
            return Some(i);
        }
        i = i + 1;
    }
    None
}

/// The characters of `p` before `end`.
fn prefix_chars(p: &Vec<char>, end: usize) -> (res: Vec<char>)
    requires
        end <= p.len(),
    ensures
        res@ == p@.take(end as int),
{
    let mut out: Vec<char> = Vec::new();
    let mut i: usize = 0;
    while i < end
        invariant
            0 <= i <= end <= p.len(),
            out@ == p@.take(i as int),
        decreases end - i,
    {
        out.push(p[i]);
        assert(p@.take(i + 1) =~= p@.take(i as int).push(p@[i as int]));
        i = i + 1;
    }
    out
}

/// The characters of `p` from `start` on.
fn suffix_string(p: &Vec<char>, start: usize) -> (res: String)
    requires
        start <= p.len(),
    ensures
        res@ == p@.skip(start as int),
{
    let mut out: Vec<char> = Vec::new();
    let mut i: usize = start;
    while i < p.len()
        invariant
            start <= i <= p.len(),
            out@ == p@.subrange(start as int, i as int),
        decreases p.len() - i,
    {
        out.push(p[i]);
        assert(p@.subrange(start as int, i + 1) =~= p@.subrange(start as int, i as int).push(p@[i as int]));
        i = i + 1;
    }
    assert(p@.subrange(start as int, p@.len() as int) =~= p@.skip(start as int));
    string_from_chars(&out)
}

/// The top-level directory of `path`, if it has one.
fn top_dir_of(path: &str) -> (res: Option<Vec<char>>)
    ensures
        match top_dir(path@) {
            Some(d) => res matches Some(v) && v@ == d && v@.len() < usize::MAX,
            None => res is None,
        },
{
    let chars = chars_of(path);
    match slash_index(&chars) {
        Some(i) => Some(prefix_chars(&chars, i)),
        None => None,
    }
}

/// Takes a package's single top-level directory off every path, when there
/// is exactly one, nothing else sits at the top, and it holds `plugin.json`.
pub fn strip_single_root(files: Vec<(String, Vec<u8>)>) -> (res: Vec<(String, Vec<u8>)>)
    ensures
        file_views(res@) == stripped(file_views(files@)),
{
    let ghost fv = file_views(files@);
    let ghost paths = fv.map_values(|f: (Seq<char>, Seq<u8>)| f.0);
    if files.len() == 0 {
        return files;
    }
    let root = match top_dir_of(&files[0].0) {
        Some(r) => r,
        None => {
            assert(single_root(paths) is None);
            return files;
        },
    };
    let mut i: usize = 1;
    while i < files.len()
        invariant
            1 <= i <= files.len(),
            fv == file_views(files@),
            paths == fv.map_values(|f: (Seq<char>, Seq<u8>)| f.0),
            top_dir(paths[0]) == Some(root@),
            forall|k: int| 0 <= k < i ==> #[trigger] top_dir(paths[k]) == Some(root@),
        decreases files.len() - i,
    {
        match top_dir_of(&files[i].0) {
            Some(r) => {
                if !crate::path::chars_eq(&r, &root) {
                    assert(top_dir(paths[i as int]) != top_dir(paths[0]));
                    assert(single_root(paths) is None);
                    return files;
                }
            },
            None => {
                assert(top_dir(paths[i as int]) != top_dir(paths[0]));
                assert(single_root(paths) is None);
                return files;
            },
        }
        i = i + 1;
    }
    assert(single_root(paths) == Some(root@));
    let root_text = string_from_chars(&root);
    let prefix = concat(&root_text, "/");
    let manifest = concat(&prefix, "plugin.json");
    proof {
        reveal_strlit("/");
        reveal_strlit("plugin.json");
        reveal_strlit("/plugin.json");
        assert(manifest@ =~= root@ + "/plugin.json"@);
    }
    let mut found = false;
    let mut j: usize = 0;
    while j < files.len()
        invariant
            0 <= j <= files.len(),
            fv == file_views(files@),
            paths == fv.map_values(|f: (Seq<char>, Seq<u8>)| f.0),
            found == exists|k: int| 0 <= k < j && #[trigger] paths[k] == manifest@,
        decreases files.len() - j,
    {
        assert(paths[j as int] == files@[j as int].0@);
        if crate::text::text_eq(&files[j].0, &manifest) {
            found = true;
        }
        j = j + 1;
    }
    if !found {
        assert(!paths.contains(root@ + "/plugin.json"@)) by {
            if paths.contains(root@ + "/plugin.json"@) {
                let k = choose|k: int| 0 <= k < paths.len() && paths[k] == root@ + "/plugin.json"@;
                assert(paths[k] == manifest@);
            }
        }
        return files;
    }
    assert(paths.contains(root@ + "/plugin.json"@)) by {
        let k = choose|k: int| 0 <= k < files.len() && #[trigger] paths[k] == manifest@;
        assert(paths[k] == root@ + "/plugin.json"@);
    }
    let cut = root.len() + 1;
    let mut out: Vec<(String, Vec<u8>)> = Vec::new();
    let mut k: usize = 0;
    while k < files.len()
        invariant
            0 <= k <= files.len(),
            fv == file_views(files@),
            paths == fv.map_values(|f: (Seq<char>, Seq<u8>)| f.0),
            cut == root@.len() + 1,
            forall|m: int| 0 <= m < files.len() ==> #[trigger] top_dir(paths[m]) == Some(root@),
            file_views(out@) == fv.take(k as int).map_values(
                |f: (Seq<char>, Seq<u8>)| (f.0.skip(root@.len() + 1int), f.1),
            ),
        decreases files.len() - k,
    {
        let chars = chars_of(&files[k].0);
        assert(paths[k as int] == files@[k as int].0@);
        assert(top_dir(paths[k as int]) == Some(root@));
        assert(cut <= chars.len()) by {
            let fsl = first_slash(paths[k as int]);
            assert(fsl is Some);
        }
        let rest = suffix_string(&chars, cut);
        let ghost before = file_views(out@);
        out.push((rest, files[k].1.clone()));
        assert(file_views(out@) =~= before.push((fv[k as int].0.skip(root@.len() + 1int), fv[k as int].1)));
        assert(fv.take(k + 1).map_values(|f: (Seq<char>, Seq<u8>)| (f.0.skip(root@.len() + 1int), f.1)) =~= fv.take(
            k as int,
        ).map_values(|f: (Seq<char>, Seq<u8>)| (f.0.skip(root@.len() + 1int), f.1)).push(
            (fv[k as int].0.skip(root@.len() + 1int), fv[k as int].1),
        ));
        k = k + 1;
    }
    assert(fv.take(k as int) =~= fv);
    out
}

/// An archive entry's header: its raw path and whether it is a regular file.
#[derive(Debug, Clone, PartialEq, Eq)]
pub struct RawEntry {
    pub path: Vec<u8>,
    pub is_file: bool,
}

pub open spec fn raw_views(entries: Seq<RawEntry>) -> Seq<(Seq<u8>, bool)> {
    entries.map_values(|e: RawEntry| (e.path@, e.is_file))
}

/// The entry headers of a gzip-compressed tar archive, in order, as far as
/// they can be read, and the text of the error that stopped the reading, if
/// any.
pub uninterp spec fn tar_gz_entries(bytes: Seq<u8>) -> (Seq<(Seq<u8>, bool)>, Option<Seq<char>>);

/// At most `limit` bytes of the contents of entry `index` of the archive, or
/// the text of the error reading them.
pub uninterp spec fn tar_gz_read(bytes: Seq<u8>, index: nat, limit: nat) -> Result<Seq<u8>, Seq<char>>;

/// Walks `tar::Archive::new(flate2::read::GzDecoder::new(bytes)).entries()`,
/// copying each entry's `path_bytes` and whether its header's entry type
/// `is_file`; the first error stops the walk and its text is kept. What the
/// walk yields is named.
#[verifier::external_body]
fn archive_entries(bytes: &[u8]) -> (res: (Vec<RawEntry>, Option<String>))
    ensures
        raw_views(res.0@) == tar_gz_entries(bytes@).0,
        opt_text_of(res.1) == tar_gz_entries(bytes@).1,
{
    let mut archive = tar::Archive::new(GzDecoder::new(bytes));
    let mut out = Vec::new();
    let entries = match archive.entries() {
        Ok(entries) => entries,
        Err(error) => return (out, Some(error.to_string())),
    };
    for entry in entries {
        match entry {
            Ok(e) => out.push(RawEntry { path: e.path_bytes().into_owned(), is_file: e.header().entry_type().is_file() }),
            Err(error) => return (out, Some(error.to_string())),
        }
    }
    (out, None)
}

/// Walks the archive's entries to entry `index` and reads at most `limit`
/// bytes of it with `Read::take` and `read_to_end`; what comes out is named,
/// and it is never longer than `limit`.
#[verifier::external_body]
fn entry_contents(bytes: &[u8], index: usize, limit: u64) -> (res: Result<Vec<u8>, String>)
    ensures
        match tar_gz_read(bytes@, index as nat, limit as nat) {
            Ok(c) => res matches Ok(v) && v@ == c,
            Err(m) => res matches Err(e) && e@ == m,
        },
        res matches Ok(v) ==> v@.len() <= limit,
{
    let mut archive = tar::Archive::new(GzDecoder::new(bytes));
    let entry = match archive.entries().map_err(|e| e.to_string())?.nth(index) {
        Some(entry) => entry.map_err(|e| e.to_string())?,
        None => return Err(String::from("archive entry is missing")),
    };
    let mut contents = Vec::new();
    entry.take(limit).read_to_end(&mut contents).map_err(|e| e.to_string())?;
    Ok(contents)
}

pub open spec fn opt_text_of(s: Option<String>) -> Option<Seq<char>> {
    match s {
        Some(t) => Some(t@),
        None => None,
    }
}

/// Why a raw entry path is refused.
pub enum RawProblem {
    /// A `..` would leave the plugin root.
    Escapes,
    /// The path starts at the filesystem root.
    Absolute,
    /// A name is not UTF-8.
    NotUtf8,
}

/// The bytes of a raw path, each as the character of the same number. Since
/// `/` and `.` keep their place, the components of the result are those of
/// the raw path.
pub open spec fn latin1(raw: Seq<u8>) -> Seq<char> {
    raw.map_values(|b: u8| b as char)
}

/// The bytes back from characters below 256.
pub open spec fn unlatin1(s: Seq<char>) -> Seq<u8> {
    s.map_values(|c: char| c as u8)
}

/// The names of a raw path's components in order, or the first component
/// that refuses it.
pub open spec fn raw_fold(cs: Seq<ComponentView>) -> Result<Seq<Seq<char>>, RawProblem>
    decreases cs.len(),
{
    if cs.len() == 0 {
        Ok(Seq::empty())
    } else {
        match raw_fold(cs.drop_last()) {
            Err(e) => Err(e),
            Ok(names) => match cs.last() {
                ComponentView::Normal(n) => if valid_utf8(unlatin1(n)) {
                    Ok(names.push(decode_utf8(unlatin1(n))))
                } else {
                    Err(RawProblem::NotUtf8)
                },
                ComponentView::CurDir => Ok(names),
                ComponentView::ParentDir => Err(RawProblem::Escapes),
                ComponentView::RootDir => Err(RawProblem::Absolute),
            },
        }
    }
}

/// Where an entry with the raw path `raw` lands: its components are taken in
/// order and the first that refuses the path decides why; otherwise its
/// names joined by `/`, or nothing when it has none. A refusal shows the
/// path decoded lossily.
pub open spec fn raw_path_outcome(raw: Seq<u8>) -> Result<Option<Seq<char>>, Seq<char>> {
    match raw_fold(components(latin1(raw))) {
        Err(RawProblem::Escapes) => Err("archive entry escapes the plugin root: "@ + lossy_text(raw)),
        Err(RawProblem::Absolute) => Err("archive entry uses an absolute path: "@ + lossy_text(raw)),
        Err(RawProblem::NotUtf8) => Err("archive entry path is not valid UTF-8: "@ + lossy_text(raw)),
        Ok(names) => if names.len() == 0 {
            Ok(None)
        } else {
            Ok(Some(join_names(names)))
        },
    }
}

proof fn lemma_raw_fold_error_sticks(cs: Seq<ComponentView>, i: int)
    requires
        0 <= i <= cs.len(),
        raw_fold(cs.take(i)) is Err,
    ensures
        raw_fold(cs) == raw_fold(cs.take(i)),
    decreases cs.len() - i,
{
    if i < cs.len() {
        assert(cs.take(i + 1).drop_last() =~= cs.take(i));
        lemma_raw_fold_error_sticks(cs, i + 1);
    } else {
        assert(cs.take(i) =~= cs);
    }
}

/// The characters of the same numbers as the bytes.
fn latin1_chars(raw: &Vec<u8>) -> (res: Vec<char>)
    ensures
        res@ == latin1(raw@),
{
    let mut out: Vec<char> = Vec::new();
    let mut i: usize = 0;
    while i < raw.len()
        invariant
            0 <= i <= raw.len(),
            out@ == latin1(raw@.take(i as int)),
        decreases raw.len() - i,
    {
        let b = raw[i];
        out.push(b as char);
        assert(latin1(raw@.take(i + 1)) =~= latin1(raw@.take(i as int)).push(b as char));
        i = i + 1;
    }
    assert(raw@.take(i as int) =~= raw@);
    out
}

/// The bytes of the characters of a raw path's name.
fn unlatin1_bytes(s: &Vec<char>) -> (res: Vec<u8>)
    ensures
        res@ == unlatin1(s@),
{
    let mut out: Vec<u8> = Vec::new();
    let mut i: usize = 0;
    while i < s.len()
        invariant
            0 <= i <= s.len(),
            out@ == unlatin1(s@.take(i as int)),
        decreases s.len() - i,
    {
        let c = s[i];
        out.push(c as u8);
        assert(unlatin1(s@.take(i + 1)) =~= unlatin1(s@.take(i as int)).push(c as u8));
        i = i + 1;
    }
    assert(s@.take(i as int) =~= s@);
    out
}

/// The path a raw archive entry path is stored under, taking its components
/// in order.
pub fn raw_entry_path(raw: &Vec<u8>) -> (res: Result<Option<String>, PluginError>)
    ensures
        match raw_path_outcome(raw@) {
            Err(m) => res matches Err(PluginError::InvalidArchive(msg)) && msg@ == m,
            Ok(None) => res matches Ok(None),
            Ok(Some(p)) => res matches Ok(Some(s)) && s@ == p,
        },
{
    let chars = latin1_chars(raw);
    let comps = path_components(&chars);
    let ghost cs = components(latin1(raw@));
    let mut names: Vec<Vec<char>> = Vec::new();
    let mut i: usize = 0;
    while i < comps.len()
        invariant
            0 <= i <= comps.len(),
            chars@ == latin1(raw@),
            cs == components(latin1(raw@)),
            comps@.len() == cs.len(),
            forall|k: int| 0 <= k < comps@.len() ==> #[trigger] comps@[k]@ == cs[k],
            raw_fold(cs.take(i as int)) matches Ok(ns) && ns == names@.map_values(|n: Vec<char>| n@),
        decreases comps.len() - i,
    {
        assert(cs.take(i + 1).drop_last() =~= cs.take(i as int));
        assert(cs.take(i + 1).last() == cs[i as int]);
        let ghost before = names@.map_values(|n: Vec<char>| n@);
        let comp = &comps[i];
        assert(comp@ == cs[i as int]);
        match comp {
            Component::Normal(n) => {
                let bytes = unlatin1_bytes(n);
                match crate::file_ops::utf8_text(bytes) {
                    Some(t) => {
                        let c = chars_of(&t);
                        names.push(c);
                        assert(names@.map_values(|n: Vec<char>| n@) =~= before.push(
                            decode_utf8(unlatin1(cs[i as int]->Normal_0)),
                        ));
                    },
                    None => {
                        assert(raw_fold(cs.take(i + 1)) matches Err(RawProblem::NotUtf8));
                        proof { lemma_raw_fold_error_sticks(cs, i as int + 1); }
                        let shown = crate::command::utf8_lossy(raw.as_slice());
                        return Err(PluginError::InvalidArchive(concat("archive entry path is not valid UTF-8: ", &shown)));
                    },
                }
            },
            Component::CurDir => {},
            Component::ParentDir => {
                assert(cs[i as int] == ComponentView::ParentDir);
                assert(raw_fold(cs.take(i + 1)) matches Err(RawProblem::Escapes));
                proof { lemma_raw_fold_error_sticks(cs, i as int + 1); }
                let shown = crate::command::utf8_lossy(raw.as_slice());
                return Err(PluginError::InvalidArchive(concat("archive entry escapes the plugin root: ", &shown)));
            },
            Component::RootDir => {
                assert(cs[i as int] == ComponentView::RootDir);
                assert(raw_fold(cs.take(i + 1)) matches Err(RawProblem::Absolute));
                proof { lemma_raw_fold_error_sticks(cs, i as int + 1); }
                let shown = crate::command::utf8_lossy(raw.as_slice());
                return Err(PluginError::InvalidArchive(concat("archive entry uses an absolute path: ", &shown)));
            },
        }
        i = i + 1;
    }
    assert(cs.take(i as int) =~= cs);
    if names.len() == 0 {
        Ok(None)
    } else {
        let joined = render_chars(false, &names);
        Ok(Some(string_from_chars(&joined)))
    }
}

/// The last index holding `path` in `files`.
pub open spec fn last_index_of(files: Seq<(Seq<char>, Seq<u8>)>, path: Seq<char>) -> Option<int>
    decreases files.len(),
{
    if files.len() == 0 {
        None
    } else if files.last().0 == path {
        Some(files.len() - 1)
    } else {
        last_index_of(files.drop_last(), path)
    }
}

/// `files` with `path` holding `contents`: replaced where it is, else added.
pub open spec fn put_file(files: Seq<(Seq<char>, Seq<u8>)>, path: Seq<char>, contents: Seq<u8>) -> Seq<
    (Seq<char>, Seq<u8>),
> {
    match last_index_of(files, path) {
        Some(i) => files.update(i, (path, contents)),
        None => files.push((path, contents)),
    }
}

/// Why an archive is refused.
pub enum ArchiveRefusal {
    /// Not a readable archive, or an entry it refuses; the message says which.
    Invalid(Seq<char>),
    /// Its files hold more than [`MAX_UNCOMPRESSED_BYTES`].
    TooLarge,
}

/// Reading the archive from entry `k` on, with `files` gathered and
/// `remaining` bytes left: entries that are not regular files are passed
/// over; a regular file past the [`MAX_ENTRIES`]th is refused; its path must
/// stay inside the plugin root; it is read up to one byte more than is left,
/// and a file over what is left makes the archive too large.
pub open spec fn scan(
    bytes: Seq<u8>,
    entries: Seq<(Seq<u8>, bool)>,
    k: nat,
    files: Seq<(Seq<char>, Seq<u8>)>,
    remaining: nat,
) -> Result<Seq<(Seq<char>, Seq<u8>)>, ArchiveRefusal>
    decreases entries.len() - k,
{
    if k >= entries.len() {
        Ok(files)
    } else if !entries[k as int].1 {
        scan(bytes, entries, k + 1, files, remaining)
    } else if files.len() >= MAX_ENTRIES {
        Err(ArchiveRefusal::Invalid("archive contains more than 4096 files"@))
    } else {
        match raw_path_outcome(entries[k as int].0) {
            Err(m) => Err(ArchiveRefusal::Invalid(m)),
            Ok(None) => scan(bytes, entries, k + 1, files, remaining),
            Ok(Some(p)) => match tar_gz_read(bytes, k, remaining + 1) {
                Err(m) => Err(ArchiveRefusal::Invalid(m)),
                Ok(c) => if c.len() > remaining {
                    Err(ArchiveRefusal::TooLarge)
                } else {
                    scan(bytes, entries, k + 1, put_file(files, p, c), (remaining - c.len()) as nat)
                },
            },
        }
    }
}

/// The files of a package archive, or why it is refused: every entry is
/// read in order, and an error that stopped the reading of the entries
/// refuses the archive once the entries before it are read.
pub open spec fn archive_files(bytes: Seq<u8>) -> Result<Seq<(Seq<char>, Seq<u8>)>, ArchiveRefusal> {
    match scan(bytes, tar_gz_entries(bytes).0, 0, Seq::empty(), MAX_UNCOMPRESSED_BYTES as nat) {
        Err(r) => Err(r),
        Ok(files) => match tar_gz_entries(bytes).1 {
            Some(m) => Err(ArchiveRefusal::Invalid(m)),
            None => Ok(files),
        },
    }
}

/// Stores `contents` under `path`, replacing an entry with the same path.
fn put(files: &mut Vec<(String, Vec<u8>)>, path: String, contents: Vec<u8>)
    ensures
        file_views(final(files)@) == put_file(file_views(old(files)@), path@, contents@),
{
    let ghost fv = file_views(files@);
    let mut j: usize = files.len();
    assert(fv.take(j as int) =~= fv);
    while j > 0
        invariant
            0 <= j <= files.len(),
            fv == file_views(files@),
            fv == file_views(old(files)@),
            last_index_of(fv, path@) == last_index_of(fv.take(j as int), path@),
        decreases j,
    {
        assert(fv.take(j as int).drop_last() =~= fv.take(j - 1));
        assert(fv.take(j as int).last() == fv[j - 1]);
        assert(fv[j - 1] == (files@[j - 1].0@, files@[j - 1].1@));
        if crate::text::text_eq(&files[j - 1].0, &path) {
            assert(last_index_of(fv, path@) == Some((j - 1) as int));
            let ghost before = files@;
            files.set(j - 1, (path, contents));
            assert(file_views(files@) =~= fv.update(j - 1, (path@, contents@)));
            return;
        }
        j = j - 1;
    }
    assert(fv.take(0) =~= Seq::<(Seq<char>, Seq<u8>)>::empty());
    files.push((path, contents));
    assert(file_views(files@) =~= fv.push((path@, contents@)));
}

/// The files of an uploaded package, ready for the plugin loader: the body
/// is checked, the archive read within its limits, and a single top-level
/// directory holding the manifest taken off every path.
pub fn plugin_files(bytes: &[u8]) -> (res: Result<Vec<(String, Vec<u8>)>, PluginError>)
    ensures
        bytes@.len() == 0 ==> res == Err::<Vec<(String, Vec<u8>)>, PluginError>(PluginError::EmptyBody),
        bytes@.len() > MAX_ARCHIVE_BYTES ==> res == Err::<Vec<(String, Vec<u8>)>, PluginError>(PluginError::TooLarge),
        0 < bytes@.len() <= MAX_ARCHIVE_BYTES ==> match archive_files(bytes@) {
            Ok(fs) => res matches Ok(v) && file_views(v@) == stripped(fs),
            Err(ArchiveRefusal::Invalid(m)) => res matches Err(PluginError::InvalidArchive(x)) && x@ == m,
            Err(ArchiveRefusal::TooLarge) => res == Err::<Vec<(String, Vec<u8>)>, PluginError>(PluginError::TooLarge),
        },
{
    match check_body(bytes.len()) {
        Ok(()) => {},
        Err(e) => return Err(e),
    }
    let (entries, failure) = archive_entries(bytes);
    let ghost ev = raw_views(entries@);
    let ghost start = scan(bytes@, ev, 0, Seq::empty(), MAX_UNCOMPRESSED_BYTES as nat);
    let mut files: Vec<(String, Vec<u8>)> = Vec::new();
    let mut remaining: u64 = MAX_UNCOMPRESSED_BYTES;
    let mut k: usize = 0;
    assert(file_views(files@) =~= Seq::<(Seq<char>, Seq<u8>)>::empty());
    while k < entries.len()
        invariant
            0 <= k <= entries.len(),
            0 < bytes@.len() <= MAX_ARCHIVE_BYTES,
            ev.len() == entries@.len(),
            ev == raw_views(entries@),
            ev == tar_gz_entries(bytes@).0,
            remaining <= MAX_UNCOMPRESSED_BYTES,
            start == scan(bytes@, ev, 0, Seq::empty(), MAX_UNCOMPRESSED_BYTES as nat),
            start == scan(bytes@, ev, k as nat, file_views(files@), remaining as nat),
        decreases entries.len() - k,
    {
        let e = &entries[k];
        assert(ev[k as int] == (e.path@, e.is_file));
        let ghost fv = file_views(files@);
        if e.is_file {
            if files.len() >= MAX_ENTRIES {
                assert(fv.len() >= MAX_ENTRIES);
                return Err(PluginError::InvalidArchive(String::from_str("archive contains more than 4096 files")));
            }
            let landed = match raw_entry_path(&e.path) {
                Ok(l) => l,
                Err(err) => return Err(err),
            };
            match landed {
                None => {},
                Some(p) => {
                    let c = match entry_contents(bytes, k, remaining + 1) {
                        Ok(c) => c,
                        Err(m) => return Err(PluginError::InvalidArchive(m)),
                    };
                    let read = c.len() as u64;
                    if read > remaining {
                        return Err(PluginError::TooLarge);
                    }
                    remaining = remaining - read;
                    put(&mut files, p, c);
                },
            }
        }
        k = k + 1;
    }
    assert(start == scan(bytes@, ev, k as nat, file_views(files@), remaining as nat));
    assert(start == Ok::<Seq<(Seq<char>, Seq<u8>)>, ArchiveRefusal>(file_views(files@)));
    match failure {
        Some(m) => {
            return Err(PluginError::InvalidArchive(m));
        },
        None => {},
    }
    Ok(strip_single_root(files))
}

/// What `plugins/parse` reports.
#[derive(Debug, Clone, PartialEq, Eq)]
pub struct PluginParseResult {
    pub valid: bool,
    pub rejection: Option<PluginRejection>,
    pub manifest: Option<PluginManifest>,
    pub skills: Vec<PluginSkill>,
    pub mcp: Option<PluginMcp>,
    pub diagnostics: Vec<PluginDiagnostic>,
}

/// Why the loader refused a package.
#[derive(Debug, Clone, PartialEq, Eq)]
pub struct PluginRejection {
    pub code: String,
    pub message: String,
}

#[derive(Debug, Clone, PartialEq, Eq)]
pub struct PluginManifest {
    pub spec_version: String,
    pub name: String,
    pub version: Option<String>,
    pub description: Option<String>,
    pub author: Option<PluginAuthor>,
    pub homepage: Option<String>,
    pub repository: Option<String>,
    pub license: Option<String>,
    pub keywords: Vec<String>,
}

#[derive(Debug, Clone, PartialEq, Eq)]
pub struct PluginAuthor {
    pub name: Option<String>,
    pub email: Option<String>,
    pub url: Option<String>,
}

#[derive(Debug, Clone, PartialEq, Eq)]
pub struct PluginSkill {
    pub name: String,
    pub directory: String,
    pub path: String,
    pub description: String,
    pub license: Option<String>,
    pub compatibility: Option<String>,
    pub allowed_tools: Option<String>,
    pub metadata: BTreeMap<String, String>,
}

#[derive(Debug, Clone, PartialEq, Eq)]
pub struct PluginMcp {
    pub status: PluginMcpStatus,
    pub reason: Option<String>,
    pub servers: Vec<PluginMcpServer>,
}

#[derive(Debug, Clone, Copy, PartialEq, Eq)]
pub enum PluginMcpStatus {
    Absent,
    Disabled,
    Configured,
    Unknown,
}

#[derive(Debug, Clone, PartialEq, Eq)]
pub struct PluginMcpServer {
    pub name: String,
    pub transport: PluginTransport,
}

#[derive(Debug, Clone, Copy, PartialEq, Eq)]
pub enum PluginTransport {
    Stdio,
    StreamableHttp,
    Sse,
}

#[derive(Debug, Clone, PartialEq, Eq)]
pub struct PluginDiagnostic {
    pub rule: String,
    pub section: String,
    pub origin: String,
    pub message: String,
}

/// A manifest as the report shows it.
pub struct ManifestView {
    pub spec_version: Seq<char>,
    pub name: Seq<char>,
    pub version: Option<Seq<char>>,
    pub description: Option<Seq<char>>,
    /// The author's name, email and URL.
    pub author: Option<(Option<Seq<char>>, Option<Seq<char>>, Option<Seq<char>>)>,
    pub homepage: Option<Seq<char>>,
    pub repository: Option<Seq<char>>,
    pub license: Option<Seq<char>>,
    pub keywords: Seq<Seq<char>>,
}

/// A skill as the report shows it.
pub struct SkillView {
    pub name: Seq<char>,
    pub directory: Seq<char>,
    pub path: Seq<char>,
    pub description: Seq<char>,
    pub license: Option<Seq<char>>,
    pub compatibility: Option<Seq<char>>,
    pub allowed_tools: Option<Seq<char>>,
    pub metadata: Map<Seq<char>, Seq<char>>,
}

/// The MCP component as the report shows it.
pub struct McpView {
    pub status: PluginMcpStatus,
    pub reason: Option<Seq<char>>,
    /// Each server's name and transport.
    pub servers: Seq<(Seq<char>, PluginTransport)>,
}

/// A whole report.
pub struct ReportView {
    pub valid: bool,
    /// The rejection's code and message.
    pub rejection: Option<(Seq<char>, Seq<char>)>,
    pub manifest: Option<ManifestView>,
    pub skills: Seq<SkillView>,
    pub mcp: Option<McpView>,
    /// Each diagnostic's rule, section, origin and message.
    pub diagnostics: Seq<(Seq<char>, Seq<char>, Seq<char>, Seq<char>)>,
}

pub open spec fn texts(v: Seq<String>) -> Seq<Seq<char>> {
    v.map_values(|t: String| t@)
}

pub open spec fn rejection_view(r: Option<PluginRejection>) -> Option<(Seq<char>, Seq<char>)> {
    match r {
        Some(r) => Some((r.code@, r.message@)),
        None => None,
    }
}

pub open spec fn manifest_view(m: PluginManifest) -> ManifestView {
    ManifestView {
        spec_version: m.spec_version@,
        name: m.name@,
        version: opt_text_of(m.version),
        description: opt_text_of(m.description),
        author: match m.author {
            Some(a) => Some((opt_text_of(a.name), opt_text_of(a.email), opt_text_of(a.url))),
            None => None,
        },
        homepage: opt_text_of(m.homepage),
        repository: opt_text_of(m.repository),
        license: opt_text_of(m.license),
        keywords: texts(m.keywords@),
    }
}

pub open spec fn manifest_opt_view(m: Option<PluginManifest>) -> Option<ManifestView> {
    match m {
        Some(m) => Some(manifest_view(m)),
        None => None,
    }
}

pub open spec fn skill_view(s: PluginSkill) -> SkillView {
    SkillView {
        name: s.name@,
        directory: s.directory@,
        path: s.path@,
        description: s.description@,
        license: opt_text_of(s.license),
        compatibility: opt_text_of(s.compatibility),
        allowed_tools: opt_text_of(s.allowed_tools),
        metadata: s.metadata.deep_view(),
    }
}

pub open spec fn skills_view(v: Seq<PluginSkill>) -> Seq<SkillView> {
    v.map_values(|s: PluginSkill| skill_view(s))
}

pub open spec fn servers_view(v: Seq<PluginMcpServer>) -> Seq<(Seq<char>, PluginTransport)> {
    v.map_values(|s: PluginMcpServer| (s.name@, s.transport))
}

pub open spec fn status_view(s: Option<(PluginMcpStatus, Option<String>)>) -> Option<(PluginMcpStatus, Option<Seq<char>>)> {
    match s {
        Some((st, reason)) => Some((st, opt_text_of(reason))),
        None => None,
    }
}

pub open spec fn mcp_view(m: Option<PluginMcp>) -> Option<McpView> {
    match m {
        Some(m) => Some(McpView { status: m.status, reason: opt_text_of(m.reason), servers: servers_view(m.servers@) }),
        None => None,
    }
}

pub open spec fn diagnostics_view(v: Seq<PluginDiagnostic>) -> Seq<(Seq<char>, Seq<char>, Seq<char>, Seq<char>)> {
    v.map_values(|d: PluginDiagnostic| (d.rule@, d.section@, d.origin@, d.message@))
}

pub open spec fn report_view(r: PluginParseResult) -> ReportView {
    ReportView {
        valid: r.valid,
        rejection: rejection_view(r.rejection),
        manifest: manifest_opt_view(r.manifest),
        skills: skills_view(r.skills@),
        mcp: mcp_view(r.mcp),
        diagnostics: diagnostics_view(r.diagnostics@),
    }
}

/// The rejection's code and message when the loader rejects the files.
pub uninterp spec fn loader_rejection(files: Seq<(Seq<char>, Seq<u8>)>) -> Option<(Seq<char>, Seq<char>)>;

/// The manifest the loader validates from the files, if it loads them.
pub uninterp spec fn loader_manifest(files: Seq<(Seq<char>, Seq<u8>)>) -> Option<ManifestView>;

/// The valid skills the loader finds in the files, in discovery order.
pub uninterp spec fn loader_skills(files: Seq<(Seq<char>, Seq<u8>)>) -> Seq<SkillView>;

/// What became of the MCP component, and why it is disabled, if it is, when
/// the loader loads the files.
pub uninterp spec fn loader_mcp_status(files: Seq<(Seq<char>, Seq<u8>)>) -> Option<
    (PluginMcpStatus, Option<Seq<char>>),
>;

/// The configured MCP servers the loader keeps from the files.
pub uninterp spec fn loader_mcp_servers(files: Seq<(Seq<char>, Seq<u8>)>) -> Seq<(Seq<char>, PluginTransport)>;

/// The loader's diagnostics on the files.
pub uninterp spec fn loader_diagnostics(files: Seq<(Seq<char>, Seq<u8>)>) -> Seq<
    (Seq<char>, Seq<char>, Seq<char>, Seq<char>),
>;

/// `MemSource` holding the files, loaded: on `Err`, the rejection's `code()`
/// and its text; on `Ok`, nothing. What comes out is named.
#[verifier::external_body]
fn loaded_rejection(files: &Vec<(String, Vec<u8>)>) -> (res: Option<PluginRejection>)
    ensures
        rejection_view(res) == loader_rejection(file_views(files@)),
{
    let mut source = MemSource::new();
    for (path, contents) in files.iter() {
        source = source.file(path.clone(), contents.clone());
    }
    source.load().err().map(|r| PluginRejection { code: r.code().to_string(), message: r.to_string() })
}

/// `MemSource` holding the files, loaded: on `Ok`, the manifest's fields
/// copied, the spec version and name as their texts. What comes out is named.
#[verifier::external_body]
fn loaded_manifest(files: &Vec<(String, Vec<u8>)>) -> (res: Option<PluginManifest>)
    ensures
        manifest_opt_view(res) == loader_manifest(file_views(files@)),
{
    let mut source = MemSource::new();
    for (path, contents) in files.iter() {
        source = source.file(path.clone(), contents.clone());
    }
    source.load().ok().map(|p| p.manifest).map(|m| PluginManifest {
        spec_version: m.spec.to_string(), name: m.name.as_str().to_string(), version: m.version,
        description: m.description, homepage: m.homepage, repository: m.repository, license: m.license,
        author: m.author.map(|a| PluginAuthor { name: a.name, email: a.email, url: a.url }), keywords: m.keywords,
    })
}

/// `MemSource` holding the files, loaded: on `Ok`, each skill's directory,
/// path and frontmatter fields copied; on `Err`, none. What comes out is
/// named.
#[verifier::external_body]
fn loaded_skills(files: &Vec<(String, Vec<u8>)>) -> (res: Vec<PluginSkill>)
    ensures
        skills_view(res@) == loader_skills(file_views(files@)),
{
    let mut source = MemSource::new();
    for (path, contents) in files.iter() {
        source = source.file(path.clone(), contents.clone());
    }
    source.load().map(|p| p.skills).unwrap_or_default().into_iter().map(|s| PluginSkill {
        name: s.meta.name, directory: s.directory, path: s.path.as_str().to_string(),
        description: s.meta.description, license: s.meta.license, compatibility: s.meta.compatibility,
        allowed_tools: s.meta.allowed_tools, metadata: s.meta.metadata,
    }).collect()
}

/// `MemSource` holding the files, loaded: on `Ok`, which `McpOutcome` it is,
/// and the reason's text when disabled. What comes out is named.
#[verifier::external_body]
fn loaded_mcp_status(files: &Vec<(String, Vec<u8>)>) -> (res: Option<(PluginMcpStatus, Option<String>)>)
    ensures
        status_view(res) == loader_mcp_status(file_views(files@)),
{
    let mut source = MemSource::new();
    for (path, contents) in files.iter() {
        source = source.file(path.clone(), contents.clone());
    }
    source.load().ok().map(|p| match p.mcp {
        McpOutcome::Absent => (PluginMcpStatus::Absent, None),
        McpOutcome::Disabled(reason) => (PluginMcpStatus::Disabled, Some(reason.to_string())),
        McpOutcome::Configured(_) => (PluginMcpStatus::Configured, None),
        _ => (PluginMcpStatus::Unknown, None),
    })
}

/// `MemSource` holding the files, loaded: the name and transport of each
/// server of a configured MCP component; none otherwise. What comes out is
/// named.
#[verifier::external_body]
fn loaded_mcp_servers(files: &Vec<(String, Vec<u8>)>) -> (res: Vec<PluginMcpServer>)
    ensures
        servers_view(res@) == loader_mcp_servers(file_views(files@)),
{
    let mut source = MemSource::new();
    for (path, contents) in files.iter() {
        source = source.file(path.clone(), contents.clone());
    }
    let servers = match source.load().map(|p| p.mcp) {
        Ok(McpOutcome::Configured(config)) => config.servers,
        _ => Vec::new(),
    };
    servers.into_iter().map(|e| PluginMcpServer { transport: match e.server.transport() {
        Transport::Stdio => PluginTransport::Stdio,
        Transport::StreamableHttp => PluginTransport::StreamableHttp,
        Transport::Sse => PluginTransport::Sse,
    }, name: e.name }).collect()
}

/// `MemSource` holding the files, loaded: on `Ok`, each diagnostic's rule
/// code and section, origin and message as texts; on `Err`, none. What comes
/// out is named.
#[verifier::external_body]
fn loaded_diagnostics(files: &Vec<(String, Vec<u8>)>) -> (res: Vec<PluginDiagnostic>)
    ensures
        diagnostics_view(res@) == loader_diagnostics(file_views(files@)),
{
    let mut source = MemSource::new();
    for (path, contents) in files.iter() {
        source = source.file(path.clone(), contents.clone());
    }
    source.load().map(|p| p.diagnostics).unwrap_or_default().into_iter().map(|d| PluginDiagnostic {
        rule: d.rule.code().to_string(), section: d.rule.section().to_string(),
        origin: d.origin.to_string(), message: d.message,
    }).collect()
}

/// The report on loading the files: a rejection alone, or the manifest,
/// skills, MCP component and diagnostics of the loaded plugin.
pub open spec fn plugin_report(files: Seq<(Seq<char>, Seq<u8>)>) -> ReportView {
    match loader_rejection(files) {
        Some(r) => ReportView {
            valid: false,
            rejection: Some(r),
            manifest: None,
            skills: Seq::empty(),
            mcp: None,
            diagnostics: Seq::empty(),
        },
        None => ReportView {
            valid: true,
            rejection: None,
            manifest: loader_manifest(files),
            skills: loader_skills(files),
            mcp: match loader_mcp_status(files) {
                Some((status, reason)) => Some(McpView { status, reason, servers: loader_mcp_servers(files) }),
                None => None,
            },
            diagnostics: loader_diagnostics(files),
        },
    }
}

/// Loads the files as a plugin and reports on them.
pub fn report(files: &Vec<(String, Vec<u8>)>) -> (res: PluginParseResult)
    ensures
        report_view(res) == plugin_report(file_views(files@)),
{
    let ghost fv = file_views(files@);
    match loaded_rejection(files) {
        Some(r) => {
            let res = PluginParseResult {
                valid: false,
                rejection: Some(r),
                manifest: None,
                skills: Vec::new(),
                mcp: None,
                diagnostics: Vec::new(),
            };
            assert(skills_view(res.skills@) =~= Seq::<SkillView>::empty());
            assert(diagnostics_view(res.diagnostics@) =~= Seq::<(Seq<char>, Seq<char>, Seq<char>, Seq<char>)>::empty());
            res
        },
        None => {
            let mcp = match loaded_mcp_status(files) {
                Some((status, reason)) => Some(PluginMcp { status, reason, servers: loaded_mcp_servers(files) }),
                None => None,
            };
            assert(mcp_view(mcp) == plugin_report(fv).mcp);
            let res = PluginParseResult {
                valid: true,
                rejection: None,
                manifest: loaded_manifest(files),
                skills: loaded_skills(files),
                mcp,
                diagnostics: loaded_diagnostics(files),
            };
            res
        },
    }
}

/// Parses an uploaded package: its files as [`plugin_files`] gives them,
/// loaded as a plugin and reported on.
pub fn analyze(bytes: &[u8]) -> (res: Result<PluginParseResult, PluginError>)
    ensures
        bytes@.len() == 0 ==> res matches Err(PluginError::EmptyBody),
        bytes@.len() > MAX_ARCHIVE_BYTES ==> res matches Err(PluginError::TooLarge),
        0 < bytes@.len() <= MAX_ARCHIVE_BYTES ==> match archive_files(bytes@) {
            Ok(fs) => res matches Ok(r) && report_view(r) == plugin_report(stripped(fs)),
            Err(ArchiveRefusal::Invalid(m)) => res matches Err(PluginError::InvalidArchive(x)) && x@ == m,
            Err(ArchiveRefusal::TooLarge) => res matches Err(PluginError::TooLarge),
        },
{
    match plugin_files(bytes) {
        Ok(files) => Ok(report(&files)),
        Err(e) => Err(e),
    }
}

} // verus!

//! What a resource's metadata reports, from the facts the filesystem gives:
//! its kind, its permission bits in octal, and a validator over its size and
//! modification time.

use vstd::prelude::*;

use crate::path::{file_name_of, has_root, joined, normalized, parent_of, path_starts_with};
use crate::text::{chars_of, concat, string_from_chars};

verus! {

/// The character of a decimal digit.
pub open spec fn digit_char(d: nat) -> char {
    if d == 0 {
        '0'
    } else if d == 1 {
        '1'
    } else if d == 2 {
        '2'
    } else if d == 3 {
        '3'
    } else if d == 4 {
        '4'
    } else if d == 5 {
        '5'
    } else if d == 6 {
        '6'
    } else if d == 7 {
        '7'
    } else if d == 8 {
        '8'
    } else {
        '9'
    }
}

/// `n` written in decimal, without leading zeros.
pub open spec fn decimal(n: nat) -> Seq<char>
    decreases n,
{
    if n < 10 {
        seq![digit_char(n)]
    } else {
        decimal(n / 10).push(digit_char(n % 10))
    }
}

fn digit(d: u8) -> (res: char)
    requires
        d < 10,
    ensures
        res == digit_char(d as nat),
{
    if d == 0 {
        '0'
    } else if d == 1 {
        '1'
    } else if d == 2 {
        '2'
    } else if d == 3 {
        '3'
    } else if d == 4 {
        '4'
    } else if d == 5 {
        '5'
    } else if d == 6 {
        '6'
    } else if d == 7 {
        '7'
    } else if d == 8 {
        '8'
    } else {
        '9'
    }
}

/// `n` in decimal.
pub fn decimal_text(n: u128) -> (res: String)
    ensures
        res@ == decimal(n as nat),
{
    let mut m: u128 = n;
    let mut out: Vec<char> = Vec::new();
    while m >= 10
        invariant
            decimal(n as nat) == decimal(m as nat) + out@,
        decreases m,
    {
        let d = (m % 10) as u8;
        let ghost before = out@;
        out.insert(0, digit(d));
        assert(decimal(m as nat) == decimal((m / 10) as nat).push(digit_char((m % 10) as nat)));
        assert(decimal((m / 10) as nat).push(digit_char((m % 10) as nat)) + before =~= decimal((m / 10) as nat)
            + out@);
        m = m / 10;
    }
    let ghost before = out@;
    out.insert(0, digit(m as u8));
    assert(out@ =~= decimal(m as nat) + before);
    string_from_chars(&out)
}

/// The kind of a resource. A symlink is reported as itself, never as what it
/// points to.
#[derive(Debug, Clone, Copy, PartialEq, Eq)]
pub enum ResourceKind {
    File,
    Directory,
    Symlink,
}

pub open spec fn kind_of(is_symlink: bool, is_dir: bool) -> ResourceKind {
    if is_symlink {
        ResourceKind::Symlink
    } else if is_dir {
        ResourceKind::Directory
    } else {
        ResourceKind::File
    }
}

pub fn resource_kind(is_symlink: bool, is_dir: bool) -> (res: ResourceKind)
    ensures
        res == kind_of(is_symlink, is_dir),
{
    if is_symlink {
        ResourceKind::Symlink
    } else if is_dir {
        ResourceKind::Directory
    } else {
        ResourceKind::File
    }
}

/// The permission bits of `mode` (the low twelve) as four octal digits.
pub open spec fn mode_digits(mode: u32) -> Seq<char> {
    let m = (mode % 4096) as nat;
    seq![digit_char(m / 512), digit_char(m / 64 % 8), digit_char(m / 8 % 8), digit_char(m % 8)]
}

/// `{:04o}` of `mode & 0o7777`.
pub fn mode_text(mode: u32) -> (res: String)
    ensures
        res@ == mode_digits(mode),
{
    let m = mode & 4095;
    assert(mode & 4095 == mode % 4096) by (bit_vector);
    let mut out: Vec<char> = Vec::new();
    out.push(digit((m / 512) as u8));
    out.push(digit((m / 64 % 8) as u8));
    out.push(digit((m / 8 % 8) as u8));
    out.push(digit((m % 8) as u8));
    assert(out@ =~= mode_digits(mode));
    string_from_chars(&out)
}

/// A strong validator over the size and the modification time in
/// nanoseconds since the epoch, quoted.
pub open spec fn etag_of(len: u64, modified_nanos: u128) -> Seq<char> {
    seq!['"'] + decimal(len as nat) + seq!['-'] + decimal(modified_nanos as nat) + seq!['"']
}

pub fn etag(len: u64, modified_nanos: u128) -> (res: String)
    ensures
        res@ == etag_of(len, modified_nanos),
{
    let a = decimal_text(len as u128);
    let b = decimal_text(modified_nanos);
    let q = concat("\"", &a);
    let r = concat(&q, "-");
    let s = concat(&r, &b);
    let t = concat(&s, "\"");
    proof {
        reveal_strlit("\"");
        reveal_strlit("-");
    }
    assert(t@ =~= etag_of(len, modified_nanos));
    t
}

/// An instant relative to the Unix epoch: whole seconds, negative before it,
/// and the nanoseconds past them.
#[derive(Debug, Clone, Copy, PartialEq, Eq)]
pub struct EpochTime {
    pub secs: i64,
    pub nanos: u32,
}

/// The RFC 3339 text chrono writes for the UTC instant `secs` and `nanos`,
/// or `None` where chrono has no such instant.
pub uninterp spec fn rfc3339_text(secs: i64, nanos: u32) -> Option<Seq<char>>;

/// Calls `chrono::DateTime::<Utc>::from_timestamp(secs, nanos)` and then
/// `to_rfc3339` on the instant; the text is named, not computed here.
#[verifier::external_body]
fn rfc3339(secs: i64, nanos: u32) -> (res: Option<String>)
    ensures
        match rfc3339_text(secs, nanos) {
            Some(t) => res matches Some(s) && s@ == t,
            None => res is None,
        },
{
    match chrono::DateTime::<chrono::Utc>::from_timestamp(secs, nanos) {
        Some(time) => Some(time.to_rfc3339()),
        None => None,
    }
}

/// A time as RFC 3339, the encoding every timestamp of the resource model
/// uses; `None` beyond the instants chrono represents.
pub fn timestamp(time: EpochTime) -> (res: Option<String>)
    ensures
        match rfc3339_text(time.secs, time.nanos) {
            Some(t) => res matches Some(s) && s@ == t,
            None => res is None,
        },
{
    rfc3339(time.secs, time.nanos)
}

/// The instant an RFC 3339 text names, or `None` when chrono does not
/// accept the text.
pub uninterp spec fn rfc3339_instant(text: Seq<char>) -> Option<(i64, u32)>;

/// Calls `chrono::DateTime::parse_from_rfc3339` and reads the instant back
/// as seconds and nanoseconds since the epoch; which texts parse, and to what,
/// is named.
#[verifier::external_body]
fn parse_rfc3339(text: &str) -> (res: Option<(i64, u32)>)
    ensures
        res == rfc3339_instant(text@),
{
    match chrono::DateTime::parse_from_rfc3339(text) {
        Ok(time) => Some((time.timestamp(), time.timestamp_subsec_nanos())),
        Err(_) => None,
    }
}

/// A requested modification time: an RFC 3339 text, refused with a message
/// naming it when it does not parse.
pub fn parse_modified(text: &str) -> (res: Result<EpochTime, String>)
    ensures
        match rfc3339_instant(text@) {
            Some((secs, nanos)) => res == Ok::<EpochTime, String>(EpochTime { secs, nanos }),
            None => res matches Err(m) && m@ == "invalid modified_at: "@ + text@,
        },
{
    match parse_rfc3339(text) {
        Some((secs, nanos)) => Ok(EpochTime { secs, nanos }),
        None => Err(concat("invalid modified_at: ", text)),
    }
}

/// The content type mime_guess gives a path from its extension, with
/// `application/octet-stream` where it knows none.
pub uninterp spec fn guessed_content_type(path: Seq<char>) -> Seq<char>;

/// Calls `mime_guess::from_path(path).first_or_octet_stream()` and writes the
/// type out; the type is named.
#[verifier::external_body]
fn guess_content_type(path: &str) -> (res: String)
    ensures
        res@ == guessed_content_type(path@),
{
    mime_guess::from_path(path).first_or_octet_stream().to_string()
}

/// What a raw stream of a file is served with.
#[derive(Debug, Clone, PartialEq, Eq)]
pub struct StreamFacts {
    pub size: u64,
    pub etag: String,
    pub content_type: String,
}

/// The headers' facts for streaming the file at `resolved`: its size, its
/// validator and the content type its extension suggests.
pub fn stream_facts(resolved: &str, size: u64, modified_nanos: u128) -> (res: StreamFacts)
    ensures
        res.size == size,
        res.etag@ == etag_of(size, modified_nanos),
        res.content_type@ == guessed_content_type(resolved@),
{
    StreamFacts { size, etag: etag(size, modified_nanos), content_type: guess_content_type(resolved) }
}

/// The facts a metadata read gives about a resource.
#[derive(Debug, Clone, PartialEq, Eq)]
pub struct EntryFacts {
    pub is_symlink: bool,
    pub is_dir: bool,
    pub is_file: bool,
    pub len: u64,
    /// Nanoseconds since the epoch, zero when unknown.
    pub modified_nanos: u128,
    pub modified_at: String,
    pub accessed_at: Option<String>,
    pub birthtime: Option<String>,
    /// Where a symlink points.
    pub target: Option<String>,
    pub mode: u32,
    pub uid: u32,
    pub gid: u32,
    pub inode: u64,
    pub links: u64,
    pub device: u64,
    pub device_type: u64,
    pub block_size: u64,
    pub blocks: u64,
}

/// The metadata of a resource, in the request's addressing mode.
#[derive(Debug, Clone, PartialEq, Eq)]
pub struct ResourceMetadata {
    /// Empty for a root.
    pub name: String,
    pub path: String,
    pub kind: ResourceKind,
    /// Zero for a directory or a symlink.
    pub size: u64,
    pub etag: String,
    pub mode: Option<String>,
    pub uid: Option<u64>,
    pub gid: Option<u64>,
    pub inode: Option<u64>,
    pub links: Option<u64>,
    pub device: Option<u64>,
    pub device_type: Option<u64>,
    pub block_size: Option<u64>,
    pub blocks: Option<u64>,
    pub modified_at: String,
    pub accessed_at: Option<String>,
    pub birthtime: Option<String>,
    pub target: Option<String>,
}

/// The last component of an address, or nothing for a root.
pub fn name_of(address: &str) -> (res: String)
    ensures
        res@ == match file_name_of(address@) {
            Some(n) => n,
            None => Seq::<char>::empty(),
        },
{
    match crate::path::file_name(address) {
        Some(n) => n,
        None => String::new(),
    }
}

/// The metadata `facts` describe for the resource at `address`; only a
/// symlink reports a target.
pub fn describe(address: &str, facts: EntryFacts) -> (res: ResourceMetadata)
    ensures
        res.name@ == match file_name_of(address@) {
            Some(n) => n,
            None => Seq::<char>::empty(),
        },
        res.path@ == address@,
        res.kind == kind_of(facts.is_symlink, facts.is_dir),
        res.size == if facts.is_file {
            facts.len
        } else {
            0
        },
        res.etag@ == etag_of(facts.len, facts.modified_nanos),
        res.mode matches Some(m) && m@ == mode_digits(facts.mode),
        res.uid == Some(facts.uid as u64),
        res.gid == Some(facts.gid as u64),
        res.inode == Some(facts.inode),
        res.links == Some(facts.links),
        res.device == Some(facts.device),
        res.device_type == Some(facts.device_type),
        res.block_size == Some(facts.block_size),
        res.blocks == Some(facts.blocks),
        res.modified_at == facts.modified_at,
        res.accessed_at == facts.accessed_at,
        res.birthtime == facts.birthtime,
        res.target == if facts.is_symlink && !(facts.target is None) {
            facts.target
        } else {
            None
        },
{
    let kind = resource_kind(facts.is_symlink, facts.is_dir);
    let target = if facts.is_symlink {
        facts.target
    } else {
        None
    };
    ResourceMetadata {
        name: name_of(address),
        path: String::from_str(address),
        kind,
        size: if facts.is_file {
            facts.len
        } else {
            0
        },
        etag: etag(facts.len, facts.modified_nanos),
        mode: Some(mode_text(facts.mode)),
        uid: Some(facts.uid as u64),
        gid: Some(facts.gid as u64),
        inode: Some(facts.inode),
        links: Some(facts.links),
        device: Some(facts.device),
        device_type: Some(facts.device_type),
        block_size: Some(facts.block_size),
        blocks: Some(facts.blocks),
        modified_at: facts.modified_at,
        accessed_at: facts.accessed_at,
        birthtime: facts.birthtime,
        target,
    }
}

/// The value of an octal digit.
pub open spec fn octal_value(c: char) -> Option<nat> {
    if '0' <= c && c <= '7' {
        Some((c as nat - '0' as nat) as nat)
    } else {
        None
    }
}

/// The value of a run of octal digits.
pub open spec fn octal_number(s: Seq<char>) -> nat
    decreases s.len(),
{
    if s.len() == 0 {
        0
    } else {
        octal_number(s.drop_last()) * 8 + match octal_value(s.last()) {
            Some(v) => v,
            None => 0,
        }
    }
}

pub open spec fn all_octal(s: Seq<char>) -> bool {
    forall|i: int| 0 <= i < s.len() ==> (#[trigger] octal_value(s[i])) is Some
}

/// The digits a mode is written with: without an `0o` prefix, and then
/// without a `+` sign.
pub open spec fn mode_body(s: Seq<char>) -> Seq<char> {
    let t = if s.len() >= 2 && s[0] == '0' && s[1] == 'o' {
        s.skip(2)
    } else {
        s
    };
    if t.len() > 0 && t[0] == '+' {
        t.skip(1)
    } else {
        t
    }
}

/// The permission bits a mode text asks for: octal digits, optionally after
/// `0o` and a `+`, whose value fits in 32 bits.
pub open spec fn mode_value(s: Seq<char>) -> Option<u32> {
    let d = mode_body(s);
    if d.len() > 0 && all_octal(d) && octal_number(d) <= u32::MAX {
        Some(octal_number(d) as u32)
    } else {
        None
    }
}

proof fn lemma_octal_number_monotone(s: Seq<char>, i: int)
    requires
        0 <= i <= s.len(),
    ensures
        octal_number(s.take(i)) <= octal_number(s),
    decreases s.len() - i,
{
    if i < s.len() {
        lemma_octal_number_monotone(s, i + 1);
        assert(s.take(i + 1).drop_last() =~= s.take(i));
    } else {
        assert(s.take(i) =~= s);
    }
}

/// Parses a mode as `u32::from_str_radix(.., 8)` does after an `0o` prefix is
/// taken off; the message names the text when it is refused.
pub fn parse_mode(mode: &str) -> (res: Result<u32, String>)
    ensures
        match mode_value(mode@) {
            Some(v) => res == Ok::<u32, String>(v),
            None => res matches Err(m) && m@ == "invalid mode: "@ + mode@,
        },
{
    let chars = chars_of(mode);
    let mut i: usize = 0;
    if chars.len() >= 2 && chars[0] == '0' && chars[1] == 'o' {
        i = 2;
    }
    if i < chars.len() && chars[i] == '+' {
        i = i + 1;
    }
    let ghost d = mode_body(mode@);
    assert(d =~= mode@.skip(i as int));
    let bad = concat("invalid mode: ", mode);
    if i == chars.len() {
        return Err(bad);
    }
    let start = i;
    let mut value: u32 = 0;
    while i < chars.len()
        invariant
            start <= i <= chars.len(),
            chars@ == mode@,
            d == mode@.skip(start as int),
            d == mode_body(mode@),
            bad@ == "invalid mode: "@ + mode@,
            all_octal(d.take(i - start)),
            value == octal_number(d.take(i - start)),
        decreases chars.len() - i,
    {
        let c = chars[i];
        assert(d.take(i - start + 1).drop_last() =~= d.take(i - start));
        assert(d.take(i - start + 1).last() == c);
        assert(d[i - start] == c);
        if !('0' <= c && c <= '7') {
            assert(!all_octal(d)) by {
                assert(octal_value(d[i - start]) is None);
            }
            return Err(bad);
        }
        let v = (c as u32) - ('0' as u32);
        assert(octal_value(c) == Some(v as nat));
        assert(octal_number(d.take(i - start + 1)) == value * 8 + v);
        if value > (u32::MAX - v) / 8 {
            assert(value * 8 + v > u32::MAX) by (nonlinear_arith)
                requires
                    value > (u32::MAX - v) / 8,
                    v <= 7,
            ;
            proof {
                lemma_octal_number_monotone(d, i - start + 1);
            }
            return Err(bad);
        }
        value = value * 8 + v;
        assert(all_octal(d.take(i - start + 1))) by {
            assert forall|k: int| 0 <= k < i - start + 1 implies (#[trigger] octal_value(d.take(i - start + 1)[k])) is Some by {
                if k < i - start {
                    assert(d.take(i - start + 1)[k] == d.take(i - start)[k]);
                }
            }
        }
        i = i + 1;
    }
    assert(d.take(i - start) =~= d);
    Ok(value)
}

/// Where a symlink at `entry` inside `root` would point: `target` when it is
/// absolute, else `target` under the entry's parent.
pub open spec fn link_destination(entry: Seq<char>, root: Seq<char>, target: Seq<char>) -> Seq<char> {
    if has_root(target) {
        target
    } else {
        joined(
            match parent_of(entry) {
                Some(p) => p,
                None => root,
            },
            target,
        )
    }
}

/// A symlink inside a workspace must point inside it, judged lexically.
pub fn check_symlink_target(entry: &str, root: &str, target: &str) -> (res: Result<(), String>)
    ensures
        path_starts_with(normalized(link_destination(entry@, root@, target@)), root@) ==> res is Ok,
        !path_starts_with(normalized(link_destination(entry@, root@, target@)), root@) ==> (res matches Err(m) && m@
            == "symlink target escapes the workspace: "@ + target@),
{
    let destination = if crate::path::is_absolute(target) {
        String::from_str(target)
    } else {
        let parent = match crate::path::parent(entry) {
            Some(p) => p,
            None => String::from_str(root),
        };
        crate::path::join(&parent, target)
    };
    let clean = crate::path::normalize(&destination);
    if !crate::path::starts_with(&clean, root) {
        return Err(concat("symlink target escapes the workspace: ", target));
    }
    Ok(())
}

} // verus!

//! Where the bundled command-line tools are materialized, and when a copy on
//! disk is still current.

use vstd::prelude::*;

use crate::text::{chars_of, concat};

verus! {

/// Why the tools could not be materialized.
#[derive(Debug, Clone, PartialEq, Eq)]
pub enum BinaryError {
    MissingHome,
    MissingDigest { binary: String },
    CreateDir { dir: String, source: String },
    Read { binary: String, path: String, source: String },
    Corrupt { binary: String },
    Materialize { binary: String, destination: String, source: String },
    Task(String),
}

pub open spec fn binary_error_message(e: BinaryError) -> Seq<char> {
    match e {
        BinaryError::MissingHome => "the `HOME` environment variable is not set, so the binaries directory cannot be resolved"@,
        BinaryError::MissingDigest { binary } => "the embedded manifest has no digest for binary `"@ + binary@ + "`"@,
        BinaryError::CreateDir { dir, .. } => "failed to create the binaries directory "@ + dir@,
        BinaryError::Read { binary, path, .. } => "failed to read the existing binary `"@ + binary@ + "` at "@ + path@,
        BinaryError::Corrupt { binary } => "the embedded payload for `"@ + binary@ + "` does not match its manifest digest"@,
        BinaryError::Materialize { binary, destination, .. } => "failed to materialize binary `"@ + binary@ + "` to "@
            + destination@,
        BinaryError::Task(_) => "binary materialization task failed"@,
    }
}

impl BinaryError {
    pub fn message(&self) -> (res: String)
        ensures
            res@ == binary_error_message(*self),
    {
        match self {
            BinaryError::MissingHome => String::from_str(
                "the `HOME` environment variable is not set, so the binaries directory cannot be resolved",
            ),
            BinaryError::MissingDigest { binary } => {
                let a = concat("the embedded manifest has no digest for binary `", binary);
                concat(&a, "`")
            },
            BinaryError::CreateDir { dir, .. } => concat("failed to create the binaries directory ", dir),
            BinaryError::Read { binary, path, .. } => {
                let a = concat("failed to read the existing binary `", binary);
                let b = concat(&a, "` at ");
                concat(&b, path)
            },
            BinaryError::Corrupt { binary } => {
                let a = concat("the embedded payload for `", binary);
                concat(&a, "` does not match its manifest digest")
            },
            BinaryError::Materialize { binary, destination, .. } => {
                let a = concat("failed to materialize binary `", binary);
                let b = concat(&a, "` to ");
                concat(&b, destination)
            },
            BinaryError::Task(_) => String::from_str("binary materialization task failed"),
        }
    }
}

/// The directory under a home directory the tools go to.
pub open spec fn dir_under_home(home: Seq<char>) -> Seq<char> {
    crate::path::joined(crate::path::joined(home, ".sandbox-toolkit"@), "bin"@)
}

/// `$HOME/.sandbox-toolkit/bin`, derived from the home directory alone so it
/// stays the same across restarts; a missing or empty home is an error.
pub fn dir_under(home: Option<String>) -> (res: Result<String, BinaryError>)
    ensures
        match home {
            Some(h) => if h@.len() > 0 {
                res matches Ok(d) && d@ == dir_under_home(h@)
            } else {
                res == Err::<String, BinaryError>(BinaryError::MissingHome)
            },
            None => res == Err::<String, BinaryError>(BinaryError::MissingHome),
        },
{
    match home {
        Some(h) => {
            if chars_of(&h).len() == 0 {
                return Err(BinaryError::MissingHome);
            }
            let a = crate::path::join(&h, ".sandbox-toolkit");
            Ok(crate::path::join(&a, "bin"))
        },
        None => Err(BinaryError::MissingHome),
    }
}

/// The digest recorded for `name`: the first entry of the manifest with
/// that name.
pub open spec fn recorded_digest(manifest: Seq<(Seq<char>, Seq<u8>)>, name: Seq<char>) -> Option<Seq<u8>>
    decreases manifest.len(),
{
    if manifest.len() == 0 {
        None
    } else if manifest[0].0 == name {
        Some(manifest[0].1)
    } else {
        recorded_digest(manifest.drop_first(), name)
    }
}

pub open spec fn manifest_view(manifest: Seq<(String, [u8; 32])>) -> Seq<(Seq<char>, Seq<u8>)> {
    manifest.map_values(|e: (String, [u8; 32])| (e.0@, e.1@))
}

/// The digest the manifest records for `name`.
pub fn digest_of(manifest: &Vec<(String, [u8; 32])>, name: &str) -> (res: Result<[u8; 32], BinaryError>)
    ensures
        match recorded_digest(manifest_view(manifest@), name@) {
            Some(d) => res matches Ok(x) && x@ == d,
            None => res matches Err(BinaryError::MissingDigest { binary }) && binary@ == name@,
        },
{
    let ghost mv = manifest_view(manifest@);
    let mut i: usize = 0;
    assert(mv.skip(0) =~= mv);
    while i < manifest.len()
        invariant
            0 <= i <= manifest.len(),
            mv == manifest_view(manifest@),
            recorded_digest(mv, name@) == recorded_digest(mv.skip(i as int), name@),
        decreases manifest.len() - i,
    {
        assert(mv.skip(i as int)[0] == mv[i as int]);
        if crate::text::text_eq(&manifest[i].0, name) {
            return Ok(manifest[i].1);
        }
        assert(mv.skip(i as int).drop_first() =~= mv.skip(i + 1));
        i = i + 1;
    }
    assert(mv.skip(i as int) =~= Seq::<(Seq<char>, Seq<u8>)>::empty());
    Err(BinaryError::MissingDigest { binary: String::from_str(name) })
}

/// Whether a digest, when there is one, equals the recorded one.
pub fn digest_matches(digest: Option<[u8; 32]>, expected: &[u8; 32]) -> (res: bool)
    ensures
        res == match digest {
            Some(d) => d@ == expected@,
            None => false,
        },
{
    match digest {
        Some(d) => {
            let mut i: usize = 0;
            while i < 32
                invariant
                    0 <= i <= 32,
                    digest == Some(d),
                    d@.len() == 32,
                    expected@.len() == 32,
                    forall|k: int| 0 <= k < i ==> d@[k] == expected@[k],
                decreases 32 - i,
            {
                if d[i] != expected[i] {
                    assert(d@[i as int] != expected@[i as int]);
                    return false;
                }
                i = i + 1;
            }
            assert(d@ =~= expected@);
            true
        },
        None => false,
    }
}

/// The BLAKE3 digest of `data`.
pub uninterp spec fn blake3_of(data: Seq<u8>) -> Seq<u8>;

/// Calls `blake3::hash`, the 32-byte BLAKE3 digest of `data`; the digest is
/// named, not computed here.
#[verifier::external_body]
fn blake3_hash(data: &[u8]) -> (res: [u8; 32])
    ensures
        res@ == blake3_of(data@),
{
    *blake3::hash(data).as_bytes()
}

/// A copy on disk is current only when it exists and hashes to the recorded
/// digest; `existing` is its content, `None` when there is no such file.
pub fn is_current(existing: Option<&[u8]>, expected: &[u8; 32]) -> (res: bool)
    ensures
        res == match existing {
            Some(b) => blake3_of(b@) == expected@,
            None => false,
        },
{
    match existing {
        Some(bytes) => digest_matches(Some(blake3_hash(bytes)), expected),
        None => false,
    }
}

/// What zstd decompression makes of `payload`: the bytes, or `None` when it
/// is not valid zstd data.
pub uninterp spec fn zstd_decoded(payload: Seq<u8>) -> Option<Seq<u8>>;

/// Calls `zstd::stream::decode_all` on the payload: the decompressed bytes,
/// or the decoder's error text. Which bytes come out is named; the error text
/// is left unsaid.
#[verifier::external_body]
fn zstd_decode_all(payload: &[u8]) -> (res: Result<Vec<u8>, String>)
    ensures
        match zstd_decoded(payload@) {
            Some(d) => res matches Ok(v) && v@ == d,
            None => res is Err,
        },
{
    zstd::stream::decode_all(payload).map_err(|error| error.to_string())
}

/// The executable an embedded payload holds: decompressed, and refused as
/// corrupt unless it hashes to the recorded digest, so a damaged payload is
/// never written out.
pub fn checked_payload(binary: &str, destination: &str, payload: &[u8], expected: &[u8; 32]) -> (res: Result<
    Vec<u8>,
    BinaryError,
>)
    ensures
        match zstd_decoded(payload@) {
            None => res matches Err(BinaryError::Materialize { binary: b, destination: d, .. }) && b@ == binary@
                && d@ == destination@,
            Some(bytes) => if blake3_of(bytes) == expected@ {
                res matches Ok(v) && v@ == bytes
            } else {
                res matches Err(BinaryError::Corrupt { binary: b }) && b@ == binary@
            },
        },
{
    match zstd_decode_all(payload) {
        Ok(bytes) => {
            if digest_matches(Some(blake3_hash(&bytes)), expected) {
                Ok(bytes)
            } else {
                Err(BinaryError::Corrupt { binary: String::from_str(binary) })
            }
        },
        Err(source) => Err(
            BinaryError::Materialize {
                binary: String::from_str(binary),
                destination: String::from_str(destination),
                source,
            },
        ),
    }
}

} // verus!

//! Per-buffer observation decisions: what a stat/read failure means,
//! and what the digest of the file on disk says about the buffer.

use vstd::prelude::*;
use crate::buffers::model::{BufferObservation, BufferState, DigestStream, ObserverError, digest_stream_fed, sha256};

verus! {

/// `io::Error::kind() == ErrorKind::NotFound`. Which kind an error has
/// depends on the operating system's report; nothing is stated of it.
#[verifier::external_body]
fn is_not_found(e: &std::io::Error) -> bool {
    e.kind() == std::io::ErrorKind::NotFound
}

/// Classify an I/O failure of a stat or open: "not found" means the
/// buffer file is missing; any other kind is a transient read error.
pub fn classify_by_kind(not_found: bool, err: std::io::Error, path: &str) -> (r: ObserverError)
    ensures
        not_found ==> (r matches ObserverError::Missing { path: p } && p@ == path@),
        !not_found ==> (r matches ObserverError::TransientRead { path: p, source } && p@ == path@ && source == err),
{
    if not_found {
        ObserverError::Missing { path: path.to_owned() }
    } else {
        ObserverError::TransientRead { path: path.to_owned(), source: err }
    }
}

/// Classify an I/O failure of a stat or open by its kind.
pub fn classify_io_err(err: std::io::Error, path: &str) -> (r: ObserverError)
    ensures
        (r matches ObserverError::Missing { path: p } && p@ == path@) || (r matches ObserverError::TransientRead {
            path: p,
            source,
        } && p@ == path@ && source == err),
{
    let nf = is_not_found(&err);
    classify_by_kind(nf, err, path)
}

/// Whether two digests differ.
fn digests_differ(a: &[u8; 32], b: &[u8; 32]) -> (r: bool)
    ensures
        r == (a@ != b@),
{
    let mut i: usize = 0;
    while i < 32
        invariant
            i <= 32,
            a@.len() == 32,
            b@.len() == 32,
            forall|j: int| 0 <= j < i ==> a@[j] == b@[j],
        decreases 32 - i,
    {
        if a[i] != b[i] {
            return true;
        }
        i = i + 1;
    }
    assert(a@ =~= b@);
    false
}

/// The observation of a readable regular file whose content hashes to
/// `disk_digest`: the in-memory size, dirty exactly when the disk
/// digest differs from the in-memory one, observable.
pub fn observation_from_digest(state: &BufferState, disk_digest: &[u8; 32]) -> (o: BufferObservation)
    ensures
        o.byte_size as int == state.spec_content().len(),
        o.dirty == (disk_digest@ != state.spec_digest()),
        o.observable,
{
    BufferObservation {
        byte_size: state.byte_size(),
        dirty: digests_differ(disk_digest, state.memory_digest()),
        observable: true,
    }
}

/// The observation of a readable regular file whose bytes were fed, in
/// order, into `stream`: dirty exactly when their SHA-256 differs from
/// the in-memory digest.
pub fn observation_from_stream(state: &BufferState, stream: DigestStream) -> (o: BufferObservation)
    ensures
        o.byte_size as int == state.spec_content().len(),
        o.dirty == (sha256(digest_stream_fed(stream)) != state.spec_digest()),
        o.observable,
{
    let disk_digest = stream.finish();
    observation_from_digest(state, &disk_digest)
}

} // verus!

//! The update manifest and the decision whether the client binary is stale.
//!
//! The manifest lists one entry per line: a hash in hexadecimal, two spaces,
//! and a path, which starts with an architecture and ends with the name of a
//! binary. The first entry that names the binary of the architecture at hand
//! counts. The binary is stale when that entry's hash differs from the hash
//! of the local file; without such an entry it counts as up to date.

use vstd::prelude::*;
use vstd::slice::slice_subrange;
use vstd::string::StringSliceAdditionalSpecFns;
use vstd::utf8::valid_utf8;
use crate::endpoints::{is_text, Response};
use crate::registry::{ProcessRegistry, RegistryState};
use crate::status::StatusText;
use crate::text::{ends_with, find, find_byte, first_byte, first_match, has_prefix, has_suffix};
use crate::text::{lemma_first_match_some, same_bytes, starts_with};

verus! {

/// The SHA-1 digest of `data`, as forty hexadecimal digits in lower case.
pub uninterp spec fn sha1_hex(data: Seq<u8>) -> Seq<u8>;

/// Computes the SHA-1 digest of `data` in hexadecimal, by `Sha1::update` and
/// `Sha1::hexdigest` of the crate sha1_smol on a fresh `Sha1`. The contract
/// names the result; it is a function of `data` alone.
#[verifier::external_body]
fn hexdigest(data: &[u8]) -> (r: Vec<u8>)
    ensures
        r@ == sha1_hex(data@),
{
    let mut hasher = sha1_smol::Sha1::default();
    hasher.update(data);
    hasher.hexdigest().into_bytes()
}

/// What separates the hash of an entry from its path: two spaces.
pub const SEPARATOR: &'static str = "  ";

/// The bytes of the separator.
pub open spec fn separator() -> Seq<u8> {
    SEPARATOR.spec_bytes()
}

/// The length of the first line of `text`: the position of its first line
/// feed, or its length where it holds none.
pub open spec fn line_end(text: Seq<u8>) -> int {
    match first_byte(text, 10u8) {
        Some(at) => at,
        None => text.len() as int,
    }
}

/// The entry that a line holds, as hash and path: what stands before and
/// after its first separator. A line without separator holds no entry.
pub open spec fn entry_of(line: Seq<u8>) -> Option<(Seq<u8>, Seq<u8>)> {
    match first_match(line, separator()) {
        Some(at) => Some((line.take(at), line.skip(at + separator().len()))),
        None => None,
    }
}

/// The path names the binary `name` of the architecture `arch`.
pub open spec fn names_binary(path: Seq<u8>, arch: Seq<u8>, name: Seq<u8>) -> bool {
    has_prefix(path, arch) && has_suffix(path, name)
}

/// The hash that a line lists for the binary, if the line is an entry for it.
pub open spec fn hash_in_line(line: Seq<u8>, arch: Seq<u8>, name: Seq<u8>) -> Option<Seq<u8>> {
    match entry_of(line) {
        Some((hash, path)) => if names_binary(path, arch, name) {
            Some(hash)
        } else {
            None
        },
        None => None,
    }
}

/// The hash that the manifest lists for the binary: that of the first line
/// that is an entry for it.
pub open spec fn listed_hash(manifest: Seq<u8>, arch: Seq<u8>, name: Seq<u8>) -> Option<Seq<u8>>
    decreases manifest.len(),
{
    let end = line_end(manifest);
    match hash_in_line(manifest.take(end), arch, name) {
        Some(hash) => Some(hash),
        None => if 0 <= end < manifest.len() {
            listed_hash(manifest.skip(end + 1), arch, name)
        } else {
            None
        },
    }
}

/// The binary with the hash `local_hash` is stale by the manifest: the
/// manifest lists another hash for it.
pub open spec fn is_stale(
    manifest: Seq<u8>,
    arch: Seq<u8>,
    name: Seq<u8>,
    local_hash: Seq<u8>,
) -> bool {
    match listed_hash(manifest, arch, name) {
        Some(hash) => hash != local_hash,
        None => false,
    }
}

/// What the update manager does about the client binary in a launch.
#[derive(Clone, Copy, Debug, PartialEq, Eq, Structural)]
pub enum UpdatePlan {
    /// The check was already made in this run: nothing is done.
    Skip,
    /// The binary is missing: it is installed.
    Install,
    /// The binary is there: it is compared with the manifest.
    Compare,
}

/// One step of installing or replacing the client binary.
#[derive(Clone, Copy, Debug, PartialEq, Eq, Structural)]
pub enum UpdateStep {
    /// Show what is being done.
    Announce(StatusText),
    /// Read the local binary and fetch the manifest.
    FetchManifest,
    /// Download the binary of the architecture at hand.
    FetchBinary,
    /// Write the download beside the binary and rename it over the binary.
    ReplaceBinary,
    /// Make the binary executable.
    MakeExecutable,
}

/// The plan for a launch, by whether this run has made its check and whether
/// the binary is there.
pub open spec fn update_plan(claimed: bool, binary_present: bool) -> UpdatePlan {
    if claimed {
        UpdatePlan::Skip
    } else if binary_present {
        UpdatePlan::Compare
    } else {
        UpdatePlan::Install
    }
}

/// The steps with which a plan begins: nothing where the check is skipped,
/// the installation where the binary is missing, and the fetch of the
/// manifest where the binary is compared with it.
pub open spec fn plan_sequence(plan: UpdatePlan, posix: bool) -> Seq<UpdateStep> {
    match plan {
        UpdatePlan::Skip => Seq::empty(),
        UpdatePlan::Install => install_sequence(posix),
        UpdatePlan::Compare => seq![
            UpdateStep::Announce(StatusText::CheckingForUpdate),
            UpdateStep::FetchManifest,
        ],
    }
}

/// The steps that install the binary.
pub open spec fn install_sequence(posix: bool) -> Seq<UpdateStep> {
    let fetch = seq![
        UpdateStep::Announce(StatusText::Installing),
        UpdateStep::FetchBinary,
        UpdateStep::ReplaceBinary,
    ];
    if posix {
        fetch.push(UpdateStep::MakeExecutable)
    } else {
        fetch
    }
}

/// The steps that bring a binary up to date: one download and one
/// replacement where it is stale, nothing where it is not.
pub open spec fn replace_sequence(stale: bool) -> Seq<UpdateStep> {
    if stale {
        seq![
            UpdateStep::Announce(StatusText::Updating),
            UpdateStep::FetchBinary,
            UpdateStep::ReplaceBinary,
        ]
    } else {
        Seq::empty()
    }
}

/// Decides what the update manager does in this launch, and claims the
/// update check of the run, so that every later launch skips it.
pub fn plan_update(registry: &mut ProcessRegistry, binary_present: bool) -> (r: UpdatePlan)
    ensures
        r == update_plan(old(registry)@.update_claimed, binary_present),
        final(registry)@ == (RegistryState { update_claimed: true, ..old(registry)@ }),
{
    if !registry.claim_update() {
        UpdatePlan::Skip
    } else if binary_present {
        UpdatePlan::Compare
    } else {
        UpdatePlan::Install
    }
}

/// The steps with which a plan begins. `posix` says whether the system
/// knows executable permissions. Where the binary is compared with the
/// manifest, `replace_steps` gives what follows.
pub fn plan_steps(plan: UpdatePlan, posix: bool) -> (r: Vec<UpdateStep>)
    ensures
        r@ == plan_sequence(plan, posix),
{
    let mut steps: Vec<UpdateStep> = Vec::new();
    match plan {
        UpdatePlan::Skip => {},
        UpdatePlan::Install => {
            steps.push(UpdateStep::Announce(StatusText::Installing));
            steps.push(UpdateStep::FetchBinary);
            steps.push(UpdateStep::ReplaceBinary);
            if posix {
                steps.push(UpdateStep::MakeExecutable);
            }
        },
        UpdatePlan::Compare => {
            steps.push(UpdateStep::Announce(StatusText::CheckingForUpdate));
            steps.push(UpdateStep::FetchManifest);
        },
    }
    assert(steps@ =~= plan_sequence(plan, posix));
    steps
}

/// The steps that bring the binary up to date, by whether it is stale.
pub fn replace_steps(stale: bool) -> (r: Vec<UpdateStep>)
    ensures
        r@ == replace_sequence(stale),
{
    let mut steps: Vec<UpdateStep> = Vec::new();
    if stale {
        steps.push(UpdateStep::Announce(StatusText::Updating));
        steps.push(UpdateStep::FetchBinary);
        steps.push(UpdateStep::ReplaceBinary);
    }
    assert(steps@ =~= replace_sequence(stale));
    steps
}

/// The manifest in the answer to its fetch: the body, if it is text. The
/// status of the answer does not count.
pub fn manifest_text(answer: &Response) -> (r: Option<&[u8]>)
    ensures
        match r {
            Some(text) => valid_utf8(answer.body@) && text@ == answer.body@,
            None => !valid_utf8(answer.body@),
        },
{
    if is_text(answer.body.as_slice()) {
        Some(answer.body.as_slice())
    } else {
        None
    }
}

/// Finds the hash that a line lists for the binary.
fn line_hash<'a>(line: &'a [u8], arch: &[u8], name: &[u8]) -> (r: Option<&'a [u8]>)
    ensures
        match r {
            Some(hash) => hash_in_line(line@, arch@, name@) == Some(hash@),
            None => hash_in_line(line@, arch@, name@) is None,
        },
{
    let len = line.len();
    let mark = SEPARATOR.as_bytes();
    match find(line, mark) {
        Some(at) => {
            proof {
                lemma_first_match_some(line@, mark@);
            }
            let hash = slice_subrange(line, 0, at);
            let path = slice_subrange(line, at + mark.len(), len);
            assert(hash@ == line@.take(at as int));
            assert(path@ == line@.skip(at + separator().len()));
            if starts_with(path, arch) && ends_with(path, name) {
                Some(hash)
            } else {
                None
            }
        },
        None => None,
    }
}

/// Finds the hash that the manifest lists for the binary `name` of the
/// architecture `arch`.
pub fn lookup_hash<'a>(manifest: &'a [u8], arch: &[u8], name: &[u8]) -> (r: Option<&'a [u8]>)
    ensures
        match r {
            Some(hash) => listed_hash(manifest@, arch@, name@) == Some(hash@),
            None => listed_hash(manifest@, arch@, name@) is None,
        },
{
    let len = manifest.len();
    let mut pos: usize = 0;
    assert(manifest@.skip(0) =~= manifest@);
    loop
        invariant
            pos <= len == manifest@.len(),
            listed_hash(manifest@, arch@, name@) == listed_hash(
                manifest@.skip(pos as int),
                arch@,
                name@,
            ),
        decreases len - pos,
    {
        let rest = slice_subrange(manifest, pos, len);
        assert(rest@ == manifest@.skip(pos as int));
        let end = match find_byte(rest, 10) {
            Some(at) => at,
            None => rest.len(),
        };
        let line = slice_subrange(rest, 0, end);
        assert(line@ == rest@.take(line_end(rest@)));
        match line_hash(line, arch, name) {
            Some(hash) => {
                return Some(hash);
            },
            None => {},
        }
        if end >= rest.len() {
            return None;
        }
        assert(rest@.skip(end + 1) =~= manifest@.skip(pos + end + 1));
        pos = pos + end + 1;
    }
}

/// Whether the manifest calls for replacing a binary whose hash is
/// `local_hash`.
pub fn update_needed(manifest: &[u8], arch: &[u8], name: &[u8], local_hash: &[u8]) -> (r: bool)
    ensures
        r == is_stale(manifest@, arch@, name@, local_hash@),
{
    match lookup_hash(manifest, arch, name) {
        Some(hash) => !same_bytes(hash, local_hash),
        None => false,
    }
}

/// Whether the manifest calls for replacing the binary with the given
/// contents: hashes the contents and compares with the manifest.
pub fn binary_is_stale(contents: &[u8], manifest: &[u8], arch: &[u8], name: &[u8]) -> (r: bool)
    ensures
        r == is_stale(manifest@, arch@, name@, sha1_hex(contents@)),
{
    let local = hexdigest(contents);
    update_needed(manifest, arch, name, local.as_slice())
}

/// A manifest whose first line is the entry of the binary lists that entry's
/// hash, whatever follows: the first match wins.
pub proof fn lemma_first_entry_wins(
    hash: Seq<u8>,
    path: Seq<u8>,
    rest: Seq<u8>,
    arch: Seq<u8>,
    name: Seq<u8>,
)
    requires
        entry_of(hash + separator() + path) == Some((hash, path)),
        first_byte(hash + separator() + path, 10u8) is None,
        names_binary(path, arch, name),
    ensures
        listed_hash(hash + separator() + path, arch, name) == Some(hash),
        listed_hash(hash + separator() + path + seq![10u8] + rest, arch, name) == Some(hash),
{
    let line = hash + separator() + path;
    assert(line.take(line.len() as int) =~= line);
    let whole = line + seq![10u8] + rest;
    let at = line.len() as int;
    crate::text::lemma_byte_match(whole, 10u8, at);
    assert forall|j: int| 0 <= j < at implies !crate::text::matches_at(whole, seq![10u8], j) by {
        crate::text::lemma_byte_match(whole, 10u8, j);
        crate::text::lemma_byte_match(line, 10u8, j);
        if crate::text::matches_at(line, seq![10u8], j) {
            lemma_first_match_some(line, seq![10u8]);
        }
    }
    crate::text::lemma_first_match_is(whole, seq![10u8], at);
    assert(whole.take(at) =~= line);
}

/// A binary is replaced exactly when the manifest lists a hash for it that
/// differs from its own: with the listed hash it is left alone, with any
/// other it is downloaded and replaced once.
pub proof fn lemma_replace_iff_differs(
    manifest: Seq<u8>,
    arch: Seq<u8>,
    name: Seq<u8>,
    local_hash: Seq<u8>,
)
    ensures
        listed_hash(manifest, arch, name) == Some(local_hash) ==> replace_sequence(
            is_stale(manifest, arch, name, local_hash),
        ) == Seq::<UpdateStep>::empty(),
        listed_hash(manifest, arch, name) is None ==> replace_sequence(
            is_stale(manifest, arch, name, local_hash),
        ) == Seq::<UpdateStep>::empty(),
        listed_hash(manifest, arch, name) is Some && listed_hash(manifest, arch, name)
            != Some(local_hash) ==> replace_sequence(is_stale(manifest, arch, name, local_hash))
            == seq![
            UpdateStep::Announce(StatusText::Updating),
            UpdateStep::FetchBinary,
            UpdateStep::ReplaceBinary,
        ],
{
}

} // verus!

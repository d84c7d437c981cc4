//! The per-user credential document: its auto-sync region and its logging
//! directive.
//!
//! A credential is a text document. Two fixed marker blocks may delimit an
//! auto-sync region in it; what stands strictly between the markers is replaced
//! by data fetched from the server, the markers and everything outside them
//! stay. The document must also carry a logging directive, which is appended
//! once when it is missing.

use vstd::prelude::*;
use vstd::slice::slice_subrange;
use vstd::string::StringSliceAdditionalSpecFns;
use vstd::utf8::valid_utf8;
use crate::endpoints::{is_text, Response};
use crate::status::{ErrorKind, StatusText};
use crate::text::{contains, find, first_match, matches_at, occurs, same_bytes};
use crate::text::{lemma_append_keeps_first_match, lemma_first_match_is, lemma_first_match_some};

verus! {

/// The marker block that opens the auto-sync region.
pub const SYNC_BEGIN: &'static str =
    "# --------------------------------------------------------------------------------------\n#                        WARNING >>> AUTO SYNC AREA\n# --------------------------------------------------------------------------------------";

/// The marker block that closes the auto-sync region.
pub const SYNC_END: &'static str =
    "# --------------------------------------------------------------------------------------\n#                        WARNING <<< AUTO SYNC AREA\n# --------------------------------------------------------------------------------------";

/// The opening marker as bytes.
pub open spec fn sync_begin() -> Seq<u8> {
    SYNC_BEGIN.spec_bytes()
}

/// The closing marker as bytes.
pub open spec fn sync_end() -> Seq<u8> {
    SYNC_END.spec_bytes()
}

/// The directive that makes the client log in the structured format.
pub const LOGGING_DIRECTIVE: &'static str = "\nlogging:\n  format: json";

/// The logging directive as bytes.
pub open spec fn logging_directive() -> Seq<u8> {
    LOGGING_DIRECTIVE.spec_bytes()
}

/// The opening marker as bytes.
pub fn sync_begin_marker() -> (r: &'static [u8])
    ensures
        r@ == sync_begin(),
{
    SYNC_BEGIN.as_bytes()
}

/// The closing marker as bytes.
pub fn sync_end_marker() -> (r: &'static [u8])
    ensures
        r@ == sync_end(),
{
    SYNC_END.as_bytes()
}

/// The logging directive as bytes.
pub fn logging_directive_bytes() -> (r: &'static [u8])
    ensures
        r@ == logging_directive(),
{
    LOGGING_DIRECTIVE.as_bytes()
}

/// The auto-sync region of a credential: the position of its opening marker
/// and the position of its closing marker. The region is present when both
/// markers occur and the leftmost opening marker starts before the leftmost
/// closing marker; otherwise it is absent. The two markers end and begin with
/// the same line, so the closing marker may start within the opening one.
pub open spec fn sync_region(content: Seq<u8>) -> Option<(int, int)> {
    match (first_match(content, sync_begin()), first_match(content, sync_end())) {
        (Some(s), Some(e)) => if s < e {
            Some((s, e))
        } else {
            None
        },
        _ => None,
    }
}

/// The credential with `payload` put in place of what stood strictly between
/// the markers: the text up to the end of the opening marker, the payload, and
/// the text from the closing marker on. It is the credential itself where the
/// region is absent.
pub open spec fn with_region(content: Seq<u8>, payload: Seq<u8>) -> Seq<u8> {
    match sync_region(content) {
        Some((s, e)) => content.take(s + sync_begin().len()) + payload + content.skip(e),
        None => content,
    }
}

/// The credential with the logging directive appended unless it already
/// occurs in it.
pub open spec fn with_logging(content: Seq<u8>) -> Seq<u8> {
    if occurs(content, logging_directive()) {
        content
    } else {
        content + logging_directive()
    }
}

/// The sync data that an attempted fetch yields: the body of a usable answer,
/// nothing where the fetch failed or its answer is not usable.
pub open spec fn sync_payload(fetched: Option<Response>) -> Option<Seq<u8>> {
    match fetched {
        Some(resp) => if resp.usable() {
            Some(resp.body@)
        } else {
            None
        },
        None => None,
    }
}

/// An existing credential after upkeep: the region replaced where sync data is
/// at hand, then the logging directive ensured.
pub open spec fn refreshed(content: Seq<u8>, payload: Option<Seq<u8>>) -> Seq<u8> {
    match payload {
        Some(p) => with_logging(with_region(content, p)),
        None => with_logging(content),
    }
}

/// Why a credential could not be obtained.
#[derive(Clone, Copy, Debug, PartialEq, Eq, Structural)]
pub enum CredentialError {
    /// The server did not answer the fetch with success.
    FetchFailed,
    /// The server's answer is not text.
    Undecodable,
}

impl CredentialError {
    /// The kind of launch error that this error amounts to: every credential
    /// error is an error of the network.
    pub fn kind(self) -> (r: ErrorKind)
        ensures
            r == ErrorKind::Network,
    {
        ErrorKind::Network
    }
}

/// What the credential manager has to do for a launch.
#[derive(Clone, Copy, Debug, PartialEq, Eq, Structural)]
pub enum CredentialPlan {
    /// No token: the client runs without a credential file.
    Anonymous,
    /// The credential file exists: read it and keep it up to date.
    Refresh,
    /// The credential file is missing: fetch it by token.
    Fetch,
}

/// Decides what to do about the credential, from the token and from whether
/// the token's credential file exists.
pub fn credential_plan(token: &str, file_exists: bool) -> (r: CredentialPlan)
    ensures
        r == if token@.len() == 0 {
            CredentialPlan::Anonymous
        } else if file_exists {
            CredentialPlan::Refresh
        } else {
            CredentialPlan::Fetch
        },
{
    if token.is_empty() {
        CredentialPlan::Anonymous
    } else if file_exists {
        CredentialPlan::Refresh
    } else {
        CredentialPlan::Fetch
    }
}

/// One step of obtaining what the credential manager needs from the server.
#[derive(Clone, Copy, Debug, PartialEq, Eq, Structural)]
pub enum CredentialStep {
    /// Show what is being done.
    Announce(StatusText),
    /// Fetch the sync data. A failure of this fetch is no error.
    FetchSyncData,
    /// Fetch the credential by the token.
    FetchCredential,
}

/// The fetches that a plan calls for. An existing credential gets its sync
/// data fetched only if it has an auto-sync region; a missing credential is
/// fetched; an anonymous launch fetches nothing.
pub open spec fn fetch_sequence(plan: CredentialPlan, has_region: bool) -> Seq<CredentialStep> {
    match plan {
        CredentialPlan::Anonymous => Seq::empty(),
        CredentialPlan::Refresh => if has_region {
            seq![
                CredentialStep::Announce(StatusText::UpdatingSyncData),
                CredentialStep::FetchSyncData,
            ]
        } else {
            Seq::empty()
        },
        CredentialPlan::Fetch => seq![
            CredentialStep::Announce(StatusText::FetchingCredential),
            CredentialStep::FetchCredential,
        ],
    }
}

/// The fetches to make for a launch. `content` is the text of the existing
/// credential; it counts only where the plan is to refresh it.
pub fn credential_steps(plan: CredentialPlan, content: &[u8]) -> (r: Vec<CredentialStep>)
    ensures
        r@ == fetch_sequence(plan, sync_region(content@) is Some),
{
    let mut steps: Vec<CredentialStep> = Vec::new();
    match plan {
        CredentialPlan::Anonymous => {},
        CredentialPlan::Refresh => {
            if locate_sync_region(content).is_some() {
                steps.push(CredentialStep::Announce(StatusText::UpdatingSyncData));
                steps.push(CredentialStep::FetchSyncData);
            }
        },
        CredentialPlan::Fetch => {
            steps.push(CredentialStep::Announce(StatusText::FetchingCredential));
            steps.push(CredentialStep::FetchCredential);
        },
    }
    assert(steps@ =~= fetch_sequence(plan, sync_region(content@) is Some));
    steps
}

/// Finds the auto-sync region of a credential.
pub fn locate_sync_region(content: &[u8]) -> (r: Option<(usize, usize)>)
    ensures
        match r {
            Some((s, e)) => sync_region(content@) == Some((s as int, e as int)),
            None => sync_region(content@) is None,
        },
{
    let begin = sync_begin_marker();
    match find(content, begin) {
        Some(s) => match find(content, sync_end_marker()) {
            Some(e) => if s < e {
                Some((s, e))
            } else {
                None
            },
            None => None,
        },
        None => None,
    }
}

/// Puts `payload` in place of what stands between the markers of `content`.
/// Returns the credential unchanged where it has no auto-sync region.
pub fn replace_sync_region(content: &[u8], payload: &[u8]) -> (r: Vec<u8>)
    ensures
        r@ == with_region(content@, payload@),
{
    let mut out: Vec<u8> = Vec::new();
    let len = content.len();
    match locate_sync_region(content) {
        Some((s, e)) => {
            proof {
                lemma_first_match_some(content@, sync_begin());
                lemma_first_match_some(content@, sync_end());
            }
            let keep = s + sync_begin_marker().len();
            out.extend_from_slice(slice_subrange(content, 0, keep));
            out.extend_from_slice(payload);
            out.extend_from_slice(slice_subrange(content, e, len));
            assert(out@ =~= content@.take(keep as int) + payload@ + content@.skip(e as int));
        },
        None => {
            out.extend_from_slice(content);
            assert(out@ =~= content@);
        },
    }
    out
}

/// Appends the logging directive to a credential unless it already occurs in
/// it.
pub fn ensure_logging_directive(content: &[u8]) -> (r: Vec<u8>)
    ensures
        r@ == with_logging(content@),
{
    let directive = logging_directive_bytes();
    let mut out: Vec<u8> = Vec::new();
    out.extend_from_slice(content);
    if !contains(content, directive) {
        out.extend_from_slice(directive);
        assert(out@ =~= content@ + logging_directive());
    } else {
        assert(out@ =~= content@);
    }
    out
}

/// The sync data in the answer to a fetch, if the fetch was answered with
/// success and with text.
pub fn usable_payload(fetched: &Option<Response>) -> (r: Option<&[u8]>)
    ensures
        match r {
            Some(p) => sync_payload(*fetched) == Some(p@),
            None => sync_payload(*fetched) is None,
        },
{
    match fetched {
        Some(resp) => {
            if resp.status == 200 && is_text(resp.body.as_slice()) {
                Some(resp.body.as_slice())
            } else {
                None
            }
        },
        None => None,
    }
}

/// Upkeep of an existing credential. `fetched` is the answer to the fetch of
/// sync data, `None` where the fetch failed or was not made. Returns the new
/// content where it differs from the old one and has to be persisted, and
/// `None` where nothing changed.
pub fn refresh_credential(content: &[u8], fetched: &Option<Response>) -> (r: Option<Vec<u8>>)
    ensures
        match r {
            Some(updated) => updated@ == refreshed(content@, sync_payload(*fetched)) && updated@
                != content@,
            None => refreshed(content@, sync_payload(*fetched)) == content@,
        },
{
    let updated = match usable_payload(fetched) {
        Some(p) => {
            let synced = replace_sync_region(content, p);
            ensure_logging_directive(synced.as_slice())
        },
        None => ensure_logging_directive(content),
    };
    if same_bytes(updated.as_slice(), content) {
        None
    } else {
        Some(updated)
    }
}

/// Turns the answer to a credential fetch into the credential to persist: the
/// body followed by the logging directive. An answer without success status
/// and an answer that is not text are errors.
pub fn accept_fetched(resp: &Response) -> (r: Result<Vec<u8>, CredentialError>)
    ensures
        match r {
            Ok(content) => resp.usable() && content@ == resp.body@ + logging_directive(),
            Err(CredentialError::FetchFailed) => resp.status != 200,
            Err(CredentialError::Undecodable) => resp.status == 200 && !valid_utf8(resp.body@),
        },
{
    if resp.status != 200 {
        return Err(CredentialError::FetchFailed);
    }
    if !is_text(resp.body.as_slice()) {
        return Err(CredentialError::Undecodable);
    }
    let mut out: Vec<u8> = Vec::new();
    out.extend_from_slice(resp.body.as_slice());
    out.extend_from_slice(logging_directive_bytes());
    assert(out@ =~= resp.body@ + logging_directive());
    Ok(out)
}

/// The sync data, once in place, would complete a closing marker before the
/// closing marker that was kept: the leftmost closing marker of the new
/// document starts after the start of the opening marker and before the
/// closing marker that was kept.
pub open spec fn payload_closes_region(content: Seq<u8>, payload: Seq<u8>) -> bool {
    match (sync_region(content), first_match(with_region(content, payload), sync_end())) {
        (Some((s, _)), Some(e1)) => s < e1 < s + sync_begin().len() + payload.len(),
        _ => false,
    }
}

/// Replacing the auto-sync region is idempotent: on a credential that has the
/// region, replacing it with the same data a second time changes nothing more,
/// unless the data completes a closing marker of its own.
pub proof fn lemma_sync_idempotent(content: Seq<u8>, payload: Seq<u8>)
    requires
        sync_region(content) is Some,
        !payload_closes_region(content, payload),
    ensures
        with_region(with_region(content, payload), payload) == with_region(content, payload),
{
    let begin = sync_begin();
    let end = sync_end();
    let (s, e) = sync_region(content)->0;
    let once = with_region(content, payload);
    let kept = s + begin.len();
    let close = kept + payload.len();
    lemma_first_match_some(content, begin);
    lemma_first_match_some(content, end);
    assert(once == content.take(kept) + payload + content.skip(e));
    // The opening marker still comes first at `s`.
    assert(once.subrange(s, s + begin.len()) =~= content.subrange(s, s + begin.len()));
    assert forall|j: int| 0 <= j < s implies !matches_at(once, begin, j) by {
        assert(once.subrange(j, j + begin.len()) =~= content.subrange(j, j + begin.len()));
        assert(!matches_at(content, begin, j));
    }
    lemma_first_match_is(once, begin, s);
    // The closing marker that was kept now starts at `close`.
    assert(once.subrange(close, close + end.len()) =~= content.subrange(e, e + end.len()));
    assert(matches_at(once, end, close));
    lemma_first_match_some(once, end);
    let e1 = first_match(once, end)->0;
    if e1 <= s {
        assert(sync_region(once) is None);
    } else {
        assert(e1 >= close);
        if e1 > close {
            assert(!matches_at(once, end, close));
        }
        assert(sync_region(once) == Some((s, close)));
        assert(once.take(kept) + payload + once.skip(close) =~= once);
    }
}

/// The bytes of the logging directive.
proof fn lemma_directive_bytes()
    ensures
        logging_directive() == seq![
            10u8, 108, 111, 103, 103, 105, 110, 103, 58, 10, 32, 32, 102, 111, 114, 109, 97, 116,
            58, 32, 106, 115, 111, 110,
        ],
{
    let lit = LOGGING_DIRECTIVE;
    reveal_strlit("\nlogging:\n  format: json");
    assert(vstd::utf8::is_ascii_chars(lit@));
    vstd::string::is_ascii_spec_bytes(lit);
    assert(logging_directive() =~= seq![
        10u8, 108, 111, 103, 103, 105, 110, 103, 58, 10, 32, 32, 102, 111, 114, 109, 97, 116, 58,
        32, 106, 115, 111, 110,
    ]);
}

/// The logging directive does not overlap a shifted copy of itself.
proof fn lemma_directive_no_overlap(k: int)
    requires
        1 <= k < logging_directive().len(),
        logging_directive()[k] == logging_directive()[0],
    ensures
        k + 1 < logging_directive().len(),
        logging_directive()[k + 1] != logging_directive()[1],
{
    lemma_directive_bytes();
    let d = logging_directive();
    assert(d.len() == 24);
    assert(d[0] == 10 && d[1] == 108 && d[9] == 10 && d[10] == 32);
    if k != 9 {
        assert(d[1] != 10 && d[2] != 10 && d[3] != 10 && d[4] != 10 && d[5] != 10 && d[6] != 10);
        assert(d[7] != 10 && d[8] != 10 && d[10] != 10 && d[11] != 10 && d[12] != 10);
        assert(d[13] != 10 && d[14] != 10 && d[15] != 10 && d[16] != 10 && d[17] != 10);
        assert(d[18] != 10 && d[19] != 10 && d[20] != 10 && d[21] != 10 && d[22] != 10);
        assert(d[23] != 10);
    }
}

/// Ensuring the logging directive is idempotent, and it never yields two
/// copies: a credential that lacks the directive has it exactly once
/// afterwards, at its end, however often the directive is ensured.
pub proof fn lemma_logging_once(content: Seq<u8>)
    ensures
        with_logging(with_logging(content)) == with_logging(content),
        !occurs(content, logging_directive()) ==> {
            &&& with_logging(content) == content + logging_directive()
            &&& forall|i: int| #[trigger]
                matches_at(with_logging(content), logging_directive(), i) <==> i == content.len()
        },
{
    let d = logging_directive();
    let once = content + d;
    let n = content.len() as int;
    assert(once.subrange(n, n + d.len()) =~= d);
    assert(matches_at(once, d, n));
    if !occurs(content, d) {
        assert forall|i: int| #[trigger] matches_at(once, d, i) implies i == n by {
            if i < n {
                let k = n - i;
                if k >= d.len() {
                    assert(once.subrange(i, i + d.len()) =~= content.subrange(i, i + d.len()));
                    assert(matches_at(content, d, i));
                } else {
                    // The copy would overlap the appended one by `k` bytes, so
                    // the directive would repeat itself after `k` bytes.
                    assert(once.subrange(i, i + d.len())[k] == once[n]);
                    assert(d[k] == d[0]);
                    lemma_directive_no_overlap(k);
                    assert(once.subrange(i, i + d.len())[k + 1] == once[n + 1]);
                    assert(d[k + 1] == d[1]);
                }
            }
        }
    }
}

/// Both markers end with a hyphen.
proof fn lemma_marker_ends()
    ensures
        sync_begin().len() > 0,
        sync_begin().last() == 45,
        sync_end().len() > 0,
        sync_end().last() == 45,
{
    reveal_strlit("# --------------------------------------------------------------------------------------\n#                        WARNING >>> AUTO SYNC AREA\n# --------------------------------------------------------------------------------------");
    reveal_strlit("# --------------------------------------------------------------------------------------\n#                        WARNING <<< AUTO SYNC AREA\n# --------------------------------------------------------------------------------------");
    assert(vstd::utf8::is_ascii_chars(SYNC_BEGIN@));
    assert(vstd::utf8::is_ascii_chars(SYNC_END@));
    vstd::string::is_ascii_spec_bytes(SYNC_BEGIN);
    vstd::string::is_ascii_spec_bytes(SYNC_END);
}

/// The logging directive holds no hyphen.
proof fn lemma_directive_has_no_hyphen()
    ensures
        forall|i: int| 0 <= i < logging_directive().len() ==> logging_directive()[i] != 45,
{
    lemma_directive_bytes();
    let d = logging_directive();
    assert(d.len() == 24);
    assert(d[0] != 45 && d[1] != 45 && d[2] != 45 && d[3] != 45 && d[4] != 45 && d[5] != 45);
    assert(d[6] != 45 && d[7] != 45 && d[8] != 45 && d[9] != 45 && d[10] != 45 && d[11] != 45);
    assert(d[12] != 45 && d[13] != 45 && d[14] != 45 && d[15] != 45 && d[16] != 45);
    assert(d[17] != 45 && d[18] != 45 && d[19] != 45 && d[20] != 45 && d[21] != 45);
    assert(d[22] != 45 && d[23] != 45);
}

/// The logging directive appended behind a credential leaves its auto-sync
/// region where it was, and so commutes with the replacement of the region.
proof fn lemma_directive_keeps_region(content: Seq<u8>, payload: Seq<u8>)
    ensures
        sync_region(content + logging_directive()) == sync_region(content),
        with_region(content + logging_directive(), payload) == with_region(content, payload)
            + logging_directive(),
{
    let d = logging_directive();
    lemma_marker_ends();
    lemma_directive_has_no_hyphen();
    lemma_append_keeps_first_match(content, d, sync_begin());
    lemma_append_keeps_first_match(content, d, sync_end());
    match sync_region(content) {
        Some((s, e)) => {
            lemma_first_match_some(content, sync_begin());
            lemma_first_match_some(content, sync_end());
            let kept = s + sync_begin().len();
            assert((content + d).take(kept) =~= content.take(kept));
            assert((content + d).skip(e) =~= content.skip(e) + d);
            assert(content.take(kept) + payload + (content.skip(e) + d) =~= content.take(kept)
                + payload + content.skip(e) + d);
        },
        None => {},
    }
}

/// The upkeep of a credential is idempotent: what one upkeep leaves, a second
/// upkeep with the same outcome of the fetch leaves as it is. With sync data
/// this holds unless the data completes a closing marker of its own.
pub proof fn lemma_refresh_idempotent(content: Seq<u8>, payload: Option<Seq<u8>>)
    requires
        payload matches Some(p) ==> !payload_closes_region(content, p),
    ensures
        refreshed(refreshed(content, payload), payload) == refreshed(content, payload),
{
    match payload {
        Some(p) => {
            let once = with_region(content, p);
            if sync_region(content) is Some {
                lemma_sync_idempotent(content, p);
            }
            assert(with_region(once, p) == once);
            lemma_logging_once(once);
            if !occurs(once, logging_directive()) {
                lemma_directive_keeps_region(once, p);
            }
        },
        None => {
            lemma_logging_once(content);
        },
    }
}

} // verus!

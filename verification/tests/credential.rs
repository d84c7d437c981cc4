use hiper_supervisor::credential::{
    accept_fetched, credential_plan, credential_steps, ensure_logging_directive,
    locate_sync_region, logging_directive_bytes, refresh_credential, replace_sync_region,
    sync_begin_marker, sync_end_marker, usable_payload, CredentialError, CredentialPlan,
    CredentialStep,
};
use hiper_supervisor::status::StatusText;
use hiper_supervisor::endpoints::Response;

fn document(before: &[u8], between: &[u8], after: &[u8]) -> Vec<u8> {
    let mut text = before.to_vec();
    text.extend_from_slice(sync_begin_marker());
    text.extend_from_slice(between);
    text.extend_from_slice(sync_end_marker());
    text.extend_from_slice(after);
    text
}

#[test]
fn markers_are_three_lines_each() {
    let begin = sync_begin_marker();
    let end = sync_end_marker();
    assert_eq!(begin.len(), 229);
    assert_eq!(end.len(), 229);
    assert_eq!(begin.iter().filter(|b| **b == b'\n').count(), 2);
    assert!(begin.starts_with(b"# ------"));
    assert!(begin.ends_with(b"------"));
    assert!(String::from_utf8_lossy(begin).contains("#                        WARNING >>> AUTO SYNC AREA\n"));
    assert!(String::from_utf8_lossy(end).contains("#                        WARNING <<< AUTO SYNC AREA\n"));
    assert_ne!(begin, end);
}

#[test]
fn logging_directive_text() {
    assert_eq!(logging_directive_bytes(), b"\nlogging:\n  format: json");
    assert_eq!(logging_directive_bytes().len(), 24);
}

#[test]
fn region_is_found_between_the_markers() {
    let text = document(b"head\n", b"\nold\n", b"\ntail");
    assert_eq!(locate_sync_region(&text), Some((5, 5 + 229 + 5)));
}

#[test]
fn region_is_absent_without_both_markers() {
    assert_eq!(locate_sync_region(b"plain text"), None);
    let mut only_begin = b"a".to_vec();
    only_begin.extend_from_slice(sync_begin_marker());
    assert_eq!(locate_sync_region(&only_begin), None);
    let mut only_end = b"a".to_vec();
    only_end.extend_from_slice(sync_end_marker());
    assert_eq!(locate_sync_region(&only_end), None);
}

#[test]
fn region_is_absent_when_the_end_marker_comes_first() {
    let mut text = b"x".to_vec();
    text.extend_from_slice(sync_end_marker());
    text.extend_from_slice(b"middle");
    text.extend_from_slice(sync_begin_marker());
    assert_eq!(locate_sync_region(&text), None);
    assert_eq!(replace_sync_region(&text, b"new"), text);
}

#[test]
fn markers_that_share_a_line_still_make_a_region() {
    let mut text = sync_begin_marker().to_vec();
    text.extend_from_slice(&sync_end_marker()[88..]);
    assert_eq!(text.len(), 229 + 141);
    assert_eq!(locate_sync_region(&text), Some((0, 141)));
    assert_eq!(
        credential_steps(CredentialPlan::Refresh, &text),
        vec![CredentialStep::Announce(StatusText::UpdatingSyncData), CredentialStep::FetchSyncData]
    );
    let replaced = replace_sync_region(&text, b"\nnew\n");
    assert_eq!(replaced, document(b"", b"\nnew\n", b""));
    assert_eq!(locate_sync_region(&replaced), Some((0, 229 + 5)));
    assert_eq!(replace_sync_region(&replaced, b"\nnew\n"), replaced);
}

#[test]
fn upkeep_of_markers_that_share_a_line() {
    let mut text = b"head\n".to_vec();
    text.extend_from_slice(sync_begin_marker());
    text.extend_from_slice(&sync_end_marker()[88..]);
    text.extend_from_slice(b"\ntail");
    let fetched = Some(Response { status: 200, body: b"\ndata\n".to_vec() });
    let mut expected = document(b"head\n", b"\ndata\n", b"\ntail");
    expected.extend_from_slice(b"\nlogging:\n  format: json");
    let once = refresh_credential(&text, &fetched);
    assert_eq!(once, Some(expected.clone()));
    assert_eq!(refresh_credential(&expected, &fetched), None);
}

#[test]
fn replacing_keeps_the_markers_and_the_rest() {
    let text = document(b"head\n", b"\nold data\n", b"\ntail");
    let replaced = replace_sync_region(&text, b"\nnew\n");
    assert_eq!(replaced, document(b"head\n", b"\nnew\n", b"\ntail"));
}

#[test]
fn replacing_an_empty_region() {
    let text = document(b"", b"", b"");
    assert_eq!(locate_sync_region(&text), Some((0, 229)));
    assert_eq!(replace_sync_region(&text, b"data"), document(b"", b"data", b""));
}

#[test]
fn replacing_twice_with_the_same_data_changes_nothing_more() {
    let text = document(b"a: 1\n", b"\nold\n", b"\nb: 2\n");
    let once = replace_sync_region(&text, b"\npoints:\n  - 1.2.3.4\n");
    let twice = replace_sync_region(&once, b"\npoints:\n  - 1.2.3.4\n");
    assert_eq!(twice, once);
}

#[test]
fn data_that_closes_the_region_itself_is_not_idempotent() {
    let text = document(b"", b"", b"");
    let mut data = sync_end_marker().to_vec();
    data.push(b'x');
    let once = replace_sync_region(&text, &data);
    let twice = replace_sync_region(&once, &data);
    assert_ne!(twice, once);
    assert_eq!(twice.len(), once.len() + data.len());
}

#[test]
fn without_region_nothing_is_replaced() {
    assert_eq!(replace_sync_region(b"no markers here", b"data"), b"no markers here".to_vec());
}

#[test]
fn logging_directive_is_appended_once() {
    let once = ensure_logging_directive(b"name: demo");
    assert_eq!(once, b"name: demo\nlogging:\n  format: json".to_vec());
    let twice = ensure_logging_directive(&once);
    assert_eq!(twice, once);
    let text = String::from_utf8(twice).unwrap();
    assert_eq!(text.matches("\nlogging:\n  format: json").count(), 1);
}

#[test]
fn logging_directive_in_the_middle_counts() {
    let text = b"a: 1\nlogging:\n  format: json\nb: 2\n";
    assert_eq!(ensure_logging_directive(text), text.to_vec());
}

#[test]
fn logging_directive_on_empty_document() {
    assert_eq!(ensure_logging_directive(b""), b"\nlogging:\n  format: json".to_vec());
}

#[test]
fn plan_by_token_and_file() {
    assert_eq!(credential_plan("", false), CredentialPlan::Anonymous);
    assert_eq!(credential_plan("", true), CredentialPlan::Anonymous);
    assert_eq!(credential_plan("tok", true), CredentialPlan::Refresh);
    assert_eq!(credential_plan("tok", false), CredentialPlan::Fetch);
}

#[test]
fn fetches_by_plan() {
    let with_region = document(b"a\n", b"x", b"\nb");
    assert_eq!(
        credential_steps(CredentialPlan::Refresh, &with_region),
        vec![CredentialStep::Announce(StatusText::UpdatingSyncData), CredentialStep::FetchSyncData]
    );
    assert_eq!(credential_steps(CredentialPlan::Refresh, b"no region"), vec![]);
    assert_eq!(
        credential_steps(CredentialPlan::Fetch, b""),
        vec![
            CredentialStep::Announce(StatusText::FetchingCredential),
            CredentialStep::FetchCredential,
        ]
    );
    assert_eq!(credential_steps(CredentialPlan::Anonymous, &with_region), vec![]);
}

#[test]
fn payload_needs_success_and_text() {
    let good = Some(Response { status: 200, body: b"data".to_vec() });
    assert_eq!(usable_payload(&good), Some(&b"data"[..]));
    let missing = Some(Response { status: 404, body: b"data".to_vec() });
    assert_eq!(usable_payload(&missing), None);
    let binary = Some(Response { status: 200, body: vec![0xff, 0xfe, 0x00] });
    assert_eq!(usable_payload(&binary), None);
    assert_eq!(usable_payload(&None), None);
}

#[test]
fn refresh_replaces_region_and_adds_directive() {
    let text = document(b"head\n", b"old", b"\ntail");
    let fetched = Some(Response { status: 200, body: b"new".to_vec() });
    let mut expected = document(b"head\n", b"new", b"\ntail");
    expected.extend_from_slice(b"\nlogging:\n  format: json");
    assert_eq!(refresh_credential(&text, &fetched), Some(expected));
}

#[test]
fn refresh_without_fetch_only_adds_directive() {
    let text = document(b"head\n", b"old", b"\ntail");
    let mut expected = text.clone();
    expected.extend_from_slice(b"\nlogging:\n  format: json");
    assert_eq!(refresh_credential(&text, &None), Some(expected.clone()));
    let failed = Some(Response { status: 500, body: b"new".to_vec() });
    assert_eq!(refresh_credential(&text, &failed), Some(expected));
}

#[test]
fn refresh_reports_no_change() {
    let mut text = document(b"head\n", b"same", b"\ntail");
    text.extend_from_slice(b"\nlogging:\n  format: json");
    let fetched = Some(Response { status: 200, body: b"same".to_vec() });
    assert_eq!(refresh_credential(&text, &fetched), None);
    assert_eq!(refresh_credential(&text, &None), None);
}

#[test]
fn refresh_is_stable_once_applied() {
    let text = document(b"head\n", b"old", b"\ntail");
    let fetched = Some(Response { status: 200, body: b"new".to_vec() });
    let once = refresh_credential(&text, &fetched).unwrap();
    assert_eq!(refresh_credential(&once, &fetched), None);
}

#[test]
fn fetched_credential_gets_the_directive() {
    let resp = Response { status: 200, body: b"pki:\n  ca: x\n".to_vec() };
    assert_eq!(accept_fetched(&resp), Ok(b"pki:\n  ca: x\n\nlogging:\n  format: json".to_vec()));
}

#[test]
fn fetched_credential_gets_the_directive_unconditionally() {
    let resp = Response { status: 200, body: b"a\nlogging:\n  format: json".to_vec() };
    assert_eq!(
        accept_fetched(&resp),
        Ok(b"a\nlogging:\n  format: json\nlogging:\n  format: json".to_vec())
    );
}

#[test]
fn fetch_without_success_fails() {
    let resp = Response { status: 404, body: b"not found".to_vec() };
    assert_eq!(accept_fetched(&resp), Err(CredentialError::FetchFailed));
    let resp = Response { status: 500, body: vec![0xff] };
    assert_eq!(accept_fetched(&resp), Err(CredentialError::FetchFailed));
}

#[test]
fn fetch_with_undecodable_body_fails() {
    let resp = Response { status: 200, body: vec![b'a', 0xc3, 0x28] };
    assert_eq!(accept_fetched(&resp), Err(CredentialError::Undecodable));
}

#[test]
fn fetch_with_non_ascii_text_is_accepted() {
    let resp = Response { status: 200, body: "名: 奶茶".as_bytes().to_vec() };
    let mut expected = "名: 奶茶".as_bytes().to_vec();
    expected.extend_from_slice(b"\nlogging:\n  format: json");
    assert_eq!(accept_fetched(&resp), Ok(expected));
}

use hiper_supervisor::endpoints::Response;
use hiper_supervisor::manifest::{
    binary_is_stale, lookup_hash, manifest_text, plan_steps, plan_update, replace_steps,
    update_needed, UpdatePlan, UpdateStep,
};
use hiper_supervisor::registry::ProcessRegistry;
use hiper_supervisor::status::StatusText;

#[test]
fn same_hash_means_no_download() {
    let manifest = b"abc123  x86_64/binary-name";
    assert!(!update_needed(manifest, b"x86_64", b"binary-name", b"abc123"));
    assert_eq!(replace_steps(false), vec![]);
}

#[test]
fn differing_hash_means_one_download_and_replace() {
    let manifest = b"abc123  x86_64/binary-name";
    let stale = update_needed(manifest, b"x86_64", b"binary-name", b"def456");
    assert!(stale);
    let steps = replace_steps(stale);
    assert_eq!(
        steps,
        vec![
            UpdateStep::Announce(StatusText::Updating),
            UpdateStep::FetchBinary,
            UpdateStep::ReplaceBinary,
        ]
    );
    assert_eq!(steps.iter().filter(|s| **s == UpdateStep::FetchBinary).count(), 1);
    assert_eq!(steps.iter().filter(|s| **s == UpdateStep::ReplaceBinary).count(), 1);
}

#[test]
fn no_matching_line_means_up_to_date() {
    let manifest = b"abc123  arm64/binary-name\nfff  x86_64/other\n";
    assert_eq!(lookup_hash(manifest, b"x86_64", b"binary-name"), None);
    assert!(!update_needed(manifest, b"x86_64", b"binary-name", b"whatever"));
    assert!(!update_needed(b"", b"x86_64", b"binary-name", b"whatever"));
}

#[test]
fn the_first_matching_line_wins() {
    let manifest = b"111  arm64/hiper\n222  x86_64/hiper.exe\n333  x86_64/hiper\n444  x86_64/hiper\n";
    assert_eq!(lookup_hash(manifest, b"x86_64", b"hiper"), Some(&b"333"[..]));
    assert_eq!(lookup_hash(manifest, b"x86_64", b"hiper.exe"), Some(&b"222"[..]));
    assert_eq!(lookup_hash(manifest, b"arm64", b"hiper"), Some(&b"111"[..]));
    assert!(!update_needed(manifest, b"x86_64", b"hiper", b"333"));
    assert!(update_needed(manifest, b"x86_64", b"hiper", b"444"));
}

#[test]
fn lines_without_separator_are_skipped() {
    let manifest = b"garbage\n\nabc x86_64/hiper\nabc  x86_64/hiper";
    assert_eq!(lookup_hash(manifest, b"x86_64", b"hiper"), Some(&b"abc"[..]));
}

#[test]
fn the_entry_splits_at_the_first_separator() {
    assert_eq!(lookup_hash(b"ab  x86_64/a  b/hiper", b"x86_64", b"hiper"), Some(&b"ab"[..]));
    assert_eq!(lookup_hash(b"ab   x86_64/hiper", b"x86_64", b"hiper"), None);
    assert_eq!(lookup_hash(b"ab   x86_64/hiper", b" x86_64", b"hiper"), Some(&b"ab"[..]));
}

#[test]
fn the_path_must_start_with_the_architecture_and_end_with_the_name() {
    assert_eq!(lookup_hash(b"h  bin/x86_64/hiper", b"x86_64", b"hiper"), None);
    assert_eq!(lookup_hash(b"h  x86_64/hiper\r\n", b"x86_64", b"hiper"), None);
    assert_eq!(lookup_hash(b"h  x86_64/hiper\n", b"x86_64", b"hiper"), Some(&b"h"[..]));
    assert_eq!(lookup_hash(b"h  x86_64hiper", b"x86_64", b"hiper"), Some(&b"h"[..]));
}

#[test]
fn the_local_file_is_hashed_with_sha1() {
    let manifest = b"a9993e364706816aba3e25717850c26c9cd0d89d  x86_64/hiper\n";
    assert!(!binary_is_stale(b"abc", manifest, b"x86_64", b"hiper"));
    assert!(binary_is_stale(b"abd", manifest, b"x86_64", b"hiper"));
    let empty = b"da39a3ee5e6b4b0d3255bfef95601890afd80709  x86_64/hiper\n";
    assert!(!binary_is_stale(b"", empty, b"x86_64", b"hiper"));
    assert!(binary_is_stale(b"abc", empty, b"x86_64", b"hiper"));
    assert!(binary_is_stale(b"abc", b"abc  x86_64/hiper\n", b"x86_64", b"hiper"));
    assert!(!binary_is_stale(b"abc", manifest, b"arm64", b"hiper"));
}

#[test]
fn the_hash_is_compared_as_written() {
    let manifest = b"A9993E364706816ABA3E25717850C26C9CD0D89D  x86_64/hiper\n";
    assert!(binary_is_stale(b"abc", manifest, b"x86_64", b"hiper"));
}

#[test]
fn the_update_check_runs_once_per_run() {
    let mut registry = ProcessRegistry::new();
    assert_eq!(plan_update(&mut registry, true), UpdatePlan::Compare);
    assert_eq!(plan_update(&mut registry, true), UpdatePlan::Skip);
    assert_eq!(plan_update(&mut registry, false), UpdatePlan::Skip);
    let mut registry = ProcessRegistry::new();
    assert_eq!(plan_update(&mut registry, false), UpdatePlan::Install);
    assert_eq!(plan_update(&mut registry, false), UpdatePlan::Skip);
}

#[test]
fn a_skipped_check_does_nothing() {
    assert_eq!(plan_steps(UpdatePlan::Skip, true), vec![]);
    assert_eq!(plan_steps(UpdatePlan::Skip, false), vec![]);
}

#[test]
fn comparing_begins_with_the_manifest() {
    assert_eq!(
        plan_steps(UpdatePlan::Compare, true),
        vec![UpdateStep::Announce(StatusText::CheckingForUpdate), UpdateStep::FetchManifest]
    );
}

#[test]
fn installing_sets_the_permission_on_posix_only() {
    assert_eq!(
        plan_steps(UpdatePlan::Install, true),
        vec![
            UpdateStep::Announce(StatusText::Installing),
            UpdateStep::FetchBinary,
            UpdateStep::ReplaceBinary,
            UpdateStep::MakeExecutable,
        ]
    );
    assert_eq!(
        plan_steps(UpdatePlan::Install, false),
        vec![
            UpdateStep::Announce(StatusText::Installing),
            UpdateStep::FetchBinary,
            UpdateStep::ReplaceBinary,
        ]
    );
}

#[test]
fn the_manifest_must_be_text() {
    let answer = Response { status: 200, body: b"abc  x86_64/hiper\n".to_vec() };
    assert_eq!(manifest_text(&answer), Some(&b"abc  x86_64/hiper\n"[..]));
    let answer = Response { status: 404, body: b"abc  x86_64/hiper\n".to_vec() };
    assert_eq!(manifest_text(&answer), Some(&b"abc  x86_64/hiper\n"[..]));
    let answer = Response { status: 200, body: vec![b'a', 0xff, b'b'] };
    assert_eq!(manifest_text(&answer), None);
}

use lsp_core::server::{exit_code, format_response, get_final_position, ChangeOutcome, LogSeverity,
    RequestRejection, ServerBackend};
use lsp_core::text::{ContentChange, Position, TextRange};
use lsp_core::vfs::Vfs;

fn chars(s: &str) -> Vec<char> {
    s.chars().collect()
}

fn backend() -> ServerBackend {
    ServerBackend::new(Vfs::new())
}

fn full_change(text: &str) -> ContentChange {
    ContentChange { range: None, text: chars(text) }
}

fn range_change(sl: u64, sc: u64, el: u64, ec: u64, text: &str) -> ContentChange {
    ContentChange {
        range: Some(TextRange {
            start: Position { line: sl, character: sc },
            end: Position { line: el, character: ec },
        }),
        text: chars(text),
    }
}

#[test]
fn open_sets_version_zero_and_text() {
    let mut b = backend();
    let uri = chars("file:///a.src");
    b.did_open(&uri, &chars("hello"));
    assert_eq!(b.open_document_text(&uri), Some(chars("hello")));
    assert_eq!(b.vfs.document_version(&uri), Some(0));
}

#[test]
fn change_with_matching_version_applies() {
    let mut b = backend();
    let uri = chars("file:///a.src");
    b.did_open(&uri, &chars("hello"));
    let outcome = b.did_change(&uri, Some(0), &vec![full_change("world")]);
    assert_eq!(outcome, ChangeOutcome::Applied { new_version: 1 });
    assert_eq!(b.open_document_text(&uri), Some(chars("world")));
    assert_eq!(b.vfs.document_version(&uri), Some(1));
}

#[test]
fn range_change_splices_utf16_span() {
    let mut b = backend();
    let uri = chars("file:///a.src");
    b.did_open(&uri, &chars("a😀b\ncd"));
    // The emoji occupies UTF-16 units 1 and 2 of line 0.
    let outcome = b.did_change(&uri, Some(0), &vec![range_change(0, 1, 0, 3, "X")]);
    assert_eq!(outcome, ChangeOutcome::Applied { new_version: 1 });
    assert_eq!(b.open_document_text(&uri), Some(chars("aXb\ncd")));
}

#[test]
fn range_change_on_second_line() {
    let mut b = backend();
    let uri = chars("file:///a.src");
    b.did_open(&uri, &chars("ab\ncd"));
    let outcome = b.did_change(&uri, Some(0), &vec![range_change(1, 0, 1, 1, "X")]);
    assert_eq!(outcome, ChangeOutcome::Applied { new_version: 1 });
    assert_eq!(b.open_document_text(&uri), Some(chars("ab\nXd")));
}

#[test]
fn range_past_end_clamps_to_end() {
    let mut b = backend();
    let uri = chars("file:///a.src");
    b.did_open(&uri, &chars("ab"));
    let outcome = b.did_change(&uri, Some(0), &vec![range_change(5, 0, 7, 0, "!")]);
    assert_eq!(outcome, ChangeOutcome::Applied { new_version: 1 });
    assert_eq!(b.open_document_text(&uri), Some(chars("ab!")));
}

#[test]
fn surrogate_pair_is_not_split() {
    let mut b = backend();
    let uri = chars("file:///a.src");
    b.did_open(&uri, &chars("😀b"));
    // A start position inside the emoji's surrogate pair resolves to the
    // position before it; the end consumes the pair and the letter.
    let outcome = b.did_change(&uri, Some(0), &vec![range_change(0, 1, 0, 3, "X")]);
    assert_eq!(outcome, ChangeOutcome::Applied { new_version: 1 });
    assert_eq!(b.open_document_text(&uri), Some(chars("X")));
}

#[test]
fn evicting_one_of_many_keeps_the_rest() {
    let mut b = backend();
    let u1 = chars("file:///1.src");
    let u2 = chars("file:///2.src");
    let u3 = chars("file:///3.src");
    b.did_open(&u1, &chars("one"));
    b.did_open(&u2, &chars("two"));
    b.did_open(&u3, &chars("three"));
    b.did_close(&u2);
    assert_eq!(b.open_document_text(&u1), Some(chars("one")));
    assert_eq!(b.open_document_text(&u2), None);
    assert_eq!(b.open_document_text(&u3), Some(chars("three")));
}

#[test]
fn changes_in_one_notification_apply_in_order() {
    let mut b = backend();
    let uri = chars("file:///a.src");
    b.did_open(&uri, &chars(""));
    let cs = vec![full_change("abc"), range_change(0, 1, 0, 2, "X")];
    let outcome = b.did_change(&uri, Some(0), &cs);
    assert_eq!(outcome, ChangeOutcome::Applied { new_version: 1 });
    assert_eq!(b.open_document_text(&uri), Some(chars("aXc")));
    assert_eq!(b.vfs.document_version(&uri), Some(1));
}

#[test]
fn in_order_versions_all_apply() {
    let mut b = backend();
    let uri = chars("file:///a.src");
    b.did_open(&uri, &chars(""));
    assert_eq!(
        b.did_change(&uri, Some(0), &vec![full_change("a")]),
        ChangeOutcome::Applied { new_version: 1 }
    );
    assert_eq!(
        b.did_change(&uri, Some(1), &vec![full_change("ab")]),
        ChangeOutcome::Applied { new_version: 2 }
    );
    assert_eq!(
        b.did_change(&uri, Some(2), &vec![full_change("abc")]),
        ChangeOutcome::Applied { new_version: 3 }
    );
    assert_eq!(b.vfs.document_version(&uri), Some(3));
    assert_eq!(b.open_document_text(&uri), Some(chars("abc")));
}

#[test]
fn version_gap_is_fatal_desynchronization() {
    let mut b = backend();
    let uri = chars("file:///a.src");
    b.did_open(&uri, &chars(""));
    assert_eq!(
        b.did_change(&uri, Some(0), &vec![full_change("a")]),
        ChangeOutcome::Applied { new_version: 1 }
    );
    let outcome = b.did_change(&uri, Some(2), &vec![full_change("skipped")]);
    assert_eq!(outcome, ChangeOutcome::Desynchronized { server_version: 1, client_version: 2 });
    assert!(outcome.is_fatal());
    assert_eq!(outcome.log_severity(), Some(LogSeverity::Error));
    // No mutation took place.
    assert_eq!(b.open_document_text(&uri), Some(chars("a")));
    assert_eq!(b.vfs.document_version(&uri), Some(1));
}

#[test]
fn stale_version_is_skipped_with_info_log() {
    let mut b = backend();
    let uri = chars("file:///a.src");
    b.did_open(&uri, &chars(""));
    for v in 0u64..5 {
        assert_eq!(
            b.did_change(&uri, Some(v), &vec![full_change("x")]),
            ChangeOutcome::Applied { new_version: v + 1 }
        );
    }
    assert_eq!(b.vfs.document_version(&uri), Some(5));
    let outcome = b.did_change(&uri, Some(3), &vec![full_change("stale")]);
    assert_eq!(outcome, ChangeOutcome::Stale { server_version: 5, client_version: 3 });
    assert!(!outcome.is_fatal());
    assert_eq!(outcome.log_severity(), Some(LogSeverity::Info));
    assert_eq!(b.vfs.document_version(&uri), Some(5));
    assert_eq!(b.open_document_text(&uri), Some(chars("x")));
}

#[test]
fn null_version_is_fatal() {
    let mut b = backend();
    let uri = chars("file:///a.src");
    b.did_open(&uri, &chars("keep"));
    let outcome = b.did_change(&uri, None, &vec![full_change("gone")]);
    assert_eq!(outcome, ChangeOutcome::NullVersion);
    assert!(outcome.is_fatal());
    assert_eq!(outcome.log_severity(), Some(LogSeverity::Error));
    assert_eq!(b.open_document_text(&uri), Some(chars("keep")));
    assert_eq!(b.vfs.document_version(&uri), Some(0));
}

#[test]
fn change_on_unopened_document_warns_and_creates_nothing() {
    let mut b = backend();
    let uri = chars("file:///a.src");
    let outcome = b.did_change(&uri, Some(0), &vec![full_change("x")]);
    assert_eq!(outcome, ChangeOutcome::NotOpen);
    assert!(!outcome.is_fatal());
    assert_eq!(outcome.log_severity(), Some(LogSeverity::Warning));
    assert_eq!(b.open_document_text(&uri), None);
}

#[test]
fn close_evicts_and_never_fails() {
    let mut b = backend();
    let uri = chars("file:///a.src");
    b.did_open(&uri, &chars("x"));
    b.did_close(&uri);
    assert_eq!(b.open_document_text(&uri), None);
    assert_eq!(b.did_change(&uri, Some(1), &vec![full_change("y")]), ChangeOutcome::NotOpen);
    // Closing an absent URI is a no-op.
    b.did_close(&uri);
    assert_eq!(b.open_document_text(&uri), None);
}

#[test]
fn reopen_replaces_prior_document() {
    let mut b = backend();
    let uri = chars("file:///a.src");
    b.did_open(&uri, &chars("first"));
    assert_eq!(
        b.did_change(&uri, Some(0), &vec![full_change("edited")]),
        ChangeOutcome::Applied { new_version: 1 }
    );
    b.did_open(&uri, &chars("second"));
    assert_eq!(b.vfs.document_version(&uri), Some(0));
    assert_eq!(b.open_document_text(&uri), Some(chars("second")));
}

#[test]
fn documents_are_independent() {
    let mut b = backend();
    let a = chars("file:///a.src");
    let c = chars("file:///c.src");
    b.did_open(&a, &chars("aaa"));
    b.did_open(&c, &chars("ccc"));
    assert_eq!(
        b.did_change(&a, Some(0), &vec![full_change("AAA")]),
        ChangeOutcome::Applied { new_version: 1 }
    );
    assert_eq!(b.open_document_text(&c), Some(chars("ccc")));
    assert_eq!(b.vfs.document_version(&c), Some(0));
    b.did_close(&a);
    assert_eq!(b.open_document_text(&c), Some(chars("ccc")));
}

#[test]
fn initialize_advertises_formatting() {
    let b = backend();
    let caps = b.initialize();
    assert!(caps.document_formatting_provider);
}

#[test]
fn canonical_text_formats_to_empty_edit_list() {
    let src = chars("fn x\n");
    let r = format_response(&src, Ok(chars("fn x\n")));
    assert_eq!(r, Ok(vec![]));
}

#[test]
fn changed_text_formats_to_one_full_document_edit() {
    let src = chars("a");
    let formatted = chars("b\nccc");
    let r = format_response(&src, Ok(formatted.clone())).unwrap();
    assert_eq!(r.len(), 1);
    assert_eq!(r[0].range.start, Position { line: 0, character: 0 });
    assert_eq!(r[0].range.end, Position { line: 1, character: 3 });
    assert_eq!(r[0].new_text, formatted);
}

#[test]
fn parse_failure_surfaces_the_message() {
    let src = chars("fn (");
    let r = format_response(&src, Err(chars("Parse error")));
    assert_eq!(r, Err(chars("Parse error")));
}

#[test]
fn end_position_counts_utf16_units() {
    let formatted = chars("😀x");
    let r = format_response(&chars(""), Ok(formatted)).unwrap();
    assert_eq!(r[0].range.end, Position { line: 0, character: 3 });
}

#[test]
fn final_position_cases() {
    assert_eq!(get_final_position(&chars("")), Position { line: 0, character: 0 });
    assert_eq!(get_final_position(&chars("a\n")), Position { line: 1, character: 0 });
    assert_eq!(get_final_position(&chars("a\nbc")), Position { line: 1, character: 2 });
}

#[test]
fn unopened_uri_formats_from_disk_text() {
    // The driver falls back to the file on disk when the registry has no
    // entry; the decision and the response are the library's.
    let b = backend();
    let uri = chars("file:///on_disk.src");
    assert_eq!(b.open_document_text(&uri), None);
    let disk = chars("x =1\n");
    let canonical = chars("x = 1\n");
    let r = format_response(&disk, Ok(canonical.clone())).unwrap();
    assert_eq!(r.len(), 1);
    assert_eq!(r[0].range.start, Position { line: 0, character: 0 });
    assert_eq!(r[0].new_text, canonical);
    // Canonical on-disk text yields the empty list.
    let r2 = format_response(&canonical, Ok(canonical.clone())).unwrap();
    assert!(r2.is_empty());
}

#[test]
fn shutdown_then_closure_is_clean_exit() {
    let mut b = backend();
    assert_eq!(b.shutdown(true), Ok(()));
    assert!(b.did_shutdown);
    assert_eq!(exit_code(b.did_shutdown), 0);
}

#[test]
fn closure_without_shutdown_is_abnormal_exit() {
    let b = backend();
    assert!(!b.did_shutdown);
    assert_eq!(exit_code(b.did_shutdown), 1);
}

#[test]
fn contended_shutdown_is_rejected_without_blocking() {
    let mut b = backend();
    let r = b.shutdown(false);
    assert_eq!(r, Err(RequestRejection::ShutdownContention));
    assert!(!b.did_shutdown);
    assert_eq!(exit_code(b.did_shutdown), 1);
    // The client retries and succeeds.
    assert_eq!(b.shutdown(true), Ok(()));
    assert_eq!(exit_code(b.did_shutdown), 0);
}

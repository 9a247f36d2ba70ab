use p4now::annotate::parse_annotate_output;
use p4now::connection::connection_overlay;
use p4now::files::parse_files_output;
use p4now::forms::{new_change_form, replace_description, replace_stream};
use p4now::index::{FileEntry, FileIndex, SearchMode};
use p4now::indexed::{parse_describe_output, parse_ztag_describe_shelved, parse_ztag_filelog};
use p4now::clientspec::parse_ztag_client_spec;
use p4now::numbers::{indexed_key, parse_i32, parse_i64, parse_u64};
use p4now::parsing::parse_ztag_fstat;
use p4now::plaintext::{
    confirmed_or_error, confirmed_paths, created_change, failure_message, listing_outcome,
    parse_resolve_preview, resolve_flag, strip_revision, submitted_change, temp_extension,
    Confirmation, Listing, ListingOutcome,
};
use p4now::record::{parse_ztag_records, ZtagRecord};
use p4now::registry::ProcessRegistry;
use p4now::status::{derive_file_status, derive_status, FileStatus};
use p4now::sync::{classify_sync_error_line, parse_sync_line};
use p4now::tools::{
    content_guard, diff_tool_args, flatten_path, merge_sources, replace_text, ContentRefusal,
};

fn opt(s: &str) -> Option<String> {
    Some(s.to_string())
}

#[test]
fn groups_parse_one_record_each_with_trailing_group() {
    let text = "... a 1\n... b two words\n\n... c\n... d 4\n";
    let records = parse_ztag_records(text);
    assert_eq!(records.len(), 2);
    assert_eq!(records[0].get("a"), Some(&"1".to_string()));
    assert_eq!(records[0].get("b"), Some(&"two words".to_string()));
    assert_eq!(records[0].len(), 2);
    assert_eq!(records[1].get("c"), Some(&"".to_string()));
    assert_eq!(records[1].get("d"), Some(&"4".to_string()));
    assert_eq!(records[1].len(), 2);
}

#[test]
fn groups_parse_with_trailing_blank_line_and_crlf() {
    let records = parse_ztag_records("... a 1\r\n\r\n... b 2\r\n\r\n");
    assert_eq!(records.len(), 2);
    assert_eq!(records[0].get("a"), Some(&"1".to_string()));
    assert_eq!(records[1].get("b"), Some(&"2".to_string()));
}

#[test]
fn later_field_of_a_record_wins_and_other_lines_are_ignored() {
    let records = parse_ztag_records("noise\n... k first\n... k second\n");
    assert_eq!(records.len(), 1);
    assert_eq!(records[0].get("k"), Some(&"second".to_string()));
    assert_eq!(records[0].len(), 1);
}

#[test]
fn parsing_twice_gives_the_same_records() {
    let text = "... x 1\n... y 2\n\n... x 3\n";
    let a = parse_ztag_records(text);
    let b = parse_ztag_records(text);
    assert_eq!(a.len(), b.len());
    for i in 0..a.len() {
        for key in ["x", "y"] {
            assert_eq!(a[i].get(key), b[i].get(key));
        }
    }
}

#[test]
fn status_table_covers_seven_statuses() {
    assert_eq!(derive_file_status(&opt("add"), 0, 0), "added");
    assert_eq!(derive_file_status(&opt("delete"), 5, 5), "deleted");
    assert_eq!(derive_file_status(&opt("edit"), 5, 5), "checkedOut");
    assert_eq!(derive_file_status(&opt("move/add"), 5, 5), "modified");
    assert_eq!(derive_file_status(&None, 0, 5), "notSynced");
    assert_eq!(derive_file_status(&None, 3, 5), "outOfDate");
    assert_eq!(derive_file_status(&None, 6, 5), "synced");
    assert_eq!(derive_status(&opt("branch"), 1, 1), FileStatus::CheckedOut);
    assert_eq!(derive_file_status(&None, 3, 5), derive_file_status(&None, 3, 5));
}

#[test]
fn connection_overlay_isolates_from_ambient_configuration() {
    let o = connection_overlay(&opt("ssl:host:1666"), &opt("alice"), &opt("ws"));
    assert_eq!(o.args, vec!["-p", "ssl:host:1666", "-u", "alice", "-c", "ws"]);
    let env: Vec<(&str, &str)> = o.env.iter().map(|(k, v)| (k.as_str(), v.as_str())).collect();
    assert_eq!(
        env,
        vec![
            ("P4CONFIG", ""),
            ("P4ROOT", ""),
            ("P4PORT", "ssl:host:1666"),
            ("P4USER", "alice"),
            ("P4CLIENT", "ws"),
        ]
    );
}

#[test]
fn connection_overlay_omits_empty_fields() {
    let o = connection_overlay(&opt("host:1666"), &opt(""), &None);
    assert_eq!(o.args, vec!["-p", "host:1666"]);
    let names: Vec<&str> = o.env.iter().map(|(k, _)| k.as_str()).collect();
    assert_eq!(names, vec!["P4CONFIG", "P4ROOT", "P4PORT"]);
}

#[test]
fn connection_overlay_is_empty_without_overrides() {
    let o = connection_overlay(&None, &opt(""), &None);
    assert!(o.args.is_empty());
    assert!(o.env.is_empty());
}

fn index_of(entries: &[(&str, u64)]) -> FileIndex {
    let mut index = FileIndex::new();
    index.add_batch(
        entries
            .iter()
            .map(|(p, t)| FileEntry { depot_path: p.to_string(), mod_time: *t })
            .collect(),
    );
    index
}

#[test]
fn recent_file_ranks_above_older_one() {
    let now: u64 = 1_700_000_000;
    let index = index_of(&[("//depot/a/Foo.cpp", now), ("//depot/b/foo_old.cpp", now - 30 * 86400)]);
    let results = index.search_at("foo", SearchMode::Fuzzy, 10, now);
    assert_eq!(results.len(), 2);
    assert_eq!(results[0].depot_path, "//depot/a/Foo.cpp");
    assert_eq!(results[1].depot_path, "//depot/b/foo_old.cpp");
}

#[test]
fn recency_boost_is_half_again_rounded_down() {
    let now: u64 = 1_700_000_000;
    let old = index_of(&[("//depot/x/bar.cpp", now - 30 * 86400)]);
    let fresh = index_of(&[("//depot/x/bar.cpp", now - 86400)]);
    let unknown = index_of(&[("//depot/x/bar.cpp", 0)]);
    let base = old.search_at("bar", SearchMode::Fuzzy, 5, now)[0].score;
    assert!(base > 0);
    assert_eq!(fresh.search_at("bar", SearchMode::Fuzzy, 5, now)[0].score, base * 3 / 2);
    assert_eq!(unknown.search_at("bar", SearchMode::Fuzzy, 5, now)[0].score, base);
}

#[test]
fn search_ties_break_by_path_and_truncate() {
    let index = index_of(&[("//b/same.txt", 0), ("//a/same.txt", 0), ("//c/same.txt", 0)]);
    let results = index.search_at("same", SearchMode::Exact, 2, 1_700_000_000);
    assert_eq!(results.len(), 2);
    assert_eq!(results[0].depot_path, "//a/same.txt");
    assert_eq!(results[1].depot_path, "//b/same.txt");
}

#[test]
fn empty_query_matches_nothing() {
    let index = index_of(&[("//depot/a.txt", 0)]);
    assert!(index.search("", SearchMode::Fuzzy, 10).is_empty());
}

#[test]
fn exact_mode_needs_a_substring() {
    let index = index_of(&[("//depot/foo_old.cpp", 0), ("//depot/f_o_o.cpp", 0)]);
    let exact = index.search("foo", SearchMode::Exact, 10);
    assert_eq!(exact.len(), 1);
    assert_eq!(exact[0].depot_path, "//depot/foo_old.cpp");
    let fuzzy = index.search("foo", SearchMode::Fuzzy, 10);
    assert_eq!(fuzzy.len(), 2);
}

#[test]
fn index_appends_without_dedup_and_clears() {
    let mut index = index_of(&[("//a", 1), ("//a", 2)]);
    assert_eq!(index.len(), 2);
    assert_eq!(index.files()[1].mod_time, 2);
    assert!(!index.is_empty());
    index.clear();
    assert!(index.is_empty());
}

#[test]
fn sync_line_updating_scenario() {
    let p = parse_sync_line("//depot/main/file.cpp#5 - updating C:\\ws\\file.cpp").unwrap();
    assert_eq!(p.depot_path, "//depot/main/file.cpp");
    assert_eq!(p.action, "updating");
    assert_eq!(p.revision, 5);
    assert!(!p.is_conflict);
}

#[test]
fn sync_line_without_number_gets_revision_zero() {
    let p = parse_sync_line("//depot/x#none - mystery").unwrap();
    assert_eq!(p.revision, 0);
    assert_eq!(p.action, "unknown");
}

#[test]
fn sync_conflict_lines() {
    let p = parse_sync_line("//depot/f.c#2 - can't clobber writable file C:\\f.c").unwrap();
    assert!(p.is_conflict);
    assert_eq!(p.action, "can't clobber");
    let e = classify_sync_error_line("Can't clobber: can't clobber writable file x").unwrap();
    assert!(e.is_conflict);
    assert_eq!(e.action, "conflict");
    assert_eq!(e.revision, 0);
    let e = classify_sync_error_line("//depot/... - no such file(s).").unwrap();
    assert!(!e.is_conflict);
    assert_eq!(e.action, "error");
    assert_eq!(e.depot_path, "//depot/... - no such file(s).");
    assert!(classify_sync_error_line("//depot/... - file(s) up-to-date.").is_none());
}

#[test]
fn registry_register_then_kill_twice() {
    let mut reg: ProcessRegistry<u32> = ProcessRegistry::new();
    let id = reg.register(7);
    assert!(!id.is_empty());
    assert!(reg.contains(&id));
    assert_eq!(reg.remove(&id), Some(7));
    assert_eq!(reg.remove(&id), None);
    assert_eq!(reg.len(), 0);
}

#[test]
fn registry_ids_are_distinct_and_drain_empties() {
    let mut reg: ProcessRegistry<u32> = ProcessRegistry::new();
    let a = reg.register(1);
    let b = reg.register(2);
    assert_ne!(a, b);
    let mut all = reg.drain();
    all.sort();
    assert_eq!(all, vec![1, 2]);
    assert_eq!(reg.len(), 0);
    assert!(!reg.contains(&a));
}

#[test]
fn indexed_extraction_stops_at_first_gap() {
    let input = "... depotFile0 //a\n... depotFile1 //b\n... depotFile3 //d\n";
    let files = parse_ztag_describe_shelved(input).unwrap();
    assert_eq!(files.len(), 2);
    assert_eq!(files[1].depot_path, "//b");
    assert_eq!(files[1].file_type, "text");
    assert_eq!(files[1].revision, 0);
    let revs = parse_ztag_filelog("... rev0 3\n... rev1 x\n").unwrap();
    assert_eq!(revs.len(), 2);
    assert_eq!(revs[1].rev, 0);
    assert_eq!(revs[0].file_type, "text");
}

#[test]
fn indexed_keys_are_written_in_decimal() {
    assert_eq!(indexed_key("rev", 0), "rev0");
    assert_eq!(indexed_key("depotFile", 12), "depotFile12");
}

#[test]
fn numbers_read_as_std_reads_them() {
    assert_eq!(parse_i32("+5"), Some(5));
    assert_eq!(parse_i32("-2147483648"), Some(i32::MIN));
    assert_eq!(parse_i32("2147483648"), None);
    assert_eq!(parse_i32(""), None);
    assert_eq!(parse_i32("-"), None);
    assert_eq!(parse_i32(" 1"), None);
    assert_eq!(parse_i64("-9223372036854775808"), Some(i64::MIN));
    assert_eq!(parse_i64("99999999999999999999999"), None);
    assert_eq!(parse_u64("-0"), None);
    assert_eq!(parse_u64("18446744073709551615"), Some(u64::MAX));
}

#[test]
fn fstat_prefers_filesystem_path_and_drops_incomplete_records() {
    let input = "... depotFile //d/a\n... clientFile //c/a\n... path C:\\a\n\n... depotFile //d/b\n\n... clientFile //c/c\n";
    let files = parse_ztag_fstat(input).unwrap();
    assert_eq!(files.len(), 1);
    assert_eq!(files[0].local_path, "C:\\a");
    assert_eq!(files[0].file_type, "text");
    assert_eq!(files[0].status, "notSynced");
}

#[test]
fn describe_merges_split_records_later_wins() {
    let input = "... user u1\n... desc first\n\n... desc second\n... depotFile0 //a\n... rev0 2\n";
    let d = parse_describe_output(input, 42).unwrap();
    assert_eq!(d.id, 42);
    assert_eq!(d.user, "u1");
    assert_eq!(d.description, "second");
    assert_eq!(d.status, "submitted");
    assert_eq!(d.files.len(), 1);
    assert_eq!(d.files[0].revision, 2);
    assert_eq!(d.files[0].file_type, "");
    let err = parse_describe_output("", -7).unwrap_err();
    assert_eq!(err, "No data returned for changelist -7");
}

#[test]
fn client_spec_fields_found_in_other_case() {
    let input = "... client ws\n... owner bob\n... view0 //a/... //ws/...\n";
    let spec = parse_ztag_client_spec(input).unwrap();
    assert_eq!(spec.client, "ws");
    assert_eq!(spec.owner, "bob");
    assert_eq!(spec.view, vec!["//a/... //ws/..."]);
    assert_eq!(spec.submit_options, "submitunchanged");
}

#[test]
fn client_spec_errors() {
    assert_eq!(parse_ztag_client_spec("... Owner bob\n").unwrap_err(), "Missing Client field");
    assert_eq!(parse_ztag_client_spec("... Client ws\n").unwrap_err(), "Missing Owner field");
}

#[test]
fn record_extend_and_case_insensitive_lookup() {
    let mut a = ZtagRecord::new();
    a.insert("Key".to_string(), "1".to_string());
    let mut b = ZtagRecord::new();
    b.insert("Key".to_string(), "2".to_string());
    b.insert("other".to_string(), "3".to_string());
    a.extend(&b);
    assert_eq!(a.get("Key"), Some(&"2".to_string()));
    assert_eq!(a.len(), 2);
    assert_eq!(a.get_ignore_case("OTHER"), Some("3".to_string()));
    assert_eq!(a.get_ignore_case("missing"), None);
}

#[test]
fn confirmed_paths_per_command() {
    let out = "//d/a.c#3 - opened for edit\n//d/b.c#1 - reopened; change 5\n//d/c.c - currently opened for edit\n";
    assert_eq!(confirmed_paths(out, Confirmation::Edit), vec!["//d/a.c", "//d/b.c"]);
    assert_eq!(confirmed_paths(out, Confirmation::Reopen), vec!["//d/b.c"]);
    let rev = "//d/a.c#3 - was edit, reverted\n//d/b.c#3 - was add, abandoned\n";
    assert_eq!(confirmed_paths(rev, Confirmation::Revert), vec!["//d/a.c"]);
}

#[test]
fn partial_success_fails_only_with_nothing_confirmed() {
    assert_eq!(confirmed_or_error(vec![1], "warning"), Ok(vec![1]));
    assert_eq!(confirmed_or_error(Vec::<i32>::new(), ""), Ok(vec![]));
    assert_eq!(confirmed_or_error(Vec::<i32>::new(), "boom"), Err("boom".to_string()));
}

#[test]
fn change_numbers_from_output() {
    assert_eq!(submitted_change("Submitting change 9.\nChange 12345 submitted.\n", 9), 12345);
    assert_eq!(submitted_change("nothing here\n", 9), 9);
    assert_eq!(created_change("Change 77 created.\n"), Ok(77));
    assert_eq!(
        created_change("oops\n"),
        Err("Failed to parse changelist ID from: oops\n".to_string())
    );
}

#[test]
fn resolve_preview_and_revision_stripping() {
    let out = "//d/a.c - merging //d/a.c#3\n\n C:\\w\\b.c - must resolve\n";
    assert_eq!(parse_resolve_preview(out), vec!["//d/a.c", "C:\\w\\b.c"]);
    assert_eq!(strip_revision("//d/a.c#12"), "//d/a.c");
    assert_eq!(strip_revision("C:\\w\\b.c"), "C:\\w\\b.c");
}

#[test]
fn resolve_flags() {
    assert_eq!(resolve_flag("theirs"), Ok("-at".to_string()));
    assert_eq!(resolve_flag("yours"), Ok("-ay".to_string()));
    assert_eq!(resolve_flag("merge"), Ok("-am".to_string()));
    assert_eq!(
        resolve_flag("mine"),
        Err("Invalid mode: mine. Must be 'theirs', 'yours', or 'merge'".to_string())
    );
}

#[test]
fn temp_extensions() {
    assert_eq!(temp_extension("//d/main/file.cpp"), ".cpp");
    assert_eq!(temp_extension("//d/main.v2/Makefile"), ".txt");
    assert_eq!(temp_extension("README"), ".README");
}

#[test]
fn failure_messages() {
    assert_eq!(failure_message("bad", Some(1)), "bad");
    assert_eq!(failure_message("", Some(-3)), "p4 exited with code: Some(-3)");
    assert_eq!(failure_message("", None), "p4 exited with code: None");
}

#[test]
fn tolerated_error_table() {
    assert_eq!(
        listing_outcome(Listing::Files, false, "", "//x - no such file(s)."),
        ListingOutcome::Parse
    );
    assert_eq!(listing_outcome(Listing::Files, false, "", "denied"), ListingOutcome::Failed);
    assert_eq!(
        listing_outcome(Listing::Dirs, true, "", "Path must refer to client 'x'."),
        ListingOutcome::NothingMatched
    );
    assert_eq!(listing_outcome(Listing::Dirs, false, "", "denied"), ListingOutcome::Failed);
    assert_eq!(
        listing_outcome(Listing::DescribeShelved, false, "", "Change 5 has No Shelved Files."),
        ListingOutcome::NothingMatched
    );
    assert_eq!(
        listing_outcome(Listing::DescribeShelved, false, "  \n", ""),
        ListingOutcome::NothingMatched
    );
    assert_eq!(
        listing_outcome(Listing::DescribeShelved, true, "", "no shelf"),
        ListingOutcome::Parse
    );
    assert_eq!(
        listing_outcome(Listing::ReconcilePreview, false, "", "//... - no file(s) to reconcile."),
        ListingOutcome::NothingMatched
    );
    assert_eq!(
        listing_outcome(Listing::FstatUnresolved, false, "x", "warning"),
        ListingOutcome::Parse
    );
}

#[test]
fn forms_are_rewritten() {
    let form = "Change:\t12\n\nDescription:\n\told text\n\tmore\n\nFiles:\n\t//d/a.c\t# edit\n";
    assert_eq!(
        replace_description(form, "new text"),
        "Change:\t12\n\nDescription:\n\tnew text\n\nFiles:\n\t//d/a.c\t# edit\n"
    );
    let template = "Change:\tnew\n\nDescription:\n\t<enter description here>\n\nFiles:\n\t//d/a.c\t# edit\n\nJobs:\n";
    assert_eq!(
        new_change_form(template, "work"),
        "Change:\tnew\n\nDescription:\n\twork\n\nJobs:\n"
    );
    let client = "Client:\tws\nStream:\t//s/main\nRoot:\tC:\\w\n";
    assert_eq!(
        replace_stream(client, "//s/dev"),
        "Client:\tws\nStream:\t//s/dev\nRoot:\tC:\\w\n"
    );
}

#[test]
fn files_output_lines() {
    let out = "//d/src/foo.cpp#5 - edit change 12345 (text)\n//d/img.png#1 - add change 7 (binary+F)\nbad line\n//d/z.c#2 - delete change x\n";
    let files = parse_files_output(out, 10);
    assert_eq!(files.len(), 3);
    assert_eq!(files[0].depot_path, "//d/src/foo.cpp");
    assert_eq!(files[0].revision, 5);
    assert_eq!(files[0].action, "edit");
    assert_eq!(files[0].change, 12345);
    assert_eq!(files[0].file_type, "text");
    assert_eq!(files[1].file_type, "binary+F");
    assert_eq!(files[2].change, 0);
    assert_eq!(files[2].file_type, "text");
    assert_eq!(parse_files_output(out, 1).len(), 1);
}

#[test]
fn content_guard_refusals() {
    assert!(matches!(content_guard(&parse_ztag_records("")), Err(ContentRefusal::NotFound)));
    match content_guard(&parse_ztag_records("... headType binary+l\n")) {
        Err(ContentRefusal::Binary(t)) => assert_eq!(t, "binary+l"),
        _ => panic!("expected a binary refusal"),
    }
    match content_guard(&parse_ztag_records("... headType text\n... fileSize 10485761\n")) {
        Err(ContentRefusal::TooLarge(n)) => assert_eq!(n, 10485761),
        _ => panic!("expected a size refusal"),
    }
    assert!(content_guard(&parse_ztag_records("... headType text\n... fileSize 10485760\n")).is_ok());
}

#[test]
fn merge_sources_from_fstat() {
    let ok = parse_ztag_records(
        "... resolveBaseFile //d/a.c\n... resolveBaseRev 3\n... resolveFromFile0 //d/b.c\n... resolveEndFromRev0 5\n",
    );
    let s = merge_sources(&ok).unwrap();
    assert_eq!(s.base_file, "//d/a.c");
    assert_eq!(s.theirs_rev, "5");
    let missing = parse_ztag_records("... resolveBaseFile //d/a.c\n");
    assert_eq!(merge_sources(&missing).unwrap_err(), "No resolveBaseRev found");
    assert_eq!(flatten_path("//d\\a/b.c"), "__d_a_b.c");
}

#[test]
fn diff_tool_arguments() {
    assert_eq!(diff_tool_args("L", "R", &None), vec!["L", "R"]);
    assert_eq!(diff_tool_args("L", "R", &opt("-a  -b")), vec!["-a", "-b", "L", "R"]);
    assert_eq!(
        diff_tool_args("L", "R", &opt("--left={left} $REMOTE")),
        vec!["--left=L", "R"]
    );
    assert_eq!(replace_text("a{x}b{x}", "{x}", "-"), "a-b-");
}

#[test]
fn annotate_lines() {
    let out = "320: mjones 2017/05/06 sr->w.digest.Clear();\nnot a line\n321: ann 2018/01/02   x\n";
    let lines = parse_annotate_output(out).unwrap();
    assert_eq!(lines.len(), 2);
    assert_eq!(lines[0].line_number, 1);
    assert_eq!(lines[0].changelist_id, 320);
    assert_eq!(lines[0].user, "mjones");
    assert_eq!(lines[0].date, "2017/05/06");
    assert_eq!(lines[0].line_content, "sr->w.digest.Clear();");
    assert_eq!(lines[1].line_number, 2);
    let err = parse_annotate_output("99999999999: u 2017/05/06 x\n").unwrap_err();
    assert_eq!(err, "Failed to parse changelist ID: number too large to fit in target type");
}

#[test]
fn file_changed_this_second_is_recent() {
    let now: u64 = 1_700_000_000;
    let old = index_of(&[("//depot/x/bar.cpp", now - 30 * 86400)]);
    let current = index_of(&[("//depot/x/bar.cpp", now)]);
    let base = old.search_at("bar", SearchMode::Fuzzy, 5, now)[0].score;
    assert_eq!(current.search_at("bar", SearchMode::Fuzzy, 5, now)[0].score, base * 3 / 2);
}

#[test]
fn duplicate_paths_rank_by_change_time() {
    let index = index_of(&[("//a/same.txt", 9), ("//a/same.txt", 3)]);
    let results = index.search_at("same", SearchMode::Exact, 5, 1_700_000_000);
    assert_eq!(results.len(), 2);
    assert_eq!(results[0].mod_time, 3);
    assert_eq!(results[1].mod_time, 9);
    let first = index.search_at("same", SearchMode::Exact, 1, 1_700_000_000);
    assert_eq!(first[0].mod_time, 3);
}

#[test]
fn last_group_without_final_newline_is_read() {
    let records = parse_ztag_records("... a 1\n\n... b 2\n... c");
    assert_eq!(records.len(), 2);
    assert_eq!(records[1].get("b"), Some(&"2".to_string()));
    assert_eq!(records[1].get("c"), Some(&"".to_string()));
}

#[test]
fn removed_ids_are_not_handed_out_again() {
    let mut reg: ProcessRegistry<u32> = ProcessRegistry::new();
    let mut seen: Vec<String> = Vec::new();
    for i in 0..50u32 {
        let id = reg.register(i);
        assert!(!seen.contains(&id));
        assert_eq!(reg.remove(&id), Some(i));
        seen.push(id);
    }
}

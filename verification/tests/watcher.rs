//! The stabilization engine on concrete scenarios: filtering, debouncing,
//! promotion, folder resolution, and output and archive locations.

use pdfdk_core::config::OutputMode;
use pdfdk_core::config::ToolConfig;
use pdfdk_core::path::FilePath;
use pdfdk_core::watcher::accepts;
use pdfdk_core::watcher::archive_destination;
use pdfdk_core::watcher::get_output_path;
use pdfdk_core::watcher::EventKind;
use pdfdk_core::watcher::FolderWatcher;
use pdfdk_core::watcher::DEBOUNCE_MS;

fn p(s: &str) -> FilePath {
    FilePath::from_string(s)
}

fn comps(path: &FilePath) -> Vec<String> {
    path.components.clone()
}

fn cfg(id: &str, folder: &str) -> ToolConfig {
    ToolConfig {
        id: id.to_string(),
        enabled: true,
        folder_path: Some(folder.to_string()),
        output_mode: OutputMode::Subfolder,
        options: Vec::new(),
    }
}

#[test]
fn path_strings_split_into_components() {
    assert_eq!(comps(&p("/a/b/c.pdf")), vec!["a", "b", "c.pdf"]);
    assert_eq!(comps(&p("a//b/")), vec!["a", "b"]);
    assert_eq!(comps(&p("")), Vec::<String>::new());
}

#[test]
fn filter_rejects_everything_but_settled_pdfs() {
    assert!(accepts(&p("/w/report.pdf")));
    assert!(accepts(&p("/w/REPORT.PDF")));
    assert!(!accepts(&p("/w/report.txt")));
    assert!(!accepts(&p("/w/report")));
    assert!(!accepts(&p("/w/.hidden.pdf")));
    assert!(!accepts(&p("/w/report.pdf.tmp")));
    assert!(!accepts(&p("/w/report.pdf.part")));
    assert!(!accepts(&p("/w/Processed/report.pdf")));
    assert!(!accepts(&p("/w/ORIGINALS/report.pdf")));
    assert!(!accepts(&p("/w/processed/deep/report.pdf")));
    assert!(!accepts(&p("")));
}

#[test]
fn rejected_paths_are_never_promoted_whatever_the_event_kind() {
    let mut w = FolderWatcher::new();
    w.add_folder(cfg("compress", "/w"));
    let bad = vec![
        p("/w/report.txt"),
        p("/w/.dot.pdf"),
        p("/w/x.pdf.tmp"),
        p("/w/x.pdf.part"),
        p("/w/Processed/y.pdf"),
        p("/w/Originals/z.pdf"),
    ];
    w.handle_notify_event(EventKind::Create, &bad, 0);
    w.handle_notify_event(EventKind::Modify, &bad, 0);
    w.handle_notify_event(EventKind::Other, &bad, 0);
    let stale = w.stale_paths(DEBOUNCE_MS * 10, DEBOUNCE_MS);
    assert!(stale.is_empty());
}

#[test]
fn other_event_kinds_are_ignored_even_for_good_paths() {
    let mut w = FolderWatcher::new();
    w.add_folder(cfg("compress", "/w"));
    w.handle_notify_event(EventKind::Other, &vec![p("/w/a.pdf")], 0);
    assert!(w.stale_paths(DEBOUNCE_MS * 10, DEBOUNCE_MS).is_empty());
}

#[test]
fn burst_collapses_to_one_ready_event() {
    let mut w = FolderWatcher::new();
    w.add_folder(cfg("compress", "/w"));
    let file = p("/w/a.pdf");
    // A burst of notifications within the debounce window.
    w.handle_notify_event(EventKind::Create, &vec![file.clone()], 0);
    w.handle_notify_event(EventKind::Modify, &vec![file.clone()], 300);
    w.handle_notify_event(EventKind::Modify, &vec![file.clone()], 900);

    // The window restarts at every notification: not stale at 2500.
    assert!(w.stale_paths(2500, DEBOUNCE_MS).is_empty());
    // 2000 ms after the last notification it is stale.
    let stale = w.stale_paths(2900, DEBOUNCE_MS);
    assert_eq!(stale.len(), 1);
    assert!(stale[0].path_eq(&file));

    // Exactly one promotion; a second attempt finds nothing pending.
    let ev = w.promote(&file, true).expect("one event");
    assert!(ev.path.path_eq(&file));
    assert_eq!(ev.tool_id, "compress");
    assert!(w.promote(&file, true).is_none());
    assert!(w.stale_paths(10_000, DEBOUNCE_MS).is_empty());
}

#[test]
fn unreadable_files_are_never_promoted() {
    let mut w = FolderWatcher::new();
    w.add_folder(cfg("compress", "/w"));
    let file = p("/w/locked.pdf");
    w.handle_notify_event(EventKind::Create, &vec![file.clone()], 0);
    // Stable, but the readability probe fails: no event, still pending.
    assert!(w.promote(&file, false).is_none());
    let stale = w.stale_paths(5000, DEBOUNCE_MS);
    assert_eq!(stale.len(), 1);
    // Once readable, the event comes.
    assert!(w.promote(&file, true).is_some());
}

#[test]
fn unmatched_files_are_dropped_silently() {
    let mut w = FolderWatcher::new();
    w.add_folder(cfg("compress", "/w"));
    let file = p("/elsewhere/a.pdf");
    w.handle_notify_event(EventKind::Create, &vec![file.clone()], 0);
    // Promoted out of the pending set, but no folder matches: no event.
    assert!(w.promote(&file, true).is_none());
    assert!(w.stale_paths(10_000, DEBOUNCE_MS).is_empty());
}

#[test]
fn resolve_prefers_the_longest_matching_prefix() {
    let mut w = FolderWatcher::new();
    w.add_folder(cfg("compress", "/a"));
    w.add_folder(cfg("ocr", "/a/b"));
    let (folder, config) = w.find_watched_folder(&p("/a/b/c.pdf")).expect("a match");
    assert_eq!(comps(&folder), vec!["a", "b"]);
    assert_eq!(config.id, "ocr");

    let (folder2, config2) = w.find_watched_folder(&p("/a/x.pdf")).expect("a match");
    assert_eq!(comps(&folder2), vec!["a"]);
    assert_eq!(config2.id, "compress");

    assert!(w.find_watched_folder(&p("/z/c.pdf")).is_none());
}

#[test]
fn disabled_or_folderless_tools_are_not_registered() {
    let mut w = FolderWatcher::new();
    let mut disabled = cfg("compress", "/w");
    disabled.enabled = false;
    assert!(w.add_folder(disabled).is_none());
    let mut folderless = cfg("compress", "/w");
    folderless.folder_path = None;
    assert!(w.add_folder(folderless).is_none());
    assert!(w.find_watched_folder(&p("/w/a.pdf")).is_none());
}

#[test]
fn removing_a_folder_stops_resolution() {
    let mut w = FolderWatcher::new();
    w.add_folder(cfg("compress", "/w"));
    w.remove_folder(&p("/w"));
    assert!(w.find_watched_folder(&p("/w/a.pdf")).is_none());
    // Removing an unknown folder is a quiet no-op.
    w.remove_folder(&p("/nowhere"));
}

#[test]
fn registering_a_folder_again_overwrites_its_configuration() {
    let mut w = FolderWatcher::new();
    w.add_folder(cfg("compress", "/w"));
    w.add_folder(cfg("ocr", "/w"));
    let (_, config) = w.find_watched_folder(&p("/w/a.pdf")).expect("a match");
    assert_eq!(config.id, "ocr");
}

#[test]
fn output_path_for_word_conversion_in_subfolder() {
    let input = p("/in/report.pdf");
    let config = ToolConfig {
        id: "pdf-to-word".to_string(),
        enabled: true,
        folder_path: Some("/in".to_string()),
        output_mode: OutputMode::Subfolder,
        options: Vec::new(),
    };
    let out = get_output_path(&input, &config);
    assert_eq!(comps(&out), vec!["in", "Processed", "report_pdf-to-word.docx"]);
}

#[test]
fn output_extension_follows_the_tool() {
    let input = p("/in/report.pdf");
    let mut config = cfg("pdf-to-excel", "/in");
    config.output_mode = OutputMode::SameFolder;
    assert_eq!(comps(&get_output_path(&input, &config)), vec!["in", "report_pdf-to-excel.xlsx"]);

    config.id = "pdf-to-jpg".to_string();
    assert_eq!(comps(&get_output_path(&input, &config)), vec!["in", "report_pdf-to-jpg.zip"]);

    config.id = "compress".to_string();
    assert_eq!(comps(&get_output_path(&input, &config)), vec!["in", "report_compress.pdf"]);
}

#[test]
fn output_path_with_custom_directory() {
    let input = p("/in/report.pdf");
    let mut config = cfg("compress", "/in");
    config.output_mode = OutputMode::Custom("/out/done".to_string());
    assert_eq!(comps(&get_output_path(&input, &config)), vec!["out", "done", "report_compress.pdf"]);
}

#[test]
fn archive_goes_to_originals_under_its_own_name() {
    let dest = archive_destination(&p("/w/report.pdf"), false, 1_700_000_000);
    assert_eq!(comps(&dest), vec!["w", "Originals", "report.pdf"]);
}

#[test]
fn archive_collision_gets_a_timestamp_suffix() {
    let dest = archive_destination(&p("/w/report.pdf"), true, 1_700_000_000);
    assert_eq!(comps(&dest), vec!["w", "Originals", "report_1700000000.pdf"]);
    // The suffixed name never coincides with the occupied one.
    assert_ne!(dest.components.last(), Some(&"report.pdf".to_string()));
}

#[test]
fn archive_collision_without_extension_defaults_to_pdf() {
    let dest = archive_destination(&p("/w/scan"), true, 7);
    assert_eq!(comps(&dest), vec!["w", "Originals", "scan_7.pdf"]);
}

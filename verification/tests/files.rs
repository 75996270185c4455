use ac4_player::bitstream_ui::{
    bit_rate_and_core_text, collect_report_rows, compact_content_summary, content_summary_text,
    counts_text, issue_context, loudness_text, object_core_layout, object_profile, DetailTableRow,
    Disclosure, Issue, Presentation, Report, SectionId, SourceKind, Substream,
};
use ac4_player::file_catalog::{
    check_folder, check_import, fingerprint, hex_text, import_step, inventory, renamed_suffix,
    staging_prefix, Catalog, Entry, ImportStep, Kind, RelativePath, Target,
};
use ac4_player::inspection::{
    field_summary_text, field_text, FieldStatus, FieldValue, InspectionController,
    InspectionSnapshot, InspectionState, ReportedField,
};
use ac4_player::install_check::{Argument, Options, WindowSmoke};
use ac4_player::licenses::{contains_text, entry, found, load, Notice, User, Window};
use ac4_player::media::{
    check_stamp, is_raw, prefix_length, read_length, FileStamp, MediaCursor, OpenTrouble,
    SeekTarget,
};
use ac4_player::paths::PathParts;
use std::path::{Path, PathBuf};

#[test]
fn maps_only_confirmed_object_core_bit_rate_tiers() {
    assert_eq!(object_core_layout(768), Some("5.1.4 (9.1)"));
    assert_eq!(object_core_layout(1_500), Some("7.1.4 (11.1)"));
    assert_eq!(object_core_layout(1_024), None);
}

#[test]
fn maps_object_profiles_from_the_reported_compatibility_level() {
    assert_eq!(object_profile(3), Some("16 objects (L3)"));
    assert_eq!(object_profile(4), Some("20 objects (L4)"));
    assert_eq!(object_profile(2), None);
}

#[test]
fn compact_content_hides_only_the_main_role_and_redundant_configuration() {
    assert_eq!(
        compact_content_summary("Object-Based main (single_group)"),
        "Object-Based"
    );
    assert_eq!(
        compact_content_summary("Object-Based main (presentation_config_3)"),
        "Object-Based (presentation_config_3)"
    );
    assert_eq!(
        compact_content_summary("Object-Based alternative (single_group)"),
        "Object-Based alternative"
    );
    assert_eq!(compact_content_summary("Main Street"), "Main Street");
    assert_eq!(compact_content_summary("Stereo main"), "Stereo");
    assert_eq!(compact_content_summary("a (b) c main"), "a (b) c");
}

fn field(value: FieldValue) -> ReportedField {
    ReportedField {
        status: FieldStatus::Present,
        value: Some(value),
        unit: None,
        raw_code: None,
        reason: None,
    }
}

fn number(text: &str, whole: Option<u64>) -> FieldValue {
    FieldValue::Number { text: text.to_owned(), whole }
}

fn text_field(text: &str) -> ReportedField {
    field(FieldValue::Text(text.to_owned()))
}

fn fields(count: usize) -> Vec<ReportedField> {
    (0..count).map(|index| text_field(&format!("v{index}"))).collect()
}

#[test]
fn field_text_preserves_status_units_and_optional_raw_code() {
    let present = ReportedField {
        status: FieldStatus::Present,
        value: Some(number("-18.0", None)),
        unit: Some("LKFS".to_owned()),
        raw_code: Some(number("844", Some(844))),
        reason: None,
    };
    assert_eq!(field_text(&present, false), "-18.0 LKFS");
    assert_eq!(field_text(&present, true), "-18.0 LKFS (raw: 844)");
    assert_eq!(field_summary_text(&present), "-18.0 LKFS");

    let unavailable = ReportedField {
        status: FieldStatus::Unknown,
        value: None,
        unit: None,
        raw_code: None,
        reason: Some("value changes within the stream".to_owned()),
    };
    assert_eq!(
        field_text(&unavailable, true),
        "Unknown: value changes within the stream"
    );
    assert_eq!(field_summary_text(&unavailable), "Unknown");
}

#[test]
fn every_kind_of_value_and_status_has_its_text() {
    for (value, text) in [
        (FieldValue::Bool(true), "True"),
        (FieldValue::Bool(false), "False"),
        (FieldValue::Null, "null"),
        (FieldValue::Array("[1,2]".to_owned()), "[1,2]"),
        (
            FieldValue::Object { display: Some("shown".to_owned()), text: "{}".to_owned() },
            "shown",
        ),
        (FieldValue::Object { display: None, text: "{\"a\":1}".to_owned() }, "{\"a\":1}"),
    ] {
        assert_eq!(field_text(&field(value), true), text);
    }
    let mut bare = text_field("x");
    bare.value = None;
    assert_eq!(field_text(&bare, true), "Present");
    for (status, text) in [
        (FieldStatus::NotPresent, "Not present"),
        (FieldStatus::NotApplicable, "Not applicable"),
        (FieldStatus::Unknown, "Unknown"),
        (FieldStatus::Unsupported, "Unsupported"),
    ] {
        bare.status = status;
        assert_eq!(field_text(&bare, false), text);
        assert_eq!(field_summary_text(&bare), text);
    }
}

#[test]
fn a_report_is_complete_only_with_every_field() {
    assert!(report().is_complete());
    let mut short = report();
    short.audio.pop();
    assert!(!short.is_complete());
    let mut short = report();
    short.presentations[0].drc.pop();
    assert!(!short.is_complete());
    let mut long = report();
    long.substreams[0].dialogue.push(text_field("more"));
    assert!(!long.is_complete());
}

fn report() -> Report {
    let mut audio = fields(13);
    audio[2] = field(number("768", Some(768)));
    audio[2].unit = Some("kbps".to_owned());
    let mut presentation = Presentation {
        index: 0,
        fields: fields(10),
        loudness: fields(10),
        drc: fields(5),
        mixing: fields(3),
        downmix: fields(7),
    };
    presentation.fields[1] = text_field("Object-Based main (single_group)");
    presentation.fields[3] = field(number("3", Some(3)));
    let mut substream = Substream {
        index: 2,
        fields: fields(5),
        preprocessing: fields(17),
        dialogue: fields(4),
    };
    substream.fields[3] = field(FieldValue::Bool(true));
    Report {
        codec: "AC-4".to_owned(),
        source_kind: SourceKind::AnnexG,
        frame_count: 24,
        audio,
        presentations: vec![presentation],
        substreams: vec![substream],
        issues: vec![Issue {
            severity: "warning".to_owned(),
            code: "crc".to_owned(),
            message: "bad checksum".to_owned(),
            frame_index: Some(7),
            presentation_id: None,
            substream_index: Some(2),
        }],
    }
}

#[test]
fn the_card_sums_a_report_up() {
    let mut report = report();
    assert_eq!(bit_rate_and_core_text(&report), "768 kbps · 5.1.4 (9.1)");
    assert_eq!(content_summary_text(&report), "Object-Based · 16 objects (L3)");
    assert_eq!(loudness_text(&report), "v0 · v7");
    assert_eq!(counts_text(&report), "1 P · 1 SS · 1 issues");
    report.substreams.clear();
    assert_eq!(bit_rate_and_core_text(&report), "768 kbps");
    assert_eq!(content_summary_text(&report), "Object-Based");
    report.audio[2].status = FieldStatus::NotPresent;
    assert_eq!(bit_rate_and_core_text(&report), "v3");
    report.presentations.clear();
    assert_eq!(content_summary_text(&report), "Not present");
    assert_eq!(loudness_text(&report), "Not present");
}

#[test]
fn the_table_opens_what_the_reader_opened_and_stripes_its_fields() {
    let rows = collect_report_rows(&report(), Vec::new());
    let titles: Vec<_> = rows
        .iter()
        .filter_map(|row| match row {
            DetailTableRow::Section { title, .. } => Some(title.as_str()),
            DetailTableRow::Field { .. } => None,
        })
        .collect();
    assert_eq!(
        titles,
        [
            "Audio",
            "Presentation 0",
            "Loudness",
            "Dynamic range control",
            "Mixing metadata",
            "Downmix",
            "Substream 2",
            "Issues (1)"
        ]
    );
    let mut stripe = false;
    for row in &rows {
        if let DetailTableRow::Field { alternate, .. } = row {
            assert_eq!(*alternate, stripe);
            stripe = !stripe;
        }
    }
    let has = |rows: &[DetailTableRow], wanted: &str, text: &str| {
        rows.iter().any(|row| {
            matches!(row, DetailTableRow::Field { label, value, .. } if label == wanted && value == text)
        })
    };
    assert!(has(&rows, "Codec", "AC-4"));
    assert!(has(&rows, "Source", "Annex G"));
    assert!(has(&rows, "Frames", "24"));
    assert!(has(&rows, "warning · crc", "bad checksum"));
    assert!(has(&rows, "Context", "frame 7 · substream 2"));
    assert!(!has(&rows, "Maximum true peak", "v7"));
    let opened = collect_report_rows(
        &report(),
        vec![
            Disclosure { section: SectionId::Loudness(0), open: true },
            Disclosure { section: SectionId::Audio, open: false },
        ],
    );
    assert!(has(&opened, "Maximum true peak", "v7"));
    assert!(!has(&opened, "Codec", "AC-4"));
    let mut clean = report();
    clean.issues.clear();
    let rows = collect_report_rows(
        &clean,
        vec![Disclosure { section: SectionId::Issues, open: true }],
    );
    assert!(has(&rows, "Status", "None"));
    assert_eq!(issue_context(None, Some(4), None), "presentation 4");
    assert_eq!(issue_context(None, None, None), "");
}

fn path_parts(path: &Path) -> PathParts {
    let part = |part: std::path::Component| part.as_os_str().as_encoded_bytes().to_vec();
    PathParts { parts: path.components().map(part).collect() }
}

#[test]
fn missing_input_is_reported_and_forgotten_with_its_path() {
    let mut controller = InspectionController::new(Ok(()));
    let path = path_parts(Path::new("media/missing.ac4"));
    assert!(controller.ensure_requested(path.clone()));
    assert!(!controller.ensure_requested(path.clone()));
    // Another spelling of the path is no other path.
    assert!(!controller.ensure_requested(path_parts(Path::new("media//missing.ac4"))));
    assert_eq!(controller.states.len(), 1);
    assert!(controller.has_pending());
    controller.receive(path.clone(), Err("No such file".to_owned()));
    assert!(matches!(controller.state(&path), Some(InspectionState::Failed(text)) if text == "No such file"));
    assert!(controller.retry(path.clone()));
    assert!(matches!(controller.state(&path), Some(InspectionState::Pending)));
    controller.receive(
        path.clone(),
        Ok(InspectionSnapshot { report: report(), full_text: "full".to_owned() }),
    );
    assert!(matches!(controller.state(&path), Some(InspectionState::Ready(_))));
    controller.retain_paths(&vec![path_parts(Path::new("media//missing.ac4/"))]);
    assert!(controller.state(&path).is_some());
    controller.retain_paths(&vec![path_parts(Path::new("media"))]);
    assert!(controller.state(&path).is_none());
    controller.receive(path.clone(), Err("late".to_owned()));
    assert!(controller.state(&path).is_none());
    controller.stopped(path.clone());
    assert!(matches!(
        controller.state(&path),
        Some(InspectionState::Failed(text)) if text == "Inspection worker stopped unexpectedly"
    ));
    let mut dead = InspectionController::new(Err("no thread".to_owned()));
    assert!(!dead.ensure_requested(path.clone()));
    assert!(matches!(
        dead.state(&path),
        Some(InspectionState::Failed(text)) if text == "Failed to start inspection worker: no thread"
    ));
}

fn relative(parts: &[&str]) -> RelativePath {
    RelativePath { parts: parts.iter().map(|part| part.as_bytes().to_vec()).collect() }
}

#[test]
fn import_preserves_conflicts_and_index_marks_missing() {
    let kind = Kind::sofa();
    let first = fingerprint(&b"first".to_vec());
    let second = fingerprint(&b"second".to_vec());
    assert_ne!(first, second);
    assert_eq!(import_step(&Target::Free, &first), ImportStep::Place);
    assert_eq!(import_step(&Target::File(Some(first.clone())), &first), ImportStep::Keep);
    assert_eq!(import_step(&Target::File(Some(first.clone())), &second), ImportStep::Rename);
    assert_eq!(import_step(&Target::File(None), &first), ImportStep::Rename);
    assert_eq!(import_step(&Target::Other, &first), ImportStep::Rename);
    assert_eq!(
        renamed_suffix(&kind, &first, 3),
        format!("-{}-3.sofa", &first[..12])
    );
    let files = inventory(
        Vec::new(),
        vec![
            Entry::found(relative(&["b.sofa"]), Some(first.clone())),
            Entry::found(relative(&["a", "z.sofa"]), Some(second)),
            Entry::found(relative(&["c.sofa"]), None),
        ],
    );
    assert_eq!(files.len(), 3);
    assert_eq!(files[0].path.parts, [b"a".to_vec(), b"z.sofa".to_vec()]);
    for file in &files[..2] {
        assert!(file.selectable());
        assert_eq!(file.display_status(false), "available");
        assert_eq!(file.display_status(true), "in use");
    }
    assert_eq!(files[2].display_status(true), "unreadable");
    let rescanned = inventory(
        files,
        vec![Entry::found(relative(&["b.sofa"]), Some(first))],
    );
    assert_eq!(rescanned.len(), 3);
    let missing = &rescanned[0];
    assert_eq!(missing.status, "missing");
    assert!(!missing.selectable());
    assert_eq!(missing.display_status(true), "missing");
    assert_eq!(rescanned[1].display_status(true), "in use");
}

#[test]
fn each_folder_takes_only_its_own_extension_and_stages_under_its_own_slug() {
    let (sofa, hptf) = (Kind::sofa(), Kind::hptf());
    let extension = |text: &str| Some(text.to_owned());
    assert!(sofa.accepts(&extension("SOFA")) && !sofa.accepts(&extension("txt")));
    assert!(hptf.accepts(&extension("txt")) && !hptf.accepts(&extension("sofa")));
    assert!(!hptf.accepts(&None));
    assert_eq!(staging_prefix(&sofa), ".sofa-import-");
    assert_eq!(staging_prefix(&hptf), ".hptf-import-");
    assert!(check_import(&hptf, true, true, &extension("txt")).is_ok());
    assert_eq!(
        check_import(&hptf, true, true, &extension("sofa")).unwrap_err(),
        "Select a .txt file"
    );
    assert_eq!(
        check_import(&hptf, false, true, &extension("txt")).unwrap_err(),
        "Select a regular AutoEq profile file and directory"
    );
    assert_eq!(
        check_import(&sofa, true, false, &None).unwrap_err(),
        "Missing file name"
    );
    assert_eq!(
        check_folder(&sofa, false).unwrap_err(),
        "The SOFA folder must be a directory, not a symlink"
    );
}

#[test]
fn contents_are_told_apart_by_their_digest() {
    assert_eq!(
        fingerprint(&b"abc".to_vec()),
        "ba7816bf8f01cfea414140de5dae2223b00361a396177a9cb410ff61f20015ad"
    );
    assert_eq!(hex_text(&vec![0x0f, 0xa0]), "0fa0");
}

#[test]
fn a_catalog_scans_once_at_a_time_and_keeps_what_it_knows() {
    let mut catalog = Catalog::new(Kind::sofa());
    assert!(catalog.refresh());
    assert!(!catalog.refresh() && catalog.busy());
    assert_eq!(catalog.message, "Scanning / importing SOFA…");
    catalog.finish(Ok(vec![Entry::found(relative(&["a.sofa"]), None)]));
    assert_eq!(catalog.message, "1 SOFA entries");
    catalog.refresh();
    catalog.finish(Err("denied".to_owned()));
    assert_eq!((catalog.message.as_str(), catalog.files.len()), ("denied", 1));
    catalog.refresh();
    catalog.failed_to_start("no thread".to_owned());
    assert!(!catalog.busy());
}

#[test]
fn the_demo_score_is_credited_in_every_build() {
    let without_report = load(&Vec::new());
    assert_eq!(without_report.len(), 1);
    let first = &without_report[0];
    assert_eq!(first.name, "CC BY 4.0");
    assert!(first.used_by.contains("Mutopia-2015/09/02-2047"));
    assert!(
        first.text.contains("Michael Fischer v. Mollard"),
        "the attribution must name the maintainer it credits"
    );
    assert!(
        first.text.contains("no recording is included"),
        "and must say the audio is synthesised rather than recorded"
    );
    let report = vec![
        Notice {
            name: Some("MIT License".to_owned()),
            text: Some("Permission is granted".to_owned()),
            users: vec![User { name: Some("serde".to_owned()), version: Some("1.0".to_owned()) }],
        },
        Notice { name: None, text: None, users: Vec::new() },
    ];
    let listed = load(&report);
    assert_eq!(listed.len(), 3);
    assert_eq!(listed[0].text, first.text);
    assert_eq!(listed[1].heading, "MIT License · serde");
    assert_eq!(listed[1].text, "Permission is granted");
    assert_eq!(listed[1].used_by, "serde 1.0");
    assert_eq!(listed[2].name, "License");
    assert_eq!(listed[2].text, "");
}

#[test]
fn notices_are_headed_and_found_in_any_case() {
    let user = |name: &str, version: &str| User {
        name: Some(name.to_owned()),
        version: Some(version.to_owned()),
    };
    let mit = entry(
        &Some("MIT License".to_owned()),
        &Some("text".to_owned()),
        &vec![user("serde", "1.0"), user("Éclair", "2.0")],
    );
    assert_eq!(mit.heading, "MIT License · serde (+1)");
    assert_eq!(mit.used_by, "serde 1.0, Éclair 2.0");
    let unnamed = entry(&None, &None, &Vec::new());
    assert_eq!(unnamed.heading, "License · dependency");
    assert!(mit.matches("SERDE"));
    assert!(mit.matches("éCLAIR"));
    assert!(!mit.matches("zlib"));
    assert!(found("serde", "serde_json", ""));
    assert!(contains_text("abc", "") && !contains_text("ab", "abc"));
    let mut window = Window::default();
    let entries = vec![unnamed, mit];
    assert_eq!(window.listed(&entries), [0, 1]);
    window.filter = "mit".to_owned();
    assert_eq!(window.listed(&entries), [1]);
}

fn argument(text: &str) -> Argument {
    Argument {
        text: Some(text.to_owned()),
        lossy: text.to_owned(),
        path: PathBuf::from(text),
    }
}

fn parse(arguments: &[&str]) -> Result<Options, String> {
    Options::parse(&arguments.iter().map(|text| argument(text)).collect())
}

#[test]
fn options_keep_checks_away_from_the_listeners_data() {
    let options = parse(&["--data-dir", "/tmp/x", "--check-install"]).unwrap();
    assert_eq!(options.directory, Some(PathBuf::from("/tmp/x")));
    assert!(options.check && !options.smoke);
    for (arguments, message) in [
        (vec!["--data-dir"], "--data-dir requires a path"),
        (vec!["--verbose"], "Unknown argument: --verbose"),
        (vec!["--smoke-test"], "Installation checks require an isolated --data-dir"),
        (
            vec!["--data-dir", "x", "--smoke-test", "--check-install"],
            "Run installation and window checks separately",
        ),
    ] {
        assert_eq!(parse(&arguments).unwrap_err(), message);
    }
    let broken = Argument { text: None, lossy: "a\u{fffd}".to_owned(), path: PathBuf::new() };
    assert_eq!(
        Options::parse(&vec![broken]).unwrap_err(),
        "Unknown argument: a\u{fffd}"
    );
}

#[test]
fn a_window_is_reported_on_once_and_then_closed() {
    const SECOND: u64 = 1_000_000_000;
    let mut smoke = WindowSmoke::new(PathBuf::from("x"), 5 * SECOND);
    assert_eq!(smoke.frame(9 * SECOND, true, true, true), (None, false));
    let (report, close) = smoke.frame(9 * SECOND, true, true, false);
    let report = report.unwrap();
    assert!(!close && !report.ok && !report.scene_renderer_ready);
    assert_eq!(report.rendered_frames, 2);
    assert_eq!(smoke.frame(10 * SECOND, true, true, true), (None, false));
    assert_eq!(smoke.frame(10 * SECOND + 1, true, true, true), (None, true));
}

#[test]
fn an_open_file_is_read_within_its_own_version() {
    let stamp = FileStamp { length: 17, modified_seconds: 5, modified_nanoseconds: 0 };
    assert_eq!(prefix_length(true, &stamp), Ok(2));
    assert_eq!(prefix_length(false, &stamp), Err(OpenTrouble::NotAFile));
    assert_eq!(
        prefix_length(true, &FileStamp { length: 0, ..stamp }),
        Err(OpenTrouble::Empty)
    );
    assert_eq!(OpenTrouble::Empty.text(), "Media file is empty");
    assert!(is_raw(&vec![0xac, 0x41]) && !is_raw(&vec![0xac]));
    assert!(check_stamp(&stamp, &stamp).is_ok());
    let changed = FileStamp { length: 7, ..stamp };
    assert!(check_stamp(&stamp, &changed).unwrap_err().contains("changed on disk"));
    assert_eq!(read_length(17, 9, 100), 8);
    assert_eq!(read_length(17, 20, 100), 0);
    let mut cursor = MediaCursor { position: 0 };
    assert_eq!(cursor.seek(17, SeekTarget::End(-8)), Ok(9));
    cursor.advance(8);
    assert_eq!(cursor.seek(17, SeekTarget::Current(-17)), Ok(0));
    assert_eq!(
        cursor.seek(17, SeekTarget::Current(-1)),
        Err("Media seek offset overflow")
    );
    assert_eq!(cursor.seek(17, SeekTarget::Start(99)), Ok(99));
}

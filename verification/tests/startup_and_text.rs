use visigrid::file_type::{
    is_default_handler, is_temporary_file, mark_shown_this_session, reset_session_state,
    set_as_default_handler, shown_this_session, PromptSession, Registration, SpreadsheetFileType,
};
use visigrid::focus::step;
use visigrid::fonts::{enumerate_fonts, enumerate_system_fonts, listed_fonts, FontPlatform};
use visigrid::naming::cell_name;
use visigrid::startup::{
    join, parse_args, restored_message, startup_plan, url_poll_delay, CliArgs, CliOutcome,
    StartupPlan,
};
use visigrid::state::{DocPath, Spreadsheet};
use visigrid::text::{
    byte_count, clamp_bytes, cut_bytes, decimal, decimal_padded, eq_but_case, lines_of,
    longer_than, parse_position, reads_as_number, split_at, trim,
};
use visigrid::timestamps::{civil_date, iso_timestamp, now_iso8601};
use visigrid::urls::{hex_val, normalize_and_dedup_urls, percent_decode, url_to_path};

fn texts(v: &[&str]) -> Vec<String> {
    v.iter().map(|s| s.to_string()).collect()
}

fn path(display: &str) -> DocPath {
    let name = display.rsplit('/').next().unwrap_or("").to_string();
    let dot = name.rfind('.').filter(|i| *i > 0);
    DocPath {
        display: display.to_string(),
        key: display.to_string(),
        stem: Some(dot.map_or(name.clone(), |i| name[..i].to_string())),
        ext: dot.map(|i| name[i + 1..].to_string()),
        parent: display.rfind('/').map(|i| display[..i].to_string()),
        file_name: Some(name),
    }
}

#[test]
fn test_file_type_from_ext() {
    assert_eq!(SpreadsheetFileType::from_ext("xlsx"), Some(SpreadsheetFileType::Excel));
    assert_eq!(SpreadsheetFileType::from_ext("XLSX"), Some(SpreadsheetFileType::Excel));
    assert_eq!(SpreadsheetFileType::from_ext("csv"), Some(SpreadsheetFileType::Csv));
    assert_eq!(SpreadsheetFileType::from_ext("vgrid"), Some(SpreadsheetFileType::NativeVgrid));
    assert_eq!(SpreadsheetFileType::from_ext("sheet"), Some(SpreadsheetFileType::Native));
    assert_eq!(SpreadsheetFileType::from_ext("txt"), None);
}

#[test]
fn test_is_temporary_file() {
    assert!(is_temporary_file(&path("/tmp/test.xlsx")));
    assert!(is_temporary_file(&path("/var/folders/ab/cd/T/test.csv")));
    assert!(is_temporary_file(&path("~$Budget.xlsx")));
    assert!(is_temporary_file(&path("/Users/me/.Trash/old.xlsx")));

    assert!(!is_temporary_file(&path("/Users/me/Documents/Budget.xlsx")));
    assert!(!is_temporary_file(&path("/home/user/data.csv")));
}

#[test]
fn a_prompt_session_is_marked_and_reset() {
    let mut s = PromptSession::new();
    assert!(!shown_this_session(&s));
    mark_shown_this_session(&mut s);
    assert!(shown_this_session(&s));
    reset_session_state(&mut s);
    assert!(!shown_this_session(&s));
}

#[test]
fn a_handler_is_known_by_its_bundle_whatever_the_case() {
    let me = Some("com.VisiGrid.App".to_string());
    let other = Some("com.visigrid.app".to_string());
    assert!(is_default_handler(true, &me, &other));
    assert!(!is_default_handler(true, &me, &Some("com.apple.Numbers".to_string())));
    assert!(!is_default_handler(true, &me, &None));
    assert!(matches!(
        set_as_default_handler(true, true, true, true, 0),
        Ok(Registration::Done)
    ));
    assert!(set_as_default_handler(true, false, true, true, 0).is_err());
}

#[test]
fn arguments_are_read_in_order() {
    let r = parse_args(&texts(&["visigrid", "--no-restore", "a.sheet", "--session-server", "b.csv"]));
    assert_eq!(
        r.outcome,
        CliOutcome::Run(CliArgs {
            no_restore: true,
            files: texts(&["a.sheet", "b.csv"]),
            session_server: true,
        })
    );
    assert_eq!(parse_args(&texts(&["visigrid", "-h", "--bogus"])).outcome, CliOutcome::Help);
    assert_eq!(
        parse_args(&texts(&["visigrid", "--bogus", "-h"])).outcome,
        CliOutcome::Unknown("--bogus".to_string())
    );
    assert_eq!(parse_args(&texts(&["visigrid", "--dump-session"])).outcome, CliOutcome::DumpSession);
    let resets = parse_args(&texts(&["visigrid", "--reset-session", "--reset-session"]));
    assert_eq!(resets.resets, 2);
}

#[test]
fn files_come_before_a_fresh_window() {
    assert_eq!(startup_plan(false, false, 0, 1), StartupPlan::OpenFiles);
    assert_eq!(startup_plan(false, false, 0, 0), StartupPlan::Fresh);
    assert_eq!(startup_plan(false, false, 2, 0), StartupPlan::RestoreSession);
    assert_eq!(startup_plan(true, false, 2, 0), StartupPlan::Fresh);
}

#[test]
fn polling_slows_down() {
    assert_eq!(url_poll_delay(0), 100);
    assert_eq!(url_poll_delay(3), 100);
    assert_eq!(url_poll_delay(4), 500);
    assert_eq!(url_poll_delay(10), 500);
    assert_eq!(url_poll_delay(11), 1000);
}

#[test]
fn names_are_joined() {
    assert_eq!(join(&texts(&["a", "b", "c"]), ", "), "a, b, c");
    assert_eq!(join(&texts(&["a"]), ", "), "a");
    assert_eq!(join(&vec![], ", "), "");
}

#[test]
fn a_restored_session_says_what_it_lost() {
    assert_eq!(restored_message(true, 0, &vec![], &None, &None), "Session restored");
    assert_eq!(
        restored_message(true, 2, &texts(&["a.sheet", "b.sheet"]), &None, &None),
        "No longer on disk, so not reopened: a.sheet, b.sheet"
    );
    assert_eq!(
        restored_message(false, 0, &vec![], &Some("x.csv".to_string()), &None),
        "Session file not found: x.csv"
    );
}

#[test]
fn urls_become_paths() {
    assert_eq!(percent_decode("a%20b"), "a b");
    assert_eq!(percent_decode("100%"), "100%");
    assert_eq!(percent_decode("caf%C3%A9"), "café");
    assert_eq!(hex_val(b'f'), Some(15));
    assert_eq!(hex_val(b'G'), None);
    assert_eq!(url_to_path("file:///tmp/a%20b.sheet"), Some("/tmp/a b.sheet".to_string()));
    assert_eq!(url_to_path("file://localhost/tmp/x.csv"), Some("/tmp/x.csv".to_string()));
    assert_eq!(url_to_path("https://example.com/x"), None);
    assert_eq!(url_to_path("/plain/path.sheet"), Some("/plain/path.sheet".to_string()));
}

#[test]
fn a_path_is_opened_once() {
    let keyed = |display: &str, key: &str| DocPath { key: key.to_string(), ..path(display) };
    let v = normalize_and_dedup_urls(&vec![path("/a"), path("/b"), path("/a")]);
    assert_eq!(v, vec![path("/a"), path("/b")]);
    let v = normalize_and_dedup_urls(&vec![keyed("/x//y", "/x/y"), path("/x/y"), path("/z")]);
    assert_eq!(v, vec![keyed("/x//y", "/x/y"), path("/z")]);
}

#[test]
fn days_have_dates() {
    assert_eq!(civil_date(0), (1970, 1, 1));
    assert_eq!(civil_date(59), (1970, 3, 1));
    assert_eq!(civil_date(19_782), (2024, 2, 29));
    assert_eq!(iso_timestamp(1_700_000_000), "2023-11-14T22:13:20Z");
    assert_eq!(now_iso8601(1_700_000_000), "1700000000");
}

#[test]
fn texts_are_taken_apart() {
    assert_eq!(trim("  a b\t\n"), "a b");
    assert_eq!(trim("\u{a0}x\u{2003}"), "x");
    assert_eq!(split_at("a,,b", ','), texts(&["a", "", "b"]));
    assert_eq!(lines_of("a\r\nb\n\nc"), texts(&["a", "b", "", "c"]));
    assert_eq!(lines_of("a\n"), texts(&["a"]));
    assert!(eq_but_case("LuA", "lUa"));
    assert!(!eq_but_case("lua", "luau"));
    assert_eq!(decimal(0), "0");
    assert_eq!(decimal(18_446_744_073_709_551_615), "18446744073709551615");
    assert_eq!(decimal_padded(7, 3), "007");
}

#[test]
fn bytes_are_counted_and_cut() {
    assert_eq!(byte_count("café"), 5);
    assert!(longer_than("café", 4));
    assert!(!longer_than("cafe", 4));
    assert_eq!(cut_bytes("abcdef", 3), "abc");
    assert_eq!(clamp_bytes("abc", 9), 3);
    assert_eq!(clamp_bytes("abc", 2), 2);
}

#[test]
fn positions_and_numbers_are_read() {
    assert_eq!(parse_position("12"), Some(12));
    assert_eq!(parse_position("+12"), Some(12));
    assert_eq!(parse_position(""), None);
    assert_eq!(parse_position("1x"), None);
    assert_eq!(parse_position("99999999999999999999999"), None);
    assert!(reads_as_number("007"));
    assert!(reads_as_number("-1.5e3"));
    assert!(reads_as_number("inf"));
    assert!(!reads_as_number("1,5"));
    assert!(!reads_as_number(""));
    assert!("007".parse::<f64>().is_ok() && "1,5".parse::<f64>().is_err());
}

#[test]
fn columns_have_letters() {
    assert_eq!(Spreadsheet::col_letter(0), "A");
    assert_eq!(Spreadsheet::col_letter(25), "Z");
    assert_eq!(Spreadsheet::col_letter(26), "AA");
    assert_eq!(Spreadsheet::col_letter(701), "ZZ");
    assert_eq!(Spreadsheet::col_letter(702), "AAA");
    assert_eq!(cell_name(9, 27), "AB10");
}

#[test]
fn focus_goes_round() {
    assert_eq!(step(3, 2, false), 0);
    assert_eq!(step(3, 0, true), 2);
    assert_eq!(step(3, step(3, 1, false), true), 1);
}

#[test]
fn fonts_are_listed_once_and_in_order() {
    let listed = listed_fonts("Zapfino\nArial,Arial Bold\n\n , \nDejaVu Sans\nArial\n");
    assert_eq!(listed, texts(&["Zapfino", "Arial", "DejaVu Sans", "Arial"]));
    let fonts = enumerate_fonts(&texts(&["b", ".hidden", "a", "#x", "", "b", "Z"]));
    assert_eq!(fonts, texts(&["Z", "a", "b"]));
    let usual = enumerate_system_fonts(FontPlatform::Linux, vec![]);
    assert_eq!(usual[0], "DejaVu Sans");
    assert_eq!(usual.len(), 8);
    assert_eq!(enumerate_system_fonts(FontPlatform::Windows, vec![]).len(), 14);
    assert_eq!(enumerate_system_fonts(FontPlatform::Mac, vec![])[1], "Monaco");
    assert_eq!(enumerate_system_fonts(FontPlatform::Unknown, vec![]).len(), 5);
    assert_eq!(enumerate_system_fonts(FontPlatform::Linux, texts(&["X"])), texts(&["X"]));
}

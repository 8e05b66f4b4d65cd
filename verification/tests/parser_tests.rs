use xcbridge::report::parse_test_counts;
use xcbridge::report::parse_test_summary;
use xcbridge::runner::BuildParams;
use xcbridge::runner::RunnerState;
use xcbridge::runner::TestParams;
use xcbridge::runner::parse_sdk_list;
use xcbridge::text::find_sub;
use xcbridge::text::first_line_or;
use xcbridge::text::parse_u32;
use xcbridge::text::split_lines;
use xcbridge::text::split_ws;
use xcbridge::text::str_contains;
use xcbridge::text::trim_str;

fn s(text: &str) -> String {
    text.to_string()
}

#[test]
fn build_args_cover_every_field() {
    let params = BuildParams {
        project: Some(s("/p/App.xcodeproj")),
        workspace: None,
        scheme: s("App"),
        configuration: s("Release"),
        destination: Some(s("platform=iOS Simulator,name=iPhone 15 Pro")),
        derived_data_path: Some(s("/tmp/dd")),
        extra_args: vec![s("-quiet"), s("-json")],
    };
    assert_eq!(
        params.to_args(),
        vec![
            s("-project"),
            s("/p/App.xcodeproj"),
            s("-scheme"),
            s("App"),
            s("-configuration"),
            s("Release"),
            s("-destination"),
            s("platform=iOS Simulator,name=iPhone 15 Pro"),
            s("-derivedDataPath"),
            s("/tmp/dd"),
            s("-quiet"),
            s("-json"),
        ]
    );
}

#[test]
fn minimal_build_args() {
    let params = BuildParams {
        project: None,
        workspace: Some(s("/w/App.xcworkspace")),
        scheme: s("App"),
        configuration: s("Debug"),
        destination: None,
        derived_data_path: None,
        extra_args: vec![],
    };
    assert_eq!(
        params.to_args(),
        vec![
            s("-workspace"),
            s("/w/App.xcworkspace"),
            s("-scheme"),
            s("App"),
            s("-configuration"),
            s("Debug"),
        ]
    );
}

#[test]
fn test_args_keep_selection_order() {
    let params = TestParams {
        project: Some(s("/p/App.xcodeproj")),
        workspace: None,
        scheme: s("AppTests"),
        destination: Some(s("platform=iOS Simulator,name=iPhone 15")),
        test_plan: Some(s("Smoke")),
        only_testing: vec![s("AppTests/First"), s("AppTests/Second")],
        skip_testing: vec![s("AppTests/Slow")],
    };
    assert_eq!(
        params.to_args(),
        vec![
            s("test"),
            s("-project"),
            s("/p/App.xcodeproj"),
            s("-scheme"),
            s("AppTests"),
            s("-destination"),
            s("platform=iOS Simulator,name=iPhone 15"),
            s("-testPlan"),
            s("Smoke"),
            s("-only-testing"),
            s("AppTests/First"),
            s("-only-testing"),
            s("AppTests/Second"),
            s("-skip-testing"),
            s("AppTests/Slow"),
        ]
    );
}

#[test]
fn runner_records_the_marker_directory() {
    let mut runner = RunnerState::new();
    runner.observe_line(s("Compiling"));
    assert_eq!(runner.build_dir, None);
    runner.observe_line(s("    BUILD_DIR = /out/Debug-iphonesimulator  "));
    assert_eq!(runner.build_dir, Some(s("/out/Debug-iphonesimulator")));
    // A later marker line replaces the recorded directory.
    runner.observe_line(s("BUILD_DIR = /out/Release"));
    assert_eq!(runner.build_dir, Some(s("/out/Release")));
    // Non-marker lines leave it alone.
    runner.observe_line(s("Linking"));
    assert_eq!(runner.build_dir, Some(s("/out/Release")));
    assert_eq!(
        runner.logs,
        vec![
            s("Compiling"),
            s("    BUILD_DIR = /out/Debug-iphonesimulator  "),
            s("BUILD_DIR = /out/Release"),
            s("Linking"),
        ]
    );
    let out = runner.finish(true, 0);
    assert!(out.success);
    assert_eq!(out.exit_code, 0);
    assert_eq!(out.build_dir, Some(s("/out/Release")));
}

#[test]
fn summary_line_yields_the_counts() {
    let line = "Executed 10 tests, with 2 failures (0 unexpected) in 1.234 (1.456) seconds";
    assert_eq!(parse_test_summary(line), Some((8, 2, 0)));
}

#[test]
fn summary_line_with_one_failure_word() {
    let line = "Executed 3 tests, with 1 failure (0 unexpected) in 0.5 seconds";
    assert_eq!(parse_test_summary(line), Some((2, 1, 0)));
}

#[test]
fn unreadable_summary_lines_yield_nothing() {
    assert_eq!(parse_test_summary("no counts here"), None);
    assert_eq!(parse_test_summary("Executed"), None);
    assert_eq!(parse_test_summary("Executed ten tests, with 2 failures"), None);
    assert_eq!(parse_test_summary("Executed 10 tests, no mention of the f-word"), None);
}

#[test]
fn counts_come_from_the_first_readable_summary_line() {
    let logs = vec![
        s("Test Suite 'All tests' started"),
        s("Executed 5 tests, with 1 failure (0 unexpected) in 0.2 seconds"),
        s("Executed 9 tests, with 9 failures (0 unexpected) in 0.9 seconds"),
    ];
    assert_eq!(parse_test_counts(&logs), (4, 1, 0));
}

#[test]
fn counts_default_to_zero() {
    assert_eq!(parse_test_counts(&vec![s("nothing relevant")]), (0, 0, 0));
    assert_eq!(parse_test_counts(&vec![]), (0, 0, 0));
}

#[test]
fn sdk_listing_is_parsed() {
    let listing = "iOS SDKs:\n\tiOS 17.0      -sdk iphoneos17.0\n\niOS Simulator SDKs:\n\tSimulator - iOS 17.0   -sdk iphonesimulator17.0\n";
    assert_eq!(parse_sdk_list(listing), vec![s("iphoneos17.0"), s("iphonesimulator17.0")]);
    assert_eq!(parse_sdk_list("no sdks here"), Vec::<String>::new());
}

#[test]
fn first_line_of_version_output() {
    assert_eq!(first_line_or("Xcode 15.0\nBuild version 15A240d\n", "Unknown"), s("Xcode 15.0"));
    assert_eq!(first_line_or("", "Unknown"), s("Unknown"));
    assert_eq!(first_line_or("one line only", "Unknown"), s("one line only"));
    assert_eq!(first_line_or("crlf line\r\nrest", "Unknown"), s("crlf line"));
}

#[test]
fn text_helpers_behave_like_their_contracts() {
    assert!(str_contains("a error: b", "error:"));
    assert!(!str_contains("clean build", "error:"));
    assert_eq!(find_sub("abcabc", "cab"), Some(2));
    assert_eq!(find_sub("abc", "zz"), None);
    assert_eq!(trim_str("  padded \t"), s("padded"));
    assert_eq!(trim_str(""), s(""));
    assert_eq!(split_ws(" a  bb\tc "), vec![s("a"), s("bb"), s("c")]);
    assert_eq!(split_ws(""), Vec::<String>::new());
    assert_eq!(split_lines("a\nb\r\nc"), vec![s("a"), s("b"), s("c")]);
    assert_eq!(split_lines("tail\n"), vec![s("tail")]);
}

#[test]
fn decimal_parsing_is_exact_and_bounded() {
    assert_eq!(parse_u32("0"), Some(0));
    assert_eq!(parse_u32("10"), Some(10));
    assert_eq!(parse_u32("4294967295"), Some(u32::MAX));
    assert_eq!(parse_u32("4294967296"), None);
    assert_eq!(parse_u32(""), None);
    assert_eq!(parse_u32("12a"), None);
    assert_eq!(parse_u32("-1"), None);
}

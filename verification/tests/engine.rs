use validvcf::engine::{starts_meta, validate_lines, ValidationState};

use validvcf::error_codes::VcfErrorCode;

const HEADER: &str = "#CHROM\tPOS\tID\tREF\tALT\tQUAL\tFILTER\tINFO\tFORMAT\tHG001";

fn lines(text: &[&str]) -> Vec<String> {
    text.iter().map(|l| l.to_string()).collect()
}

fn report_on(text: &[String]) -> VcfErrorCode {
    validate_lines(&text.to_vec()).outcome
}

fn small_file() -> Vec<String> {
    lines(&[
        "##fileformat=VCFv4.2",
        "##FILTER=<ID=PASS,Description=\"All filters passed\">",
        "##contig=<ID=chr1,length=248956422>",
        HEADER,
        "chr1\t10397\t.\tC\tG\t50\tPASS\tplatforms=1;callsets=2\tGT:PS:DP\t0/1:.:87",
        "chr1\t10398\t.\tA\tT\t50\tPASS\tplatforms=3\tGT:PS:DP\t1|1:PATMAT:199",
    ])
}

fn run(text: &[String]) -> ValidationState {
    let mut state = ValidationState::new();
    for line in text {
        state = state.step(line);
    }
    state.finish()
}

#[test]
fn meta_lines_start_with_two_hashes() {
    assert!(starts_meta("##fileformat=VCFv4.2"));
    assert!(starts_meta("##"));
    assert!(!starts_meta("#CHROM\tPOS"));
    assert!(!starts_meta("#"));
    assert!(!starts_meta(""));
    assert!(!starts_meta(" ##"));
    assert!(!starts_meta("chr1\t##"));
    assert!(!starts_meta("é#"));
}

#[test]
fn well_formed_file_is_valid() {
    assert_eq!(report_on(&small_file()), VcfErrorCode::NoError);
    assert_eq!(report_on(&small_file()).error_code(), 0);
}

#[test]
fn file_without_data_lines_is_valid() {
    assert_eq!(report_on(&lines(&["##a", HEADER])), VcfErrorCode::NoError);
    assert_eq!(report_on(&lines(&[HEADER])), VcfErrorCode::NoError);
}

#[test]
fn file_without_header_line_is_incorrect_header() {
    let missing = VcfErrorCode::IncorrectHeader(String::new());
    assert_eq!(report_on(&Vec::new()), missing);
    assert_eq!(report_on(&lines(&["##a"])), missing);
    assert_eq!(report_on(&lines(&["##a", "##b"])), missing);
    assert_eq!(report_on(&lines(&["##fileformat=VCFv4.2", "##", "##x"])), missing);
    assert_eq!(report_on(&Vec::new()).error_code(), 3);
    assert_eq!(
        report_on(&Vec::new()).error_message(),
        "Incorrect VCF column header line: "
    );
}

#[test]
fn file_without_header_line_is_read_to_the_end() {
    let report = validate_lines(&Vec::new());
    assert_eq!(report.outcome.error_code(), 3);
    assert_eq!(report.lines_read, 0);
    let report = validate_lines(&lines(&["##a", "##b", "##c"]));
    assert_eq!(report.outcome, VcfErrorCode::IncorrectHeader(String::new()));
    assert_eq!(report.lines_read, 3);
}

#[test]
fn header_line_after_the_meta_block_mends_a_headless_file() {
    let mut file = lines(&["##a", "##b"]);
    assert_eq!(report_on(&file).error_code(), 3);
    file.push(HEADER.to_string());
    assert_eq!(report_on(&file), VcfErrorCode::NoError);
}

#[test]
fn data_line_in_place_of_header_is_incorrect_header() {
    let data = "chr1\t10397\t.\tC\tG\t50\tPASS\tplatforms=1\tGT\t0/1";
    assert_eq!(
        report_on(&lines(&["##fileformat=VCFv4.2", data, HEADER])),
        VcfErrorCode::IncorrectHeader(data.to_string())
    );
}

#[test]
fn malformed_header_ends_the_run() {
    let bad = "#CHROM\tPOS\tID\tREF\tALT\tQUAL\tFILTER\tINFO\tFORMAT";
    let mut file = lines(&["##fileformat=VCFv4.2", bad]);
    let expected = VcfErrorCode::IncorrectHeader(bad.to_string());
    assert_eq!(report_on(&file), expected);
    assert_eq!(report_on(&file).error_code(), 3);
    file.push("not\ta\tdata\tline".to_string());
    file.push(HEADER.to_string());
    assert_eq!(report_on(&file), expected);
}

#[test]
fn empty_first_line_is_incorrect_header() {
    assert_eq!(
        report_on(&lines(&["", HEADER])),
        VcfErrorCode::IncorrectHeader(String::new())
    );
}

#[test]
fn second_header_line_is_a_data_line() {
    assert_eq!(
        report_on(&lines(&[HEADER, HEADER])),
        VcfErrorCode::IncorrectInfoEntry("INFO".to_string())
    );
}

#[test]
fn meta_line_after_header_is_a_data_line() {
    assert_eq!(
        report_on(&lines(&[HEADER, "##late"])),
        VcfErrorCode::IncorrectEntriesNumber("##late".to_string())
    );
}

#[test]
fn blank_line_at_the_end_is_a_data_line() {
    let mut file = small_file();
    file.push(String::new());
    assert_eq!(report_on(&file), VcfErrorCode::IncorrectEntriesNumber(String::new()));
}

#[test]
fn wrong_field_count_ends_the_run() {
    let short = "chr1\t10399\t.\tC\tG\t50\tPASS\tplatforms=1\tGT";
    let mut file = small_file();
    file.push(short.to_string());
    let expected = VcfErrorCode::IncorrectEntriesNumber(short.to_string());
    assert_eq!(report_on(&file), expected);
    assert_eq!(report_on(&file).error_code(), 4);
    file.push("chr1\t10400\t.\tA\tT\t50\tPASS\t\tGT\t0/1".to_string());
    assert_eq!(report_on(&file), expected);
}

#[test]
fn earliest_violation_is_the_one_reported() {
    let mut file = small_file();
    file.push("chr1\t1\t.\tC\tG\t50\tPASS\tDP=1\tGT:DP\t0/1".to_string());
    file.push("chr1\t2\t.\tC\tG\t50\tPASS\tDP\tGT\t0/1".to_string());
    file.push("chr1\t3\t.\tC\tG\t50\tPASS\tDP=1\tGT\t0/1".to_string());
    assert_eq!(
        report_on(&file),
        VcfErrorCode::IncorrectSampleEntriesNumber("0/1".to_string())
    );
    file.remove(6);
    assert_eq!(report_on(&file), VcfErrorCode::IncorrectInfoEntry("DP".to_string()));
    file.remove(6);
    assert_eq!(report_on(&file), VcfErrorCode::NoError);
}

#[test]
fn sample_count_comes_from_the_header() {
    let header3 = format!("{}\tHG002\tHG003", HEADER);
    let one = "chr1\t1\t.\tC\tG\t50\tPASS\tDP=1\tGT\t0/1";
    let three = "chr1\t1\t.\tC\tG\t50\tPASS\tDP=1\tGT\t0/1\t0/0\t1/1";
    assert_eq!(report_on(&lines(&[&header3, three, three])), VcfErrorCode::NoError);
    assert_eq!(
        report_on(&lines(&[&header3, three, one])),
        VcfErrorCode::IncorrectEntriesNumber(one.to_string())
    );
    assert_eq!(
        report_on(&lines(&[HEADER, three])),
        VcfErrorCode::IncorrectEntriesNumber(three.to_string())
    );
}

#[test]
fn file_with_empty_info_has_code_five() {
    let mut file = small_file();
    file.push("chr1\t10399\t.\tC\tG\t50\tPASS\t\tGT:PS:DP\t0/1:.:87".to_string());
    let outcome = report_on(&file);
    assert_eq!(outcome, VcfErrorCode::EmptyVcfEntry(String::new()));
    assert_eq!(outcome.error_code(), VcfErrorCode::EmptyVcfEntry("".to_string()).error_code());
}

#[test]
fn file_with_empty_format_key_has_code_eight() {
    let mut file = small_file();
    file.push("chr1\t10399\t.\tC\tG\t50\tPASS\tDP=1\tGT::DP\t0/1:.:87".to_string());
    let outcome = report_on(&file);
    assert_eq!(outcome, VcfErrorCode::EmptyFormatEntry("GT::DP".to_string()));
    assert_eq!(outcome.error_code(), VcfErrorCode::EmptyFormatEntry("".to_string()).error_code());
}

#[test]
fn file_with_empty_sample_value_has_code_nine() {
    let mut file = small_file();
    file.push("chr1\t10399\t.\tC\tG\t50\tPASS\tDP=1\tGT:PS:DP\t0/1::87".to_string());
    let outcome = report_on(&file);
    assert_eq!(outcome, VcfErrorCode::EmptySampleEntry("0/1::87".to_string()));
    assert_eq!(outcome.error_code(), VcfErrorCode::EmptySampleEntry("".to_string()).error_code());
}

#[test]
fn file_with_flag_only_info_fails() {
    let mut file = small_file();
    file.push("chr1\t10399\t.\tC\tG\t50\tPASS\tDB\tGT:PS:DP\t0/1:.:87".to_string());
    assert_ne!(report_on(&file).error_code(), 0);
}

#[test]
fn validating_twice_gives_the_same_report() {
    let mut file = small_file();
    assert_eq!(report_on(&file), report_on(&file));
    file.push("chr1\t10399\t.\tC\tG\t50\tPASS\tDB\tGT:PS:DP\t0/1:.:87".to_string());
    let first = report_on(&file);
    let second = report_on(&file);
    assert_eq!(first, second);
    assert_eq!(first.error_code(), second.error_code());
    assert_eq!(first.error_message(), second.error_message());
}

#[test]
fn state_moves_from_meta_to_header_to_data() {
    let state = ValidationState::new();
    assert!(matches!(state, ValidationState::AwaitingHeader));
    let state = state.step("##fileformat=VCFv4.2");
    assert!(matches!(state, ValidationState::AwaitingHeader));
    let state = state.step(&format!("{}\tHG002", HEADER));
    assert!(matches!(state, ValidationState::HasHeader(2)));
    let state = state.step("chr1\t1\t.\tC\tG\t50\tPASS\tDP=1\tGT\t0/1\t1/1");
    assert!(matches!(state, ValidationState::HasHeader(2)));
    assert!(!state.is_failed());
    let state = state.finish();
    assert!(matches!(state, ValidationState::Done));
    assert_eq!(state.into_outcome(), VcfErrorCode::NoError);
}

#[test]
fn failed_state_is_terminal() {
    let state = ValidationState::new().step(HEADER).step("too\tshort");
    assert!(state.is_failed());
    let state = state.step("chr1\t1\t.\tC\tG\t50\tPASS\tDP=1\tGT\t0/1");
    assert!(state.is_failed());
    let state = state.step(HEADER).finish();
    assert!(state.is_failed());
    assert_eq!(
        state.into_outcome(),
        VcfErrorCode::IncorrectEntriesNumber("too\tshort".to_string())
    );
}

#[test]
fn done_state_is_terminal() {
    let state = ValidationState::new().step(HEADER).finish();
    assert!(matches!(state, ValidationState::Done));
    let state = state.step("anything");
    assert!(matches!(state, ValidationState::Done));
    let state = state.finish();
    assert!(matches!(state, ValidationState::Done));
    assert_eq!(state.into_outcome(), VcfErrorCode::NoError);
}

#[test]
fn finishing_before_any_header_line_fails() {
    let state = ValidationState::new().finish();
    assert!(state.is_failed());
    assert_eq!(state.into_outcome(), VcfErrorCode::IncorrectHeader(String::new()));

    let state = ValidationState::new().step("##fileformat=VCFv4.2").finish();
    assert!(state.is_failed());
    let state = state.step(HEADER).finish();
    assert!(state.is_failed());
    let outcome = state.into_outcome();
    assert_eq!(outcome, VcfErrorCode::IncorrectHeader(String::new()));
    assert_eq!(outcome.error_code(), 3);
}

#[test]
fn unfinished_state_carries_no_error() {
    assert_eq!(ValidationState::new().into_outcome(), VcfErrorCode::NoError);
    assert_eq!(ValidationState::new().step(HEADER).into_outcome(), VcfErrorCode::NoError);
}

#[test]
fn stepping_agrees_with_whole_file_validation() {
    let mut file = small_file();
    assert_eq!(run(&file).into_outcome(), report_on(&file));
    file.push("chr1\t10399\t.\tC\tG\t50\tPASS\tDP=1\tGT:PS:DP\t0/1::87".to_string());
    file.push("chr1".to_string());
    assert_eq!(run(&file).into_outcome(), report_on(&file));
    let headless = lines(&["##x", "chr1\t1"]);
    assert_eq!(run(&headless).into_outcome(), report_on(&headless));
    let meta_only = lines(&["##x", "##y"]);
    assert_eq!(run(&meta_only).into_outcome(), report_on(&meta_only));
    assert_eq!(run(&[]).into_outcome(), report_on(&[]));
}

#[test]
fn valid_file_is_read_to_the_end() {
    let report = validate_lines(&small_file());
    assert_eq!(report.outcome, VcfErrorCode::NoError);
    assert_eq!(report.lines_read, 6);
}

#[test]
fn reading_stops_at_the_malformed_header() {
    let file = lines(&["##a", "##b", "#CHROM\tPOS", HEADER, "x"]);
    let report = validate_lines(&file);
    assert_eq!(report.outcome, VcfErrorCode::IncorrectHeader("#CHROM\tPOS".to_string()));
    assert_eq!(report.lines_read, 3);
}

#[test]
fn reading_stops_at_the_offending_data_line() {
    let mut file = small_file();
    file.push("chr1\t1\t.\tC\tG\t50\tPASS\tDP=1\tGT".to_string());
    file.push("chr1\t2\t.\tC\tG\t50\tPASS\tDP\tGT\t0/1".to_string());
    file.push("chr1\t3\t.\tC\tG\t50\tPASS\tDP=1\tGT\t0/1".to_string());
    let report = validate_lines(&file);
    assert_eq!(report.outcome.error_code(), 4);
    assert_eq!(report.lines_read, 7);
    file.remove(6);
    let report = validate_lines(&file);
    assert_eq!(report.outcome.error_code(), 7);
    assert_eq!(report.lines_read, 7);
    file.remove(6);
    let report = validate_lines(&file);
    assert_eq!(report.outcome.error_code(), 0);
    assert_eq!(report.lines_read, 7);
}

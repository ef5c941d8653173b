use validvcf::error_codes::VcfErrorCode;

fn all_kinds() -> Vec<VcfErrorCode> {
    vec![
        VcfErrorCode::NoError,
        VcfErrorCode::FileNotFound("a.vcf".to_string()),
        VcfErrorCode::FileReadError("a.vcf".to_string(), "broken pipe".to_string()),
        VcfErrorCode::IncorrectHeader("#CHROM".to_string()),
        VcfErrorCode::IncorrectEntriesNumber("1\t2".to_string()),
        VcfErrorCode::EmptyVcfEntry(String::new()),
        VcfErrorCode::EmptyInfoEntry("DP=5;;".to_string()),
        VcfErrorCode::IncorrectInfoEntry("DP".to_string()),
        VcfErrorCode::EmptyFormatEntry("GT::DP".to_string()),
        VcfErrorCode::EmptySampleEntry("0/1:".to_string()),
        VcfErrorCode::IncorrectSampleEntriesNumber("0/1".to_string()),
    ]
}

#[test]
fn codes_are_stable_and_distinct() {
    let codes: Vec<i32> = all_kinds().iter().map(|e| e.error_code()).collect();
    assert_eq!(codes, vec![0, 1, 2, 3, 4, 5, 6, 7, 8, 9, 10]);
}

#[test]
fn only_no_error_has_code_zero() {
    for e in all_kinds() {
        assert_eq!(e.error_code() == 0, e == VcfErrorCode::NoError);
    }
}

#[test]
fn code_ignores_the_offending_text() {
    assert_eq!(VcfErrorCode::FileNotFound("non_existing_file.vcf.gz".to_string()).error_code(), 1);
    assert_eq!(VcfErrorCode::EmptyVcfEntry("".to_string()).error_code(), 5);
    assert_eq!(VcfErrorCode::EmptyVcfEntry("x".to_string()).error_code(), 5);
    assert_eq!(VcfErrorCode::EmptyFormatEntry("".to_string()).error_code(), 8);
    assert_eq!(VcfErrorCode::EmptySampleEntry("".to_string()).error_code(), 9);
}

#[test]
fn messages_name_the_rule_and_the_text() {
    let messages: Vec<String> = all_kinds().iter().map(|e| e.error_message()).collect();
    assert_eq!(
        messages,
        vec![
            "OK",
            "File not found: a.vcf",
            "File reading Cannot read file a.vcf: broken pipe",
            "Incorrect VCF column header line: #CHROM",
            "Incorrect number of entries: 1\t2",
            "Empty VCF entry: ",
            "Empty INFO entry: DP=5;;",
            "Incorrectly formatted INFO entry: DP",
            "Empty FORMAT entry: GT::DP",
            "Empty SAMPLE entry: 0/1:",
            "Incorrect number of FORMAT entries: 0/1",
        ]
    );
}

#[test]
fn message_keeps_non_ascii_text() {
    assert_eq!(
        VcfErrorCode::IncorrectInfoEntry("clé".to_string()).error_message(),
        "Incorrectly formatted INFO entry: clé"
    );
}

#[test]
fn clone_keeps_kind_and_text() {
    for e in all_kinds() {
        let c = e.clone();
        assert_eq!(c, e);
        assert_eq!(c.error_code(), e.error_code());
        assert_eq!(c.error_message(), e.error_message());
    }
}

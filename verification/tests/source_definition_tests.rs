use japanx::{
    source_definition_from_record, JapanCbErrorKind, SourceDefinitionRecord,
    PARSER_INPUT_ENCODING, SOURCE_ENCODING_SHIFT_JIS, SOURCE_KIND_CSV_DOWNLOAD,
};

fn valid_record() -> SourceDefinitionRecord {
    SourceDefinitionRecord {
        kind: "csv_download".to_owned(),
        encoding: "shift_jis".to_owned(),
        unit: "100 million yen".to_owned(),
        scale: 1.0f64.to_bits(),
        metric_codes: vec![
            "JP.BS.TOTAL_ASSETS".to_owned(),
            "JP.CA.EXCESS_RESERVES".to_owned(),
        ],
    }
}

#[test]
fn parses_the_declared_source_shape() {
    let definition = source_definition_from_record(&valid_record()).expect("合法源定义");
    assert_eq!(definition.kind(), SOURCE_KIND_CSV_DOWNLOAD);
    assert_eq!(definition.encoding(), SOURCE_ENCODING_SHIFT_JIS);
    assert_eq!(definition.unit().text(), "100 million yen");
    assert_eq!(f64::from_bits(definition.scale()), 1.0);
    assert_eq!(definition.metric_codes().len(), 2);
    assert_eq!(PARSER_INPUT_ENCODING, "utf-8");
}

#[test]
fn kind_and_encoding_must_match_the_manifest() {
    let mut wrong_kind = valid_record();
    wrong_kind.kind = "json_api".to_owned();
    assert_eq!(
        source_definition_from_record(&wrong_kind)
            .expect_err("源形态必须是 csv_download")
            .kind(),
        JapanCbErrorKind::SemanticallyRejected
    );

    let mut wrong_encoding = valid_record();
    wrong_encoding.encoding = "utf-8".to_owned();
    assert_eq!(
        source_definition_from_record(&wrong_encoding)
            .expect_err("源侧编码必须是 shift_jis")
            .kind(),
        JapanCbErrorKind::SemanticallyRejected
    );
}

#[test]
fn undeclared_metric_codes_are_rejected() {
    let mut undeclared = valid_record();
    undeclared.metric_codes = vec!["JP.TK.LARGE_NON_MFG_DI".to_owned()];
    assert_eq!(
        source_definition_from_record(&undeclared)
            .expect_err("清单未声明的 metric_code 必须拒绝")
            .kind(),
        JapanCbErrorKind::SemanticallyRejected
    );
}

#[test]
fn empty_or_invalid_fields_are_rejected() {
    let mut empty_codes = valid_record();
    empty_codes.metric_codes = vec![];
    assert_eq!(
        source_definition_from_record(&empty_codes)
            .expect_err("空 metric_codes 必须拒绝")
            .kind(),
        JapanCbErrorKind::Missing
    );

    let mut zero_scale = valid_record();
    zero_scale.scale = 0.0f64.to_bits();
    assert_eq!(
        source_definition_from_record(&zero_scale)
            .expect_err("scale 不得为 0")
            .kind(),
        JapanCbErrorKind::Invalid
    );

    let mut blank_unit = valid_record();
    blank_unit.unit = "  ".to_owned();
    assert_eq!(
        source_definition_from_record(&blank_unit)
            .expect_err("空单位必须拒绝")
            .kind(),
        JapanCbErrorKind::Missing
    );

    let mut duplicate = valid_record();
    duplicate.metric_codes = vec!["JP.MS.M2".to_owned(), "JP.MS.M2".to_owned()];
    assert_eq!(
        source_definition_from_record(&duplicate)
            .expect_err("重复 metric_code 必须拒绝")
            .kind(),
        JapanCbErrorKind::SemanticallyRejected
    );
}

#[test]
fn scale_must_be_finite_and_non_zero() {
    for scale in [-0.0, f64::NAN, f64::INFINITY, f64::NEG_INFINITY] {
        let mut record = valid_record();
        record.scale = scale.to_bits();
        assert_eq!(
            source_definition_from_record(&record).expect_err("scale 非法").kind(),
            JapanCbErrorKind::Invalid,
            "{scale}"
        );
    }
    let mut negative = valid_record();
    negative.scale = (-100.0f64).to_bits();
    let definition = source_definition_from_record(&negative).expect("负数有限非零");
    assert_eq!(f64::from_bits(definition.scale()), -100.0);
}

#[test]
fn encoding_checks_come_in_order() {
    let mut blank_encoding = valid_record();
    blank_encoding.encoding = " ".to_owned();
    assert_eq!(
        source_definition_from_record(&blank_encoding).expect_err("空编码").kind(),
        JapanCbErrorKind::Missing
    );
    let mut padded_kind = valid_record();
    padded_kind.kind = " csv_download".to_owned();
    assert_eq!(
        source_definition_from_record(&padded_kind).expect_err("形态逐字比较").kind(),
        JapanCbErrorKind::SemanticallyRejected
    );
}

#[test]
fn malformed_code_keeps_its_own_kind_and_order_is_kept() {
    let mut malformed = valid_record();
    malformed.metric_codes = vec!["JP.MS.M2".to_owned(), "JP.MS".to_owned()];
    assert_eq!(
        source_definition_from_record(&malformed).expect_err("段数非法").kind(),
        JapanCbErrorKind::Invalid
    );
    let mut three = valid_record();
    three.metric_codes = vec![
        "JP.MS.M2".to_owned(),
        "JP.IR.TONA".to_owned(),
        "JP.BS.TOTAL_ASSETS".to_owned(),
    ];
    let definition = source_definition_from_record(&three).expect("合法");
    let texts: Vec<&str> = definition.metric_codes().iter().map(|c| c.as_str()).collect();
    assert_eq!(texts, ["JP.MS.M2", "JP.IR.TONA", "JP.BS.TOTAL_ASSETS"]);
    assert_eq!(definition.unit().text(), "100 million yen");
}

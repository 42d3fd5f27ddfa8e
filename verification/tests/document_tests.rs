use japanx::{
    annotate, data_point_from_record, data_points_from_document, source_definition_from_record,
    DataPointDocument, DataPointRecord, JapanCbError, JapanCbErrorKind, SourceDefinitionRecord,
    DECLARED_METRIC_CODES, SOURCE_KIND_CSV_DOWNLOAD,
};

const NOTE: &str = "本文件为特性 005 自拟的合成样本，不是真实源数据，不构成任何证据。";

fn point(metric_code: &str, period: &str, frequency: &str) -> DataPointRecord {
    DataPointRecord {
        metric_code: metric_code.to_owned(),
        period: period.to_owned(),
        frequency: frequency.to_owned(),
        value: Some(1.0f64.to_bits()),
        obs_status: None,
        unit: "100 million yen".to_owned(),
        revision: None,
    }
}

fn wrap(data_points: Vec<DataPointRecord>) -> DataPointDocument {
    DataPointDocument {
        synthetic: true,
        note: NOTE.to_owned(),
        data_points,
    }
}

#[test]
fn both_entries_work_offline_on_synthetic_text() {
    let document = DataPointDocument {
        synthetic: true,
        note: "合成样本".to_owned(),
        data_points: vec![point("JP.MB.TOTAL", "2026-08", "Monthly")],
    };
    let points = data_points_from_document(&document).expect("合成文档应可解析");
    assert_eq!(points.len(), 1);

    let record = SourceDefinitionRecord {
        kind: "csv_download".to_owned(),
        encoding: "shift_jis".to_owned(),
        unit: "100 million yen".to_owned(),
        scale: 1.0f64.to_bits(),
        metric_codes: vec!["JP.MB.TOTAL".to_owned()],
    };
    let definition = source_definition_from_record(&record).expect("合法源定义");
    assert_eq!(definition.kind(), SOURCE_KIND_CSV_DOWNLOAD);
}

#[test]
fn parses_metric_codes_periods_and_units() {
    let document = wrap(vec![
        point("JP.BS.TOTAL_ASSETS", "2026-08", "Monthly"),
        point("JP.IR.TONA", "2026-09-18", "Daily"),
    ]);
    let points = data_points_from_document(&document).expect("合成文档应可解析");
    assert_eq!(points.len(), 2);
    assert_eq!(points[0].metric_code.as_str(), "JP.BS.TOTAL_ASSETS");
    assert!(points[0].metric_code.is_declared());
    assert_eq!(points[0].unit.text(), "100 million yen");
    assert_eq!(points[0].revision, None);
    assert_eq!(points[1].period.key(), "2026-09-18");
}

#[test]
fn ten_day_period_and_frequency_are_supported() {
    let document = wrap(vec![point("JP.CA.EXCESS_RESERVES", "2026-09-T2", "TenDay")]);
    let points = data_points_from_document(&document).expect("旬期间应可解析");
    assert_eq!(points[0].period.key(), "2026-09-T2");
}

#[test]
fn unmarked_document_is_refused() {
    let contradicted = DataPointDocument {
        synthetic: false,
        note: "x".to_owned(),
        data_points: vec![],
    };
    assert_eq!(
        data_points_from_document(&contradicted)
            .expect_err("不得把非合成输入当源数据")
            .kind(),
        JapanCbErrorKind::SemanticallyRejected
    );

    let blank_note = DataPointDocument {
        synthetic: true,
        note: "  ".to_owned(),
        data_points: vec![],
    };
    assert_eq!(
        data_points_from_document(&blank_note)
            .expect_err("空说明必须拒绝")
            .kind(),
        JapanCbErrorKind::Missing
    );
}

#[test]
fn undeclared_metric_code_is_semantically_rejected_at_declaration_layer() {
    let document = wrap(vec![point("JP.TK.LARGE_NON_MFG_DI", "2026-08", "Monthly")]);
    let points = data_points_from_document(&document).expect("规范形合法");
    assert!(!points[0].metric_code.is_declared());
    assert!(!DECLARED_METRIC_CODES.contains(&points[0].metric_code.as_str()));
}

#[test]
fn undeclared_frequency_token_is_rejected() {
    for frequency in ["Weekly", "Event", "Irregular", "Tenday"] {
        let document = wrap(vec![point("JP.MS.M2", "2026-08", frequency)]);
        let error = data_points_from_document(&document).expect_err("清单未声明的期间取值必须拒绝");
        assert_eq!(
            error.kind(),
            JapanCbErrorKind::SemanticallyRejected,
            "{frequency}"
        );
    }
}

#[test]
fn illegal_period_is_rejected() {
    for period in ["2026-2-3", "2026/09/18", "2026-02-30", "2026-13", "2026-Q5"] {
        let document = wrap(vec![point("JP.MS.M2", period, "Monthly")]);
        assert!(data_points_from_document(&document).is_err(), "{period}");
    }
}

#[test]
fn duplicate_identity_is_rejected_not_deduplicated() {
    let document = wrap(vec![
        point("JP.MS.M2", "2026-08", "Monthly"),
        point("JP.MS.M2", "2026-08", "Monthly"),
    ]);
    assert_eq!(
        data_points_from_document(&document)
            .expect_err("重复身份必须拒绝")
            .kind(),
        JapanCbErrorKind::SemanticallyRejected
    );
}

#[test]
fn record_errors_name_the_record_and_keep_their_kind() {
    let document = wrap(vec![
        point("JP.MS.M2", "2026-08", "Monthly"),
        point("JP.MS.M2", "2026-09", "Monthly"),
        point("JP.MS.M2", "2026-10", "Weekly"),
    ]);
    let error = data_points_from_document(&document).expect_err("第 2 条频率未声明");
    assert_eq!(error.kind(), JapanCbErrorKind::SemanticallyRejected);
    assert!(error.to_string().starts_with("语义不被接受：第 2 条数据点："));

    let annotated = annotate(12, JapanCbError::Missing("x".to_owned()));
    assert_eq!(annotated.kind(), JapanCbErrorKind::Missing);
    assert_eq!(annotated.to_string(), "缺少必需项：第 12 条数据点：x");
}

#[test]
fn first_failure_decides_the_kind() {
    let mut blank_unit = point("JP.MS.M2", "2026-08", "Monthly");
    blank_unit.unit = " ".to_owned();
    let document = wrap(vec![blank_unit, point("JP.MS.M2", "2026-13", "Monthly")]);
    assert_eq!(
        data_points_from_document(&document).expect_err("空单位").kind(),
        JapanCbErrorKind::Missing
    );
    let document = wrap(vec![point("JP.MS.M2", "2026-13", "Monthly"), point("JP.MS", "2026-08", "Monthly")]);
    assert_eq!(
        data_points_from_document(&document).expect_err("非法期间").kind(),
        JapanCbErrorKind::Invalid
    );
}

#[test]
fn null_value_becomes_a_named_absence() {
    let mut with_status = point("JP.MS.M2", "2026-08", "Monthly");
    with_status.value = None;
    with_status.obs_status = Some(" NC ".to_owned());
    let mut blank_status = point("JP.MS.M2", "2026-09", "Monthly");
    blank_status.value = None;
    blank_status.obs_status = Some("  ".to_owned());
    let mut no_status = point("JP.MS.M2", "2026-10", "Monthly");
    no_status.value = None;
    let points = data_points_from_document(&wrap(vec![with_status, blank_status, no_status]))
        .expect("缺失具名");
    assert_eq!(points[0].value.missing_reason().expect("缺失").describe(), " NC ");
    assert_eq!(
        points[1].value.missing_reason().expect("缺失").describe(),
        "源侧未给出状态标记"
    );
    assert!(points[2].value.is_missing());
    assert_eq!(points[2].value.value(), None);
}

#[test]
fn revision_is_trimmed_and_part_of_the_identity() {
    let mut first = point("JP.MS.M2", "2026-08", "Monthly");
    first.revision = Some(" R1 ".to_owned());
    let second = point("JP.MS.M2", "2026-08", "Monthly");
    let points = data_points_from_document(&wrap(vec![first, second])).expect("不同修订");
    assert_eq!(points[0].data_point_id(), "JP.MS.M2:2026-08:R1");
    assert_eq!(points[1].data_point_id(), "JP.MS.M2:2026-08:none");

    let mut blank = point("JP.MS.M2", "2026-08", "Monthly");
    blank.revision = Some("\t".to_owned());
    assert_eq!(
        data_point_from_record(&blank).expect_err("空修订").kind(),
        JapanCbErrorKind::Missing
    );
}

#[test]
fn empty_document_gives_no_points() {
    assert!(data_points_from_document(&wrap(vec![])).expect("空集合").is_empty());
}

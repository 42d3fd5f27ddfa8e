use japanx::{
    reject_excluded_fx_symbol, reject_silent_fx_substitution, validate_metric_code, Date,
    Frequency, JapanCbErrorKind, MetricCategory, Period, Revision, Unit,
};

fn detail_of_date(input: &str) -> String {
    let error = Date::parse(input).unwrap_err();
    assert_eq!(error.kind(), JapanCbErrorKind::Invalid);
    error.to_string()
}

fn detail_of_period(input: &str) -> String {
    let error = Period::parse(input).unwrap_err();
    assert_eq!(error.kind(), JapanCbErrorKind::Invalid);
    error.to_string()
}

#[test]
fn date_parse_details_follow_the_byte_checks() {
    assert_eq!(
        detail_of_date("2026-2-3"),
        "输入非法：日期必须为 YYYY-MM-DD：长度 8 非法"
    );
    assert_eq!(
        detail_of_date("2026/02/03"),
        "输入非法：日期必须为 YYYY-MM-DD：分隔符必须为 `-`"
    );
    assert_eq!(detail_of_date("2026-0a-03"), "输入非法：日期第 6 位不是数字");
    assert_eq!(detail_of_date("20x6-01-0y"), "输入非法：日期第 2 位不是数字");
    // Full-width digits are three bytes each: the byte length decides.
    assert_eq!(
        detail_of_date("２０26-01-01"),
        "输入非法：日期必须为 YYYY-MM-DD：长度 14 非法"
    );
}

#[test]
fn date_range_details() {
    assert_eq!(
        detail_of_date("2026-02-30"),
        "输入非法：2026-02 的日 30 超出 1–28"
    );
    assert_eq!(
        detail_of_date("0999-02-30"),
        "输入非法：999-02 的日 30 超出 1–28"
    );
    assert_eq!(detail_of_date("2026-13-01"), "输入非法：月份 13 超出 1–12");
    assert_eq!(detail_of_date("0000-01-01"), "输入非法：年份 0 超出 1–9999");
    assert_eq!(
        Date::new(-5, 1, 1).unwrap_err().to_string(),
        "输入非法：年份 -5 超出 1–9999"
    );
    assert_eq!(
        Date::days_in_month(2026, 0).unwrap_err().to_string(),
        "输入非法：月份 0 超出 1–12"
    );
}

#[test]
fn period_parse_details() {
    assert_eq!(detail_of_period("2026-Q5"), "输入非法：季度 5 超出 1–4");
    assert_eq!(
        detail_of_period("0000-Q1"),
        "输入非法：年份 0 超出 1–9999"
    );
    assert_eq!(
        detail_of_period("2026-13"),
        "输入非法：月期间非法：月份 13 超出 1–12"
    );
    assert_eq!(detail_of_period("0000"), "输入非法：年份 0 超出 1–9999");
    assert_eq!(detail_of_period("20a6"), "输入非法：年份形态非法");
    assert_eq!(detail_of_period("2026-09-T4"), "输入非法：旬序号 4 超出 1–3");
    assert_eq!(
        detail_of_period("2026-13-T1"),
        "输入非法：旬期间非法：月份 13 超出 1–12"
    );
    assert_eq!(detail_of_period("2026-09-Tx"), "输入非法：旬序号形态非法");
    assert_eq!(detail_of_period("2026-Qx"), "输入非法：季度形态非法");
    assert_eq!(detail_of_period("2026-1x"), "输入非法：月份形态非法");
    assert_eq!(
        detail_of_period("abc"),
        "输入非法：期间形态非法（须为 YYYY-MM-DD / YYYY-MM-Tn / YYYY-MM / YYYY-Qn / YYYY / event:YYYY-MM-DD）"
    );
    assert_eq!(
        detail_of_period("event:2026-02-30"),
        "输入非法：2026-02 的日 30 超出 1–28"
    );
    assert_eq!(
        detail_of_period("2026-02-30"),
        "输入非法：2026-02 的日 30 超出 1–28"
    );
}

#[test]
fn period_parse_names_fields_by_byte_range() {
    // "é" is two bytes, so these texts have the byte lengths of the keyed forms;
    // the field is named, never quoted.
    assert_eq!(detail_of_period("é12-Q1"), "输入非法：年份形态非法");
    assert_eq!(detail_of_period("2026-é"), "输入非法：月份形态非法");
    assert_eq!(detail_of_period("é99"), "输入非法：年份形态非法");
    assert_eq!(
        detail_of_period("é9"),
        "输入非法：期间形态非法（须为 YYYY-MM-DD / YYYY-MM-Tn / YYYY-MM / YYYY-Qn / YYYY / event:YYYY-MM-DD）"
    );
}

#[test]
fn period_constructor_details() {
    assert_eq!(
        Period::ten_day(2026, 9, 0).unwrap_err().to_string(),
        "输入非法：旬序号 0 超出 1–3"
    );
    assert_eq!(
        Period::ten_day(2026, 0, 1).unwrap_err().to_string(),
        "输入非法：旬期间非法：月份 0 超出 1–12"
    );
    assert_eq!(
        Period::month(10000, 1).unwrap_err().to_string(),
        "输入非法：月期间非法：年份 10000 超出 1–9999"
    );
    assert_eq!(
        Period::quarter(2026, 0).unwrap_err().to_string(),
        "输入非法：季度 0 超出 1–4"
    );
    assert_eq!(
        Period::year(0).unwrap_err().to_string(),
        "输入非法：年份 0 超出 1–9999"
    );
}

#[test]
fn name_and_code_details() {
    assert_eq!(
        Frequency::from_name("Hourly").unwrap_err().to_string(),
        "输入非法：未知频率"
    );
    assert_eq!(
        Frequency::from_source_token("Weekly").unwrap_err().to_string(),
        "语义不被接受：清单未声明该期间取值（清单只有 Daily|TenDay|Monthly|Quarterly|Annual）"
    );
    assert_eq!(
        MetricCategory::from_code("ZZ").unwrap_err().to_string(),
        "语义不被接受：清单未声明该 metric_code 类别"
    );
}

#[test]
fn metric_code_details() {
    assert_eq!(
        validate_metric_code("JP.ZZ.X").unwrap_err().to_string(),
        "语义不被接受：清单未声明该 metric_code 类别"
    );
    assert_eq!(
        validate_metric_code("JP.BS").unwrap_err().to_string(),
        "输入非法：metric_code 段数非法（须为 JP.<类别>.<指标>[.<子维度>]）"
    );
    assert_eq!(
        validate_metric_code("US.BS.X").unwrap_err().to_string(),
        "输入非法：metric_code 前缀必须为 JP"
    );
    assert_eq!(
        validate_metric_code("JP.BS.").unwrap_err().to_string(),
        "缺少必需项：metric_code 第 2 段为空"
    );
    assert_eq!(
        validate_metric_code("JP.BS.X.").unwrap_err().to_string(),
        "缺少必需项：metric_code 第 3 段为空"
    );
    assert_eq!(
        validate_metric_code("JP.BS.总资产").unwrap_err().to_string(),
        "语义不被接受：metric_code 第 2 段含非 ASCII 或空白"
    );
}

#[test]
fn fx_guard_details() {
    assert_eq!(
        reject_excluded_fx_symbol("JPY=X").unwrap_err().to_string(),
        "越权写入被拒绝：JPY=X / USDJPY=X 归 fredx 独占（DEXJPUS）：本库不得主张主源"
    );
    assert_eq!(
        reject_silent_fx_substitution("DEXJPUS", "USDJPY=X")
            .unwrap_err()
            .to_string(),
        "语义不被接受：JPY=X / USDJPY=X 与 DEXJPUS 语义不同：前者归 fredx 独占，MUST NOT 互为别名"
    );
}

#[test]
fn unit_and_revision_details() {
    assert_eq!(Unit::try_new("  ").unwrap_err().to_string(), "缺少必需项：源侧单位为空");
    assert_eq!(Revision::try_new("").unwrap_err().to_string(), "缺少必需项：修订标识为空");
}

fn record(metric_code: &str, period: &str, frequency: &str) -> japanx::DataPointRecord {
    japanx::DataPointRecord {
        metric_code: metric_code.to_owned(),
        period: period.to_owned(),
        frequency: frequency.to_owned(),
        value: Some(1.0f64.to_bits()),
        obs_status: None,
        unit: "100 million yen".to_owned(),
        revision: None,
    }
}

fn document(records: Vec<japanx::DataPointRecord>) -> japanx::DataPointDocument {
    japanx::DataPointDocument {
        synthetic: true,
        note: "合成样本".to_owned(),
        data_points: records,
    }
}

#[test]
fn document_details_carry_the_record_position() {
    let bad_period = document(vec![
        record("JP.MS.M2", "2026-08", "Monthly"),
        record("JP.MS.M2", "2026-Q5", "Quarterly"),
    ]);
    assert_eq!(
        japanx::data_points_from_document(&bad_period)
            .unwrap_err()
            .to_string(),
        "输入非法：第 1 条数据点：季度 5 超出 1–4"
    );
    let mismatch = document(vec![record("JP.MS.M2", "2026-08", "Daily")]);
    assert_eq!(
        japanx::data_points_from_document(&mismatch)
            .unwrap_err()
            .to_string(),
        "语义不被接受：第 0 条数据点：频率 Daily 与期间粒度 Monthly 不一致"
    );
    let repeated = document(vec![
        record("JP.MS.M2", "2026-08", "Monthly"),
        record("JP.MS.M2", "2026-08", "Monthly"),
    ]);
    assert_eq!(
        japanx::data_points_from_document(&repeated)
            .unwrap_err()
            .to_string(),
        "语义不被接受：第 1 条数据点身份重复（本库选择拒绝而非去重）"
    );
    let unmarked = japanx::DataPointDocument {
        synthetic: false,
        note: "x".to_owned(),
        data_points: vec![],
    };
    assert_eq!(
        japanx::data_points_from_document(&unmarked)
            .unwrap_err()
            .to_string(),
        "语义不被接受：离线解析只接受显式标注 `_synthetic = true` 的合成样本：本层不得把未标注输入当作源数据"
    );
    let blank_note = japanx::DataPointDocument {
        synthetic: true,
        note: " ".to_owned(),
        data_points: vec![],
    };
    assert_eq!(
        japanx::data_points_from_document(&blank_note)
            .unwrap_err()
            .to_string(),
        "缺少必需项：`_note` 为空：合成样本必须说明「不是真实源数据」"
    );
}

fn definition() -> japanx::SourceDefinitionRecord {
    japanx::SourceDefinitionRecord {
        kind: "csv_download".to_owned(),
        encoding: "shift_jis".to_owned(),
        unit: "100 million yen".to_owned(),
        scale: 1.0f64.to_bits(),
        metric_codes: vec!["JP.MS.M2".to_owned(), "JP.MB.TOTAL".to_owned()],
    }
}

fn definition_detail(record: &japanx::SourceDefinitionRecord) -> String {
    japanx::source_definition_from_record(record)
        .unwrap_err()
        .to_string()
}

#[test]
fn source_definition_details() {
    let mut json_api = definition();
    json_api.kind = "json_api".to_owned();
    assert_eq!(
        definition_detail(&json_api),
        "语义不被接受：源形态与清单声明的 csv_download 不符"
    );
    let mut blank_encoding = definition();
    blank_encoding.encoding = " ".to_owned();
    assert_eq!(definition_detail(&blank_encoding), "缺少必需项：源侧编码声明为空");
    let mut utf8 = definition();
    utf8.encoding = "utf-8".to_owned();
    assert_eq!(
        definition_detail(&utf8),
        "语义不被接受：源侧编码与清单声明的 shift_jis 不符"
    );
    let mut nan = definition();
    nan.scale = f64::NAN.to_bits();
    assert_eq!(
        definition_detail(&nan),
        "输入非法：scale 必须是有限非零数"
    );
    let mut none = definition();
    none.metric_codes = vec![];
    assert_eq!(definition_detail(&none), "缺少必需项：metric_codes 为空");
    let mut undeclared = definition();
    undeclared.metric_codes = vec!["JP.TK.LARGE_NON_MFG_DI".to_owned()];
    assert_eq!(
        definition_detail(&undeclared),
        "语义不被接受：清单未声明该 metric_code"
    );
    let mut twice = definition();
    twice.metric_codes = vec!["JP.MS.M2".to_owned(), "JP.MS.M2".to_owned()];
    assert_eq!(
        definition_detail(&twice),
        "语义不被接受：metric_codes 中重复声明"
    );
    let mut malformed = definition();
    malformed.metric_codes = vec!["JP.ZZ.X".to_owned()];
    assert_eq!(
        definition_detail(&malformed),
        "语义不被接受：清单未声明该 metric_code 类别"
    );
}

#[test]
fn details_never_repeat_the_input() {
    let secret = "synthetic-secret-value";
    let mut details = vec![
        validate_metric_code(secret).unwrap_err().to_string(),
        validate_metric_code(&format!("JP.{secret}.X")).unwrap_err().to_string(),
        validate_metric_code(&format!("XX.BS.{secret} ")).unwrap_err().to_string(),
        Period::parse(secret).unwrap_err().to_string(),
        Frequency::from_name(secret).unwrap_err().to_string(),
        Frequency::from_source_token(secret).unwrap_err().to_string(),
        MetricCategory::from_code(secret).unwrap_err().to_string(),
    ];
    let point = record(secret, "2026-08", "Monthly");
    details.push(japanx::data_points_from_document(&document(vec![point])).unwrap_err().to_string());
    let mut kind = definition();
    kind.kind = secret.to_owned();
    details.push(definition_detail(&kind));
    let mut encoding = definition();
    encoding.encoding = secret.to_owned();
    details.push(definition_detail(&encoding));
    let mut codes = definition();
    codes.metric_codes = vec![format!("JP.BS.{secret}"), format!("JP.BS.{secret}")];
    details.push(definition_detail(&codes));
    for detail in details {
        assert!(!detail.contains(secret), "{detail}");
    }
}

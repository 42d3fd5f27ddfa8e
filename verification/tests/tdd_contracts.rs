use japanx::{
    claim_curve_authority, claim_forwarded_series_sovereignty, current_authorization,
    decide_authorization, ensure_authorized, ensure_no_converted_or_derived_field,
    is_declared_metric_code, publication_for_period, publication_semantics, registered_evidence, reject_excluded_fx_symbol,
    reject_silent_fx_substitution, validate_data_point, validate_metric_code, AvailabilityEvidence,
    DataPointValue, Date, Frequency, JapanCbAuthorization, JapanCbAuthorizationEvidence,
    JapanCbDataPoint, JapanCbError, JapanCbErrorKind, JapanCbMissingReason, MetricCategory, Period,
    PitEligibility, Revision, TimePrecision, Unit, DECLARED_METRIC_CODES, EXCLUDED_FX_SYMBOLS,
    FRED_EXCLUSIVE_FX_SERIES, JP_BS_ETF_HOLDINGS, JP_BS_JGB_HOLDINGS, JP_BS_TOTAL_ASSETS,
    JP_CA_EXCESS_RESERVES, JP_CA_TOTAL, JP_FX_INTERVENTION, JP_IR_POLICY_RATE, JP_IR_TONA,
    JP_MB_TOTAL, JP_MO_JGB_PURCHASE, JP_MS_M2, JP_TK_LARGE_MFG_DI, SOURCE_UNIT_HUNDRED_MILLION_YEN,
};

fn unit() -> Unit {
    Unit::try_new(SOURCE_UNIT_HUNDRED_MILLION_YEN).expect("合法单位")
}

fn day() -> Date {
    Date::new(2026, 9, 18).expect("合法日期")
}

fn every_error() -> Vec<JapanCbError> {
    vec![
        JapanCbError::Invalid("x".to_owned()),
        JapanCbError::Missing("x".to_owned()),
        JapanCbError::AuthorizationDenied("x".to_owned()),
        JapanCbError::RoutedElsewhere("x".to_owned()),
        JapanCbError::WriteAuthorityDenied("x".to_owned()),
        JapanCbError::SemanticallyRejected("x".to_owned()),
        JapanCbError::NotApplicable("x".to_owned()),
        JapanCbError::Invariant("x".to_owned()),
    ]
}

fn data_point(period: Period, frequency: Frequency, value: DataPointValue) -> JapanCbDataPoint {
    JapanCbDataPoint::new(
        validate_metric_code(JP_BS_TOTAL_ASSETS).expect("合法 metric_code"),
        period,
        frequency,
        value,
        unit(),
        None,
    )
    .expect("合法数据点")
}

#[test]
fn error_kind_maps_every_variant_distinctly() {
    let kinds: Vec<JapanCbErrorKind> = every_error().iter().map(JapanCbError::kind).collect();
    assert_eq!(
        kinds,
        [
            JapanCbErrorKind::Invalid,
            JapanCbErrorKind::Missing,
            JapanCbErrorKind::AuthorizationDenied,
            JapanCbErrorKind::RoutedElsewhere,
            JapanCbErrorKind::WriteAuthorityDenied,
            JapanCbErrorKind::SemanticallyRejected,
            JapanCbErrorKind::NotApplicable,
            JapanCbErrorKind::Invariant,
        ]
    );
}

#[test]
fn tdd_contracts_only_invariant_is_retryable() {
    for error in every_error() {
        assert_eq!(
            error.is_retryable(),
            error.kind() == JapanCbErrorKind::Invariant,
            "{error:?}"
        );
    }
}

#[test]
fn tdd_contracts_twelve_metric_codes_are_listed_verbatim() {
    assert_eq!(
        DECLARED_METRIC_CODES,
        [
            "JP.BS.TOTAL_ASSETS",
            "JP.BS.JGB_HOLDINGS",
            "JP.BS.ETF_HOLDINGS",
            "JP.IR.POLICY_RATE",
            "JP.IR.TONA",
            "JP.MB.TOTAL",
            "JP.MS.M2",
            "JP.CA.TOTAL",
            "JP.CA.EXCESS_RESERVES",
            "JP.MO.JGB_PURCHASE",
            "JP.FX.INTERVENTION",
            "JP.TK.LARGE_MFG_DI",
        ]
    );
    let named = [
        JP_BS_TOTAL_ASSETS,
        JP_BS_JGB_HOLDINGS,
        JP_BS_ETF_HOLDINGS,
        JP_IR_POLICY_RATE,
        JP_IR_TONA,
        JP_MB_TOTAL,
        JP_MS_M2,
        JP_CA_TOTAL,
        JP_CA_EXCESS_RESERVES,
        JP_MO_JGB_PURCHASE,
        JP_FX_INTERVENTION,
        JP_TK_LARGE_MFG_DI,
    ];
    assert_eq!(named, DECLARED_METRIC_CODES);
}

#[test]
fn metric_code_shape_is_validated() {
    for code in DECLARED_METRIC_CODES {
        assert_eq!(validate_metric_code(code).expect(code).as_str(), code);
    }
    for bad in [
        "",
        "JP.BS",
        "US.BS.TOTAL_ASSETS",
        "JP.XX.Y",
        "JP.BS.",
        "JP.BS.A B",
        "JP.BS.A.B.C",
    ] {
        assert!(validate_metric_code(bad).is_err(), "{bad:?}");
    }
    // 子维度形态合法。
    assert!(validate_metric_code("JP.BS.TOTAL_ASSETS.SUB").is_ok());
}

#[test]
fn declared_membership_is_checked_separately() {
    let declared = validate_metric_code(JP_MS_M2).expect("合法");
    assert_eq!(declared.as_str(), JP_MS_M2);
    assert!(declared.is_declared());
    assert!(is_declared_metric_code(JP_MS_M2));
    assert_eq!(declared.to_string(), JP_MS_M2);

    let well_formed_but_undeclared =
        validate_metric_code("JP.TK.LARGE_NON_MFG_DI").expect("规范形合法");
    assert!(!well_formed_but_undeclared.is_declared());
    assert!(!is_declared_metric_code("JP.TK.LARGE_NON_MFG_DI"));
}

#[test]
fn eight_categories_are_listed() {
    let codes: Vec<&str> = MetricCategory::ALL
        .iter()
        .map(MetricCategory::code)
        .collect();
    assert_eq!(codes, ["BS", "IR", "MB", "MS", "CA", "MO", "FX", "TK"]);
    for category in MetricCategory::ALL {
        assert_eq!(
            MetricCategory::from_code(category.code()).expect("可回读"),
            category
        );
    }
    assert!(MetricCategory::from_code("ZZ").is_err());
    for code in DECLARED_METRIC_CODES {
        assert_eq!(
            validate_metric_code(code)
                .expect(code)
                .category()
                .expect("类别可解析")
                .code()
                .len(),
            2,
            "{code}"
        );
    }
}

#[test]
fn tdd_contracts_excluded_fx_symbols_are_refused() {
    assert_eq!(EXCLUDED_FX_SYMBOLS, ["JPY=X", "USDJPY=X"]);
    assert_eq!(FRED_EXCLUSIVE_FX_SERIES, "DEXJPUS");
    for symbol in EXCLUDED_FX_SYMBOLS {
        assert_eq!(
            reject_excluded_fx_symbol(symbol)
                .expect_err("本库不得主张该主源")
                .kind(),
            JapanCbErrorKind::WriteAuthorityDenied
        );
    }
    assert!(reject_excluded_fx_symbol(FRED_EXCLUSIVE_FX_SERIES).is_ok());
}

#[test]
fn tdd_contracts_silent_fx_substitution_is_rejected() {
    for pair in [
        ("JPY=X", FRED_EXCLUSIVE_FX_SERIES),
        ("USDJPY=X", FRED_EXCLUSIVE_FX_SERIES),
    ] {
        assert_eq!(
            reject_silent_fx_substitution(pair.0, pair.1)
                .expect_err("近义非同 ID 不得互换")
                .kind(),
            JapanCbErrorKind::SemanticallyRejected
        );
    }
    assert!(reject_silent_fx_substitution(JP_MB_TOTAL, JP_MS_M2).is_ok());
}

#[test]
fn tdd_contracts_curve_and_forwarded_sovereignty_are_refused() {
    assert_eq!(
        claim_curve_authority().expect_err("曲线归 yieldx").kind(),
        JapanCbErrorKind::RoutedElsewhere
    );
    assert_eq!(
        claim_forwarded_series_sovereignty()
            .expect_err("主权待裁")
            .kind(),
        JapanCbErrorKind::WriteAuthorityDenied
    );
}

#[test]
fn tdd_contracts_period_constructors_validate_ranges() {
    assert_eq!(Period::day(day()).key(), "2026-09-18");
    assert!(Period::month(2026, 0).is_err());
    assert!(Period::month(2026, 13).is_err());
    assert!(Period::quarter(2026, 0).is_err());
    assert!(Period::quarter(2026, 5).is_err());
    assert!(Period::year(0).is_err());
    assert!(Period::ten_day(2026, 9, 0).is_err());
    assert!(Period::ten_day(2026, 9, 4).is_err());
    assert!(Period::ten_day(2026, 9, 3).is_ok());
    assert!(Period::event(day()).key().starts_with("event:"));
    assert_eq!(Period::event(day()).key(), "event:2026-09-18");
}

#[test]
fn tdd_contracts_period_keys_round_trip() {
    let cases = [
        Period::day(day()),
        Period::ten_day(2026, 9, 2).expect("合法旬期间"),
        Period::month(2026, 9).expect("合法月期间"),
        Period::quarter(2026, 3).expect("合法季期间"),
        Period::year(2026).expect("合法年期间"),
        Period::event(day()),
    ];
    for period in cases {
        let key = period.key();
        assert_eq!(Period::parse(&key).expect("可回读"), period, "key={key}");
    }
    assert_eq!(
        Period::ten_day(2026, 9, 2).expect("合法").key(),
        "2026-09-T2"
    );
    for bad in ["2026-2-3", "2026/09/18", "2026-09-T4", "2026-Q5", ""] {
        assert!(Period::parse(bad).is_err(), "{bad}");
    }
}

#[test]
fn period_frequency_covers_declared_granularities() {
    assert_eq!(Period::day(day()).frequency(), Frequency::Daily);
    assert_eq!(
        Period::ten_day(2026, 9, 1).expect("合法").frequency(),
        Frequency::TenDay
    );
    assert_eq!(
        Period::month(2026, 9).expect("合法").frequency(),
        Frequency::Monthly
    );
    assert_eq!(
        Period::quarter(2026, 3).expect("合法").frequency(),
        Frequency::Quarterly
    );
    assert_eq!(
        Period::year(2026).expect("合法").frequency(),
        Frequency::Annual
    );
    assert_eq!(Period::event(day()).frequency(), Frequency::Event);
}

#[test]
fn tdd_contracts_frequency_names_round_trip() {
    assert_eq!(Frequency::ALL.len(), 8);
    let names: Vec<&str> = Frequency::ALL.iter().map(Frequency::name).collect();
    assert_eq!(
        names,
        [
            "Daily",
            "TenDay",
            "Weekly",
            "Monthly",
            "Quarterly",
            "Annual",
            "Event",
            "Irregular"
        ]
    );
    for frequency in Frequency::ALL {
        assert_eq!(
            Frequency::from_name(frequency.name()).expect("可回读"),
            frequency
        );
    }
    assert!(Frequency::from_name("daily").is_err());
}

#[test]
fn tdd_contracts_source_tokens_are_limited_to_the_declared_five() {
    let declared: Vec<&str> = Frequency::SOURCE_DECLARED
        .iter()
        .map(Frequency::name)
        .collect();
    assert_eq!(
        declared,
        ["Daily", "TenDay", "Monthly", "Quarterly", "Annual"]
    );
    for frequency in Frequency::SOURCE_DECLARED {
        assert_eq!(
            Frequency::from_source_token(frequency.name()).expect("清单声明值"),
            frequency
        );
    }
    for undeclared in ["Weekly", "Event", "Irregular"] {
        assert_eq!(
            Frequency::from_source_token(undeclared)
                .expect_err(undeclared)
                .kind(),
            JapanCbErrorKind::SemanticallyRejected
        );
    }
}

#[test]
fn date_strict_iso_and_leap_years() {
    let date = Date::parse("2026-09-08").expect("合法日期");
    assert_eq!((date.year(), date.month(), date.day()), (2026, 9, 8));
    assert_eq!(date.to_iso(), "2026-09-08");
    assert_eq!(Date::parse(&date.to_iso()).expect("可回读"), date);

    for bad in [
        "2026-2-3",
        "2026/02/03",
        "2026-02-30",
        "2026-02-03T00:00:00Z",
    ] {
        assert!(Date::parse(bad).is_err(), "{bad}");
    }
    assert!(Date::is_leap_year(2000));
    assert!(!Date::is_leap_year(1900));
    assert_eq!(Date::days_in_month(2024, 2).expect("2 月"), 29);
    assert!(Date::days_in_month(2026, 13).is_err());
    assert!(Date::new(2026, 2, 29).is_err());
}

#[test]
fn unit_and_revision_keep_source_text() {
    assert_eq!(SOURCE_UNIT_HUNDRED_MILLION_YEN, "100 million yen");
    let unit = Unit::try_new("  100 million yen  ").expect("合法单位");
    assert_eq!(unit.text(), SOURCE_UNIT_HUNDRED_MILLION_YEN);
    assert_eq!(unit.to_string(), SOURCE_UNIT_HUNDRED_MILLION_YEN);
    assert!(Unit::try_new("   ").is_err());

    let revision = Revision::try_new(" R2 ").expect("合法修订标识");
    assert_eq!(revision.text(), "R2");
    assert_eq!(revision.to_string(), "R2");
    assert!(Revision::try_new("").is_err());
}

#[test]
fn tdd_contracts_missing_value_is_named_and_never_zero() {
    let absent = data_point(
        Period::day(day()),
        Frequency::Daily,
        DataPointValue::Missing(JapanCbMissingReason::SourceStatus(
            "SYNTH_STATUS".to_owned(),
        )),
    );
    assert_eq!(absent.value.value(), None, "缺失不得转 0");
    assert!(absent.value.is_missing());
    assert!(absent.value.missing_reason().is_some());

    let present = data_point(
        Period::day(day()),
        Frequency::Daily,
        DataPointValue::Value(0.5f64.to_bits()),
    );
    assert_eq!(present.value.value(), Some(0.5f64.to_bits()));
    assert!(!present.value.is_missing());
    assert_eq!(present.value.missing_reason(), None);
    assert!(!JapanCbMissingReason::Unspecified.describe().is_empty());
}

#[test]
fn data_point_validates_granularity() {
    let plain = data_point(
        Period::month(2026, 8).expect("合法期间"),
        Frequency::Monthly,
        DataPointValue::Value(1.0f64.to_bits()),
    );
    assert_eq!(plain.data_point_id(), "JP.BS.TOTAL_ASSETS:2026-08:none");
    assert!(validate_data_point(&plain).is_ok());

    let revised = JapanCbDataPoint::new(
        validate_metric_code(JP_BS_TOTAL_ASSETS).expect("合法"),
        Period::month(2026, 8).expect("合法期间"),
        Frequency::Monthly,
        DataPointValue::Value(1.0f64.to_bits()),
        unit(),
        Some(Revision::try_new("R2").expect("合法修订标识")),
    )
    .expect("合法数据点");
    assert_ne!(plain.data_point_id(), revised.data_point_id());

    let mismatched = JapanCbDataPoint::new(
        validate_metric_code(JP_BS_TOTAL_ASSETS).expect("合法"),
        Period::year(2026).expect("合法期间"),
        Frequency::Daily,
        DataPointValue::Value(1.0f64.to_bits()),
        unit(),
        None,
    );
    assert_eq!(
        mismatched.expect_err("粒度不一致必须拒绝").kind(),
        JapanCbErrorKind::SemanticallyRejected
    );
}

#[test]
fn converted_fields_are_out_of_scope() {
    assert_eq!(
        ensure_no_converted_or_derived_field()
            .expect_err("换算 / 派生 / 存储字段不属本层")
            .kind(),
        JapanCbErrorKind::NotApplicable
    );
}

#[test]
fn authorization_is_fail_closed() {
    // 缺失 / 范围不明 / 签署者不明 / 有效期不明 / 已过期 —— 一律拒绝。
    assert!(!decide_authorization(None, day()).is_authorized());

    let shapes = [
        JapanCbAuthorizationEvidence::new(
            "ref",
            Some("signer"),
            None,
            Some(Date::new(2030, 1, 1).expect("合法日期")),
        ),
        JapanCbAuthorizationEvidence::new(
            "ref",
            None,
            Some("scope"),
            Some(Date::new(2030, 1, 1).expect("合法日期")),
        ),
        JapanCbAuthorizationEvidence::new("ref", Some("signer"), Some("scope"), None),
        JapanCbAuthorizationEvidence::new(
            "ref",
            Some("signer"),
            Some("scope"),
            Some(Date::new(2026, 1, 1).expect("合法日期")),
        ),
        JapanCbAuthorizationEvidence::new(
            "  ",
            Some("signer"),
            Some("scope"),
            Some(Date::new(2030, 1, 1).expect("合法日期")),
        ),
    ];
    for evidence in shapes {
        let verdict = decide_authorization(Some(&evidence), day());
        assert!(!verdict.is_authorized(), "{evidence:?}");
        assert!(verdict
            .denial_reason()
            .is_some_and(|reason| !reason.trim().is_empty()));
    }

    // 合成证据只用于验证判定形状，不构成任何真实授权证据。
    let complete = JapanCbAuthorizationEvidence::new(
        "synthetic-evidence-ref",
        Some("synthetic-signer"),
        Some("offline_parse_and_types"),
        Some(Date::new(2030, 1, 1).expect("合法日期")),
    );
    match decide_authorization(Some(&complete), day()) {
        JapanCbAuthorization::Authorized { scope } => assert_eq!(scope, "offline_parse_and_types"),
        other => panic!("完整证据应放行：{other:?}"),
    }
}

#[test]
fn registered_evidence_is_absent() {
    assert!(registered_evidence().is_none(), "本源不得凭空构造证据");
    assert!(!current_authorization(day()).is_authorized());
}

#[test]
fn ensure_authorized_maps_denial() {
    let error = ensure_authorized(&current_authorization(day())).expect_err("unknown 授权必须拒绝");
    assert_eq!(error.kind(), JapanCbErrorKind::AuthorizationDenied);
    assert!(!error.is_retryable());
    let allowed = JapanCbAuthorization::Authorized {
        scope: "synthetic-scope".to_owned(),
    };
    assert!(ensure_authorized(&allowed).is_ok());
}

#[test]
fn publication_triple_is_fixed() {
    assert_eq!(
        publication_semantics(),
        (
            TimePrecision::Date,
            AvailabilityEvidence::Inferred,
            PitEligibility::NotEligible
        )
    );
    let (echoed, precision, evidence, eligibility) = publication_for_period(day());
    assert_eq!(echoed, day());
    assert_eq!(precision, TimePrecision::Date);
    assert_eq!(evidence, AvailabilityEvidence::Inferred);
    assert_eq!(eligibility, PitEligibility::NotEligible);
}


use japanx::{Date, Frequency, JapanCbErrorKind, Period};

fn date(year: i16, month: u8, day: u8) -> Date {
    Date::new(year, month, day).expect("合法日期")
}

#[test]
fn period_frequency_names_round_trip() {
    for frequency in Frequency::ALL {
        assert_eq!(
            Frequency::from_name(frequency.name()).expect("可回读"),
            frequency
        );
    }
    assert_eq!(Frequency::ALL.len(), 8);
    assert_eq!(Frequency::SOURCE_DECLARED.len(), 5);
    assert!(Frequency::from_name("Fortnightly").is_err());
}

#[test]
fn period_source_tokens_are_limited_to_the_declared_five() {
    for frequency in Frequency::SOURCE_DECLARED {
        assert_eq!(
            Frequency::from_source_token(frequency.name()).expect("清单声明值"),
            frequency
        );
    }
    for undeclared in ["Weekly", "Event", "Irregular", "Tenday", ""] {
        let error = Frequency::from_source_token(undeclared).expect_err(undeclared);
        assert_eq!(error.kind(), JapanCbErrorKind::SemanticallyRejected);
    }
}

#[test]
fn period_period_keys_round_trip() {
    let cases = [
        Period::day(date(2026, 9, 18)),
        Period::ten_day(2026, 9, 2).expect("合法旬期间"),
        Period::month(2026, 9).expect("合法月期间"),
        Period::quarter(2026, 3).expect("合法季期间"),
        Period::year(2026).expect("合法年期间"),
        Period::event(date(2026, 9, 18)),
    ];
    for period in cases {
        let key = period.key();
        assert_eq!(Period::parse(&key).expect("可回读"), period, "key={key}");
    }
}

#[test]
fn period_keys_have_fixed_shapes() {
    assert_eq!(Period::day(date(2026, 9, 18)).key(), "2026-09-18");
    assert_eq!(
        Period::ten_day(2026, 9, 2).expect("合法").key(),
        "2026-09-T2"
    );
    assert_eq!(Period::month(2026, 9).expect("合法").key(), "2026-09");
    assert_eq!(Period::quarter(2026, 3).expect("合法").key(), "2026-Q3");
    assert_eq!(Period::year(2026).expect("合法").key(), "2026");
    assert_eq!(Period::event(date(2026, 9, 18)).key(), "event:2026-09-18");
}

#[test]
fn period_frequency_covers_the_declared_granularities() {
    assert_eq!(Period::day(date(2026, 9, 18)).frequency(), Frequency::Daily);
    assert_eq!(
        Period::ten_day(2026, 9, 2).expect("合法").frequency(),
        Frequency::TenDay
    );
    assert_eq!(
        Period::month(2026, 9).expect("合法").frequency(),
        Frequency::Monthly
    );
    assert_eq!(
        Period::quarter(2026, 3).expect("合法").frequency(),
        Frequency::Quarterly
    );
    assert_eq!(
        Period::year(2026).expect("合法").frequency(),
        Frequency::Annual
    );
    assert_eq!(
        Period::event(date(2026, 9, 18)).frequency(),
        Frequency::Event
    );
}

#[test]
fn period_parse_rejects_malformed_input() {
    let cases = [
        "2026-2-3",
        "2026/09/18",
        "2026-13",
        "2026-Q5",
        "2026-Q0",
        "2026-09-T0",
        "2026-09-T4",
        "2026-09-T",
        "26",
        "",
    ];
    for input in cases {
        let error = Period::parse(input).expect_err(input);
        assert_eq!(error.kind(), JapanCbErrorKind::Invalid, "{input}");
    }
}

#[test]
fn period_period_constructors_validate_ranges() {
    assert!(Period::month(2026, 0).is_err());
    assert!(Period::month(2026, 13).is_err());
    assert!(Period::quarter(2026, 0).is_err());
    assert!(Period::quarter(2026, 5).is_err());
    assert!(Period::year(0).is_err());
    assert!(Period::ten_day(2026, 9, 0).is_err());
    assert!(Period::ten_day(2026, 9, 4).is_err());
    assert!(Period::ten_day(2026, 13, 1).is_err());
    assert!(Period::ten_day(2026, 9, 3).is_ok());
}

#[test]
fn keys_of_unchecked_periods_follow_zero_padding() {
    assert_eq!(Period::Year(-5).key(), "-005");
    assert_eq!(Period::Year(-1234).key(), "-1234");
    assert_eq!(Period::Year(12345).key(), "12345");
    assert_eq!(Period::Year(7).key(), "0007");
    assert_eq!(Period::Month { year: 2026, month: 123 }.key(), "2026-123");
    assert_eq!(Period::Quarter { year: 2026, quarter: 17 }.key(), "2026-Q17");
    assert_eq!(
        Period::TenDay { year: 33, month: 4, segment: 200 }.key(),
        "0033-04-T200"
    );
}

#[test]
fn every_valid_period_key_parses_back() {
    for year in [1i16, 9, 10, 99, 100, 999, 1000, 2026, 9999] {
        for month in 1..=12u8 {
            let period = Period::month(year, month).expect("合法月期间");
            assert_eq!(Period::parse(&period.key()).expect("可回读"), period);
            for segment in 1..=3u8 {
                let period = Period::ten_day(year, month, segment).expect("合法旬期间");
                assert_eq!(Period::parse(&period.key()).expect("可回读"), period);
            }
        }
        for quarter in 1..=4u8 {
            let period = Period::quarter(year, quarter).expect("合法季期间");
            assert_eq!(Period::parse(&period.key()).expect("可回读"), period);
        }
        let period = Period::year(year).expect("合法年期间");
        assert_eq!(Period::parse(&period.key()).expect("可回读"), period);
        let period = Period::event(date(year, 2, 28));
        assert_eq!(Period::parse(&period.key()).expect("可回读"), period);
    }
}

#[test]
fn non_ascii_and_prefixed_inputs_are_invalid() {
    for input in ["２０２６", "2026-Q３", "event:2026-9-18", "event:", "Event:2026-09-18", "2026-09-18T"] {
        assert_eq!(
            Period::parse(input).expect_err(input).kind(),
            JapanCbErrorKind::Invalid,
            "{input}"
        );
    }
}

use japanx::{
    publication_for_period, publication_semantics, AvailabilityEvidence, Date, PitEligibility,
    TimePrecision,
};

#[test]
fn semantics_triple_is_fixed() {
    assert_eq!(
        publication_semantics(),
        (
            TimePrecision::Date,
            AvailabilityEvidence::Inferred,
            PitEligibility::NotEligible
        )
    );
}

#[test]
fn formal_pit_is_never_eligible() {
    assert_ne!(
        publication_semantics().2,
        PitEligibility::Formal,
        "正式 PIT 资格必须为 NotEligible"
    );
}

#[test]
fn period_is_passed_through_without_promotion() {
    let period = Date::new(2026, 9, 18).expect("合法日期");
    let (echoed, precision, evidence, eligibility) = publication_for_period(period);
    assert_eq!(echoed, period);
    assert_eq!(precision, TimePrecision::Date);
    assert_eq!(evidence, AvailabilityEvidence::Inferred);
    assert_eq!(eligibility, PitEligibility::NotEligible);
}

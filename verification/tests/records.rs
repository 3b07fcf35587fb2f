//! The field and record parsers, exercised line by line.

use lamda::records::{
    Comment, ElementName, ElementWeight, EnergyLevel, EnergyLevelField, RadiativeTransition,
    RadiativeTransitionField, CollisionalRates, CollisionalRatesField, CollisionalTemperatures,
    CollisionPartnerId, CollisionPartnerName, NumberOfEnergyLevels, NumberOfRadiativeTransitions,
    NumberOfCollisionPartners, NumberOfCollisionalTransitions, NumberOfCollisionalTemperatures,
    SplittedFieldParseError, ExpectedFieldValue,
};

#[test]
fn parse_comment() {
    let s = "! Comment      ";
    let expected = Ok(Comment(String::from("Comment")));

    assert_eq!(
        s.parse::<Comment>(),
        expected,
        "Wrong result for default comment string `{}`",
        s
    );
}

#[test]
fn comment_trimming_is_idempotent() {
    let a = "!  text   ".parse::<Comment>().unwrap();
    let b = "! text".parse::<Comment>().unwrap();
    assert_eq!(a.0, "text");
    assert_eq!(b.0, "text");
    let again = a.0.parse::<Comment>().unwrap();
    assert_eq!(again.0, a.0);
}

#[test]
fn parse_u32() {
    let s = "  65 ";
    let expected_number_of_energy_levels = Ok(NumberOfEnergyLevels(65));
    let expected_number_of_radiative_transitions = Ok(NumberOfRadiativeTransitions(65));
    let expected_number_of_collision_partners = Ok(NumberOfCollisionPartners(65));
    let expected_number_of_collisional_transitions = Ok(NumberOfCollisionalTransitions(65));
    let expected_number_of_collisional_temperatures = Ok(NumberOfCollisionalTemperatures(65));

    assert_eq!(
        s.parse::<NumberOfEnergyLevels>(),
        expected_number_of_energy_levels,
        "Cannot parse u32 value from string `{}`",
        s
    );
    assert_eq!(
        s.parse::<NumberOfRadiativeTransitions>(),
        expected_number_of_radiative_transitions,
        "Cannot parse u32 value from string `{}`",
        s
    );
    assert_eq!(
        s.parse::<NumberOfCollisionPartners>(),
        expected_number_of_collision_partners,
        "Cannot parse u32 value from string `{}`",
        s
    );
    assert_eq!(
        s.parse::<NumberOfCollisionalTransitions>(),
        expected_number_of_collisional_transitions,
        "Cannot parse u32 value from string `{}`",
        s
    );
    assert_eq!(
        s.parse::<NumberOfCollisionalTemperatures>(),
        expected_number_of_collisional_temperatures,
        "Cannot parse u32 value from string `{}`",
        s
    );
}

#[test]
fn parse_element_name() {
    let s = "  TEST ! Additional information  ";
    let expected = Ok(ElementName {
        name: String::from("TEST"),
        information: String::from("Additional information"),
    });

    assert_eq!(
        s.parse::<ElementName>(),
        expected,
        "Wrong result for default format string `{}`",
        s
    );
}

#[test]
fn parse_element_weight() {
    let s = " 32.3  ";
    let expected = Ok(ElementWeight(String::from("32.3")));

    assert_eq!(
        s.parse::<ElementWeight>(),
        expected,
        "Cannot parse f32 value from string `{}`",
        s
    );
    assert_eq!(s.parse::<ElementWeight>().unwrap().0.parse::<f64>().unwrap(), 32.3);
}

#[test]
fn parse_energy_level() {
    let s = "   32  32.4    1e-12   ! ' 3 5 6'";
    let expected = Ok(EnergyLevel {
        level: 32,
        energy: String::from("32.4"),
        stat_weight: String::from("1e-12"),
        qnums: String::from("3 5 6"),
    });

    assert_eq!(
        s.parse::<EnergyLevel>(),
        expected,
        "Wrong result for default format string `{}`",
        s
    );
    let level = s.parse::<EnergyLevel>().unwrap();
    assert_eq!(level.energy.parse::<f64>().unwrap(), 32.4);
    assert_eq!(level.stat_weight.parse::<f64>().unwrap(), 1e-12);
}

#[test]
fn parse_radiative_transition() {
    let s = "  45 32 9  1e-14     345.32    Additional";
    let expected = Ok(RadiativeTransition {
        transition: 45,
        up: 32,
        low: 9,
        aeinst: String::from("1e-14"),
        extra: String::from("345.32 Additional"),
    });

    assert_eq!(
        s.parse::<RadiativeTransition>(),
        expected,
        "Wrong result for default format string `{}`",
        s
    );
    assert_eq!(s.parse::<RadiativeTransition>().unwrap().aeinst.parse::<f64>().unwrap(), 1e-14);
}

#[test]
fn parse_collision_partner_name() {
    let s = "2 ! Additional info ";
    let expected = Ok(CollisionPartnerName {
        name: CollisionPartnerId::pH2,
        information: String::from("Additional info"),
    });

    assert_eq!(
        s.parse::<CollisionPartnerName>(),
        expected,
        "Wrong result for default format string `{}`",
        s
    );
}

#[test]
fn parse_collisional_temperatures() {
    let s = "10.1 20.2  30.3     40.4   ";
    let expected = Ok(CollisionalTemperatures(vec![
        String::from("10.1"),
        String::from("20.2"),
        String::from("30.3"),
        String::from("40.4"),
    ]));

    assert_eq!(
        s.parse::<CollisionalTemperatures>(),
        expected,
        "Wrong result for default format string `{}`",
        s
    );
    let temps = s.parse::<CollisionalTemperatures>().unwrap();
    let values: Vec<f64> = temps.0.iter().map(|t| t.parse::<f64>().unwrap()).collect();
    assert_eq!(values, vec![10.1, 20.2, 30.3, 40.4]);
}

#[test]
fn parse_collisional_rates() {
    let s = "65 42 13    12e-12 13e-13 14e-14";
    let expected = Ok(CollisionalRates {
        transition: 65,
        up: 42,
        low: 13,
        rates: vec![
            String::from("12e-12"),
            String::from("13e-13"),
            String::from("14e-14"),
        ],
    });

    assert_eq!(
        s.parse::<CollisionalRates>(),
        expected,
        "Wrong result for default format string `{}`",
        s
    );
    let rates = s.parse::<CollisionalRates>().unwrap();
    let values: Vec<f64> = rates.rates.iter().map(|t| t.parse::<f64>().unwrap()).collect();
    assert_eq!(values, vec![12e-12, 13e-13, 14e-14]);
}

#[test]
fn two_token_level_line_misses_statistical_weight() {
    let s = "12 1.5";
    let expected = Err(SplittedFieldParseError::MissingField {
        field: EnergyLevelField::StatisticalWeight,
        expected: ExpectedFieldValue::Float,
    });
    assert_eq!(s.parse::<EnergyLevel>(), expected);
}

#[test]
fn bad_level_index_is_reported_with_its_text() {
    let s = "x2 1.5 2.0";
    let expected = Err(SplittedFieldParseError::UnknownFormat {
        field: EnergyLevelField::Level,
        value: String::from("x2"),
        expected: ExpectedFieldValue::Integer,
    });
    assert_eq!(s.parse::<EnergyLevel>(), expected);
}

#[test]
fn bad_rate_coefficient_is_reported_with_its_text() {
    let s = "1 2 1 1.0e-10 zz 3.0e-10";
    let expected = Err(SplittedFieldParseError::UnknownFormat {
        field: CollisionalRatesField::RateCoefficients,
        value: String::from("zz"),
        expected: ExpectedFieldValue::Float,
    });
    assert_eq!(s.parse::<CollisionalRates>(), expected);
}

#[test]
fn missing_decay_rate_is_reported() {
    let s = "1 2 1";
    let expected = Err(SplittedFieldParseError::MissingField {
        field: RadiativeTransitionField::SpontaneousDecayRate,
        expected: ExpectedFieldValue::Float,
    });
    assert_eq!(s.parse::<RadiativeTransition>(), expected);
}

#[test]
fn partner_code_nine_is_unknown() {
    let s = "9 He2 ! exotic";
    assert!(s.parse::<CollisionPartnerName>().is_err());
    let t = "9 ";
    assert!(t.parse::<CollisionPartnerName>().is_err());
}

#[test]
fn all_seven_partner_codes_are_known() {
    let expected = [
        CollisionPartnerId::H2,
        CollisionPartnerId::pH2,
        CollisionPartnerId::oH2,
        CollisionPartnerId::electrons,
        CollisionPartnerId::HI,
        CollisionPartnerId::He,
        CollisionPartnerId::HII,
    ];
    for code in 1u32..=7 {
        let line = format!("{} ! info", code);
        let parsed = line.parse::<CollisionPartnerName>().unwrap();
        assert_eq!(parsed.name, expected[(code - 1) as usize]);
    }
    assert!("0 ! info".parse::<CollisionPartnerName>().is_err());
    assert!("8 ! info".parse::<CollisionPartnerName>().is_err());
}

#[test]
fn float_tokens_follow_the_standard_grammar() {
    for good in ["1", "1.", ".5", "1.5", "+1.5", "-1.5", "1e5", "1E-5", "1.5e+3",
        "inf", "INF", "-inf", "infinity", "nan", "NaN", "3.", ".5e2"] {
        let line = format!("1 2.0 {}", good);
        assert!(line.parse::<EnergyLevel>().is_ok(), "`{}` should be a float", good);
    }
    for bad in ["", ".", "e5", "1e", "1e+", "one", "0x1", "1.2.3", "--1", "in", "infx"] {
        let line = format!("1 2.0 {}", bad);
        assert!(line.parse::<EnergyLevel>().is_err(), "`{}` should not be a float", bad);
    }
}

#[test]
fn count_tokens_accept_a_plus_sign_and_reject_overflow() {
    assert_eq!("+65".parse::<NumberOfEnergyLevels>(), Ok(NumberOfEnergyLevels(65)));
    assert_eq!("4294967295".parse::<NumberOfEnergyLevels>(), Ok(NumberOfEnergyLevels(4294967295)));
    assert!("4294967296".parse::<NumberOfEnergyLevels>().is_err());
    assert!("-1".parse::<NumberOfEnergyLevels>().is_err());
    assert!("".parse::<NumberOfEnergyLevels>().is_err());
    assert!("1.5".parse::<NumberOfEnergyLevels>().is_err());
}

#[test]
fn float_recognition_agrees_with_the_standard_parser() {
    let tokens = [
        "1", "1.", ".5", "1.5", "+1.5", "-1.5", "1e5", "1E-5", "1.5e+3", "1.e5", "5.e-3",
        "inf", "INF", "-inf", "+inf", "infinity", "Infinity", "nan", "NaN", "-nan",
        "2.5E-308", "1e999", "0.0", "-0.0", "007", "1__0", "1_000.5",
        "", ".", "..", "e5", "1e", "1e+", "1e-", "one", "0x1", "1.2.3", "--1", "++1",
        "in", "infx", "nana", "infinit", "infinityy", "+-1", "1.5e", "_1", ".e5",
    ];
    for tok in tokens {
        let line = format!("1 2.0 {}", tok);
        assert_eq!(
            line.parse::<EnergyLevel>().is_ok(),
            tok.parse::<f64>().is_ok(),
            "disagreement on `{}`",
            tok
        );
    }
}

#[test]
fn count_recognition_agrees_with_the_standard_parser() {
    let tokens = [
        "0", "65", "+65", "007", "4294967295", "4294967296", "99999999999999999999",
        "", "+", "-1", "1.5", "0x10", "ten", " 65", "6 5", "٦٥", "+0", "+4294967295",
    ];
    for tok in tokens {
        assert_eq!(
            tok.parse::<NumberOfEnergyLevels>().is_ok(),
            tok.trim().parse::<u32>().is_ok(),
            "disagreement on `{}`",
            tok
        );
    }
}

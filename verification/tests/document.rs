//! Whole-document parses: the fixed grammar, zero counts, truncation, and
//! the first-error-wins failures.

use lamda::document::ElementData;
use lamda::error::ParseError;

fn partner_block(code: u32) -> String {
    let mut s = String::new();
    s.push_str("!COLLISIONS BETWEEN\n");
    s.push_str(&format!("{} TEST + partner\n", code));
    s.push_str("!NUMBER OF COLL TRANS\n");
    s.push_str("3\n");
    s.push_str("!NUMBER OF COLL TEMPS\n");
    s.push_str("2\n");
    s.push_str("!COLL TEMPS\n");
    s.push_str("10.0 20.0\n");
    s.push_str("!TRANS + UP + LOW + RATES\n");
    s.push_str("1 2 1 1.0e-10 2.0e-10\n");
    s.push_str("2 3 2 1.1e-10 2.1e-10\n");
    s.push_str("3 3 1 1.2e-10 2.2e-10\n");
    s
}

fn six_partner_document() -> String {
    let mut s = String::new();
    s.push_str("!MOLECULE\n");
    s.push_str("TEST\n");
    s.push_str("!MOLECULAR WEIGHT\n");
    s.push_str("28.0\n");
    s.push_str("!NUMBER OF ENERGY LEVELS\n");
    s.push_str("3\n");
    s.push_str("!LEVEL + ENERGIES + WEIGHT + QNUM\n");
    s.push_str("1 0.0 1.0 0\n");
    s.push_str("2 5.0 3.0 1\n");
    s.push_str("3 15.0 5.0 2\n");
    s.push_str("!NUMBER OF RADIATIVE TRANSITIONS\n");
    s.push_str("3\n");
    s.push_str("!TRANS + UP + LOW + EINSTEINA\n");
    s.push_str("1 2 1 1.0e-6\n");
    s.push_str("2 3 2 2.0e-6\n");
    s.push_str("3 3 1 3.0e-7\n");
    s.push_str("!NUMBER OF COLL PARTNERS\n");
    s.push_str("6\n");
    for code in 2u32..=7 {
        s.push_str(&partner_block(code));
    }
    s
}

#[test]
fn six_partners_parse_completely() {
    let text = six_partner_document();
    let doc = ElementData::from_text(&text).unwrap();
    assert_eq!(doc.name, "TEST");
    assert_eq!(doc.weight, "28.0");
    assert_eq!(doc.energy_levels.len(), 3);
    assert_eq!(doc.radiative_transitions.len(), 3);
    assert_eq!(doc.collision_partners.len(), 6);
    for partner in &doc.collision_partners {
        assert_eq!(partner.rates.len(), 3);
        assert_eq!(partner.temperatures.len(), 2);
    }
    assert_eq!(doc.weight.parse::<f64>().unwrap(), 28.0);
}

#[test]
fn truncated_document_fails_just_past_its_last_line() {
    let text = six_partner_document();
    let lines: Vec<&str> = text.lines().collect();
    let kept = lines.len() - 12;
    let truncated = lines[..kept].join("\n");
    let result = truncated.parse::<ElementData>();
    assert_eq!(
        result,
        Err(ParseError::NotEnoughInput {
            line_number: kept + 1
        })
    );
}

#[test]
fn trailing_comments_accumulate_into_information() {
    let mut text = six_partner_document();
    text.push_str("!NOTES\n");
    text.push_str("\n");
    text.push_str("! Hello there\n");
    let doc = ElementData::from_text(&text).unwrap();
    assert_eq!(doc.information, ". NOTES Hello there ");
}

#[test]
fn trailing_garbage_names_the_partner_count() {
    let mut text = six_partner_document();
    text.push_str("!NOTES\n");
    text.push_str("stray data\n");
    let result = text.parse::<ElementData>();
    assert_eq!(
        result,
        Err(ParseError::WrongCommentFormat {
            line_number: 92,
            line: String::from("stray data"),
            note: String::from(
                "6 collision partners were read, only comments with additional information should be left"
            ),
        })
    );
}

#[test]
fn zero_count_sections_parse_to_empty_sequences() {
    let text = "!MOLECULE\nX\n!WEIGHT\n1.0\n!LEVELS\n0\n!LEVEL LINES\n!TRANSITIONS\n0\n!TRANSITION LINES\n!PARTNERS\n0\n";
    let doc = ElementData::from_text(text).unwrap();
    assert_eq!(doc.energy_levels.len(), 0);
    assert_eq!(doc.radiative_transitions.len(), 0);
    assert_eq!(doc.collision_partners.len(), 0);
}

#[test]
fn empty_input_wants_its_first_line() {
    let result = "".parse::<ElementData>();
    assert_eq!(result, Err(ParseError::NotEnoughInput { line_number: 1 }));
}

#[test]
fn non_comment_first_line_fails_the_gate() {
    let result = "MOLECULE\nX\n".parse::<ElementData>();
    assert_eq!(
        result,
        Err(ParseError::WrongCommentFormat {
            line_number: 1,
            line: String::from("MOLECULE"),
            note: String::from("Comment should begin with `!` character"),
        })
    );
}

#[test]
fn bad_weight_line_is_not_a_float() {
    let result = "!A\nX\n!B\ntwenty\n".parse::<ElementData>();
    assert_eq!(
        result,
        Err(ParseError::NotAFloat {
            line_number: 4,
            line: String::from("twenty"),
            note: String::from("Expected floating point number"),
        })
    );
}

#[test]
fn bad_level_count_is_not_an_integer() {
    let result = "!A\nX\n!B\n1.0\n!C\nmany\n".parse::<ElementData>();
    assert_eq!(
        result,
        Err(ParseError::NotAnInteger {
            line_number: 6,
            line: String::from("many"),
            note: String::from("Expected integer"),
        })
    );
}

#[test]
fn short_level_line_names_the_missing_field() {
    let result = "!A\nX\n!B\n1.0\n!C\n1\n!D\n1 0.0\n".parse::<ElementData>();
    assert_eq!(
        result,
        Err(ParseError::MissingField {
            line_number: 8,
            line: String::from("1 0.0"),
            note: String::from(
                "Missing field `statistical weight` with value of floating point number type"
            ),
        })
    );
}

#[test]
fn mistyped_level_energy_is_located_in_its_line() {
    let result = "!A\nX\n!B\n1.0\n!C\n1\n!D\n1 badx 2.0\n".parse::<ElementData>();
    assert_eq!(
        result,
        Err(ParseError::UnknownItem {
            line_number: 8,
            column: 2,
            value_width: 4,
            line: String::from("1 badx 2.0"),
            note: String::from(
                "Value `badx` from field `energy [cm-1]` has wrong type (should be floating point number)"
            ),
        })
    );
}

#[test]
fn unknown_partner_code_fails_whatever_follows() {
    let mut text = String::new();
    text.push_str("!MOLECULE\nX\n!W\n1.0\n!L\n0\n!LL\n!T\n0\n!TT\n!P\n1\n");
    text.push_str("!COLLISIONS BETWEEN\n");
    text.push_str("9 something else entirely\n");
    let result = text.parse::<ElementData>();
    assert_eq!(
        result,
        Err(ParseError::UnknownCollisionPartner {
            line_number: 14,
            line: String::from("9 something else entirely"),
            note: String::from(
                "Unknown collision partner id (1=H2, 2=para-H2, 3=ortho-H2, 4=electrons, 5=H, 6=He, 7=H+)"
            ),
        })
    );
}

#[test]
fn bad_temperature_token_is_located() {
    let mut text = String::new();
    text.push_str("!MOLECULE\nX\n!W\n1.0\n!L\n0\n!LL\n!T\n0\n!TT\n!P\n1\n");
    text.push_str("!COLLISIONS BETWEEN\n");
    text.push_str("5 X + H\n");
    text.push_str("!NUMBER OF COLL TRANS\n");
    text.push_str("1\n");
    text.push_str("!NUMBER OF COLL TEMPS\n");
    text.push_str("3\n");
    text.push_str("!COLL TEMPS\n");
    text.push_str("10.0 warm 30.0\n");
    let result = text.parse::<ElementData>();
    assert_eq!(
        result,
        Err(ParseError::UnknownItem {
            line_number: 20,
            column: 5,
            value_width: 4,
            line: String::from("10.0 warm 30.0"),
            note: String::from("Value `warm` has wrong type (should be floating point number)"),
        })
    );
}

#[test]
fn parse_lamda_file_contents() -> Result<(), ParseError> {
    let s = r#"!MOLECULE
        O (neutral atom)
        !MOLECULAR WEIGHT
        16.0
        !NUMBER OF ENERGY LEVELS
        3
        !LEVEL + ENERGIES(cm^-1) + WEIGHT + Qnum
           1    0.000000000   5.0  3_P_2  ! 2S+1  L  J = 3 P 2
           2  158.2687410     3.0  3_P_1  ! 2S+1  L  J = 3 P 1
           3  226.9852492     1.0  3_P_0  ! 2S+1  L  J = 3 P 0
        !NUMBER OF RADIATIVE TRANSITIONS
        3
        !TRANS + UP + LOW + EINSTEINA(s^-1) + FREQ(GHz) + E_u(K)
            1     2     1   8.910E-05  4744.77749   227.712
            2     3     1   1.340E-10  6804.84658   326.579
            3     3     2   1.750E-05  2060.06909   326.579
        !NUMBER OF COLL PARTNERS
        6
        !COLLISIONS BETWEEN
        5 O + H  ! Lique et al. 2018, MNRAS 474, 2313 corrected, transmitted by M. Wolfire. T-points selected by E. Roueff
        !NUMBER OF COLL TRANS
        3
        !NUMBER OF COLL TEMPS
        19
        !COLL TEMPS
           10.000      20.000      30.000      40.000      60.000      80.000      110.00      160.00      220.00      320.00      450.00      630.00      890.00      1260.0      1780.0      2510.0      3550.0      5010.0      8000.0
        !TRANS + UP + LOW + COLLRATES(cm^3 s^-1)
            1     2     1   7.0204e-11  8.2028e-11  9.0584e-11  9.8459e-11  1.1421e-10  1.3039e-10  1.5488e-10  1.9425e-10  2.3747e-10  2.9974e-10  3.6597e-10  4.3801e-10  5.1576e-10  5.9551e-10  6.7682e-10  7.6338e-10  8.6209e-10  9.7867e-10  1.1762e-09
            2     3     1   7.3118e-11  6.9519e-11  7.1053e-11  7.4232e-11  8.2569e-11  9.2191e-11  1.0783e-10  1.3515e-10  1.6763e-10  2.1768e-10  2.7340e-10  3.3530e-10  4.0291e-10  4.7408e-10  5.5063e-10  6.3692e-10  7.3695e-10  8.4933e-10  1.0160e-09
            3     3     2   1.2258e-10  1.1282e-10  1.1049e-10  1.1007e-10  1.1069e-10  1.1194e-10  1.1472e-10  1.2189e-10  1.3383e-10  1.5806e-10  1.9211e-10  2.3911e-10  3.0442e-10  3.9226e-10  5.0606e-10  6.4819e-10  8.2175e-10  1.0238e-09  1.3390e-09
        !COLLISIONS BETWEEN
        6 O + He  ! Lique et al. 2018, MNRAS 474, 2313 corrected, transmitted by M. Wolfire. T-points selected by E. Roueff
        !NUMBER OF COLL TRANS
        3
        !NUMBER OF COLL TEMPS
        19
        !COLL TEMPS
           10.000      20.000      30.000      40.000      60.000      80.000      110.00      160.00      220.00      320.00      450.00      630.00      890.00      1260.0      1780.0      2510.0      3550.0      5010.0      8000.0
        !TRANS + UP + LOW + COLLRATES(cm^3 s^-1)
            1     2     1   1.6482e-11  1.8573e-11  2.1463e-11  2.4598e-11  3.0966e-11  3.7104e-11  4.5611e-11  5.7945e-11  7.0394e-11  8.7752e-11  1.0736e-10  1.3238e-10  1.6591e-10  2.0812e-10  2.5733e-10  3.1253e-10  3.7520e-10  4.4631e-10  5.5849e-10
            2     3     1   2.7998e-11  2.9454e-11  3.3389e-11  3.8068e-11  4.8082e-11  5.8091e-11  7.2279e-11  9.3025e-11  1.1352e-10  1.4031e-10  1.6777e-10  2.0034e-10  2.4300e-10  2.9705e-10  3.6009e-10  4.2922e-10  5.0444e-10  5.8567e-10  7.0673e-10
            3     3     2   1.0152e-13  1.6305e-13  2.5139e-13  3.6504e-13  6.6603e-13  1.0595e-12  1.8033e-12  3.3720e-12  5.6364e-12  9.9193e-12  1.5822e-11  2.3904e-11  3.4853e-11  4.9010e-11  6.6911e-11  8.9450e-11  1.1803e-10  1.5344e-10  2.1404e-10
        !COLLISIONS BETWEEN
        2 O + p-H2  ! Lique et al. 2018, MNRAS 474, 2313 corrected, transmitted by M. Wolfire. T-points selected by E. Roueff
        !NUMBER OF COLL TRANS
        3
        !NUMBER OF COLL TEMPS
        19
        !COLL TEMPS
           10.000      20.000      30.000      40.000      60.000      80.000      110.00      160.00      220.00      320.00      450.00      630.00      890.00      1260.0      1780.0      2510.0      3550.0      5010.0      8000.0
        !TRANS + UP + LOW + COLLRATES(cm^3 s^-1)
            1     2     1   1.1818e-10  1.2795e-10  1.3314e-10  1.3766e-10  1.4621e-10  1.5405e-10  1.6409e-10  1.7678e-10  1.8771e-10  2.0139e-10  2.1690e-10  2.3769e-10  2.6604e-10  3.0174e-10  3.4447e-10  3.9528e-10  4.5692e-10  5.2977e-10  6.3237e-10
            2     3     1   8.1964e-11  1.0202e-10  1.1233e-10  1.2001e-10  1.3180e-10  1.4038e-10  1.4902e-10  1.5630e-10  1.5920e-10  1.6019e-10  1.6294e-10  1.7246e-10  1.9279e-10  2.2497e-10  2.6829e-10  3.2276e-10  3.9034e-10  4.7055e-10  5.8402e-10
            3     3     2   7.9957e-14  1.5935e-13  2.6308e-13  3.9685e-13  6.6622e-13  8.6942e-13  1.0522e-12  1.1780e-12  1.2352e-12  1.3677e-12  1.7490e-12  2.6158e-12  4.2863e-12  7.0486e-12  1.1151e-11  1.6878e-11  2.4697e-11  3.4836e-11  5.0910e-11
        !COLLISIONS BETWEEN
        3 O + o-H2  ! Lique et al. 2018, MNRAS 474, 2313 corrected, transmitted by M. Wolfire. T-points selected by E. Roueff
        !NUMBER OF COLL TRANS
        3
        !NUMBER OF COLL TEMPS
        19
        !COLL TEMPS
           10.000      20.000      30.000      40.000      60.000      80.000      110.00      160.00      220.00      320.00      450.00      630.00      890.00      1260.0      1780.0      2510.0      3550.0      5010.0      8000.0
        !TRANS + UP + LOW + COLLRATES(cm^3 s^-1)
            1     2     1   1.3258e-10  1.3972e-10  1.4475e-10  1.4972e-10  1.5993e-10  1.7007e-10  1.8457e-10  2.0635e-10  2.2904e-10  2.6107e-10  2.9598e-10  3.3664e-10  3.8519e-10  4.4088e-10  5.0314e-10  5.7270e-10  6.5175e-10  7.3905e-10  8.5173e-10
            2     3     1   6.5072e-11  7.6028e-11  8.2408e-11  8.7995e-11  9.8545e-11  1.0856e-10  1.2254e-10  1.4300e-10  1.6361e-10  1.9165e-10  2.2195e-10  2.5888e-10  3.0675e-10  3.6650e-10  4.3772e-10  5.2065e-10  6.1746e-10  7.2668e-10  8.7341e-10
            3     3     2   2.6483e-12  3.0795e-12  3.3059e-12  3.4907e-12  3.8261e-12  4.1442e-12  4.6053e-12  5.3504e-12  6.2198e-12  7.6176e-12  9.3446e-12  1.1600e-11  1.4670e-11  1.8803e-11  2.4297e-11  3.1535e-11  4.1039e-11  5.2862e-11  7.0467e-11
        !COLLISIONS BETWEEN
        7 O + H+  !  computed from xsections of Spirko et al. J. Phys B 36, 1645, 2003 by E. Roueff, oct 2019 at same temperatures
        !NUMBER OF COLL TRANS
        3
        !NUMBER OF COLL TEMPS
        19
        !COLL TEMPS
           10.000      20.000      30.000      40.000      60.000      80.000      110.00      160.00      220.00      320.00      450.00      630.00      890.00      1260.0      1780.0      2510.0      3550.0      5010.0      8000.0
        !TRANS + UP + LOW + COLLRATES(cm^3 s^-1)
            1     2     1   2.4006e-11	4.4688e-11	6.4277e-11	8.3187e-11	1.1965e-10	1.5485e-10	2.0602e-10	2.8826e-10	3.8350e-10	5.3660e-10	7.2842e-10	9.8488e-10	1.3424e-09	1.8334e-09	2.4990e-09	3.4007e-09	4.6401e-09	6.3190e-09	9.6131e-09
            2     3     1   4.1218e-12	8.8188e-12	1.3761e-11	1.8868e-11	2.9441e-11	4.0369e-11	5.7255e-11	8.6371e-11	1.2250e-10	1.8480e-10	2.6863e-10	3.8860e-10	5.6775e-10	8.3143e-10	1.2147e-09	1.7711e-09	2.5909e-09	3.7811e-09	6.3190e-09
            3     3     2   1.7356e-10	2.2838e-10	2.6815e-10	3.0050e-10	3.5283e-10	3.9540e-10	4.4854e-10	5.2028e-10	5.9020e-10	6.8459e-10	7.8354e-10	8.9520e-10	1.0264e-09	1.1779e-09	1.3506e-09	1.5475e-09	1.7752e-09	2.0346e-09	2.4488e-09
        !COLLISIONS BETWEEN
        4 O + e  ! Bell et al. 1998, MNRAS, 293, L83
        !NUMBER OF COLL TRANS
        3
        !NUMBER OF COLL TEMPS
        5
        !COLL TEMPS
        50.0 100.0 500.0 1000. 3000.
        !TRANS + UP + LOW + COLLRATES(cm^3 s^-1)
            1     2     1   3.4E-10  3.6E-10  3.3E-10  3.1E-10  3.1E-10
            2     3     1   3.9E-10  4.3E-10  4.3E-10  4.1E-10  4.2E-10
            3     3     2   3.3E-13  7.7E-13  4.1E-12  6.5E-12  1.1E-11
        !NOTES
        ! A-values are from the NIST database.
        ! Accurate transition frequencies measured by Zink et al. 1991, ApJ 371, L85.
        ! Transition frequencies for the 17O and 18O isotopes can be found
        ! in Brown, Evenson, Zink (1993, Phys. Rev. A, 48, 3761) and in
        ! DeNatale et al. (1993, Phys. Rev. A, 48, 3757). The latter reference
        ! presents more precise values.
        "#;

    let result = s.parse::<ElementData>();

    match result {
        Ok(ed) => {
            assert_eq!(ed.radiative_transitions.len(), 3);
            assert_eq!(ed.collision_partners.len(), 6);
            Ok(())
        },
        Err(e) => Err(e),
    }
}

#[test]
fn comment_gate_accepts_markers_and_rejects_data() {
    let ok = ElementData::validate_and_parse_comment(3, "  ! a note ").unwrap();
    assert_eq!(ok.0, "a note");
    let err = ElementData::validate_and_parse_comment(3, "a note").unwrap_err();
    assert_eq!(
        err,
        ParseError::WrongCommentFormat {
            line_number: 3,
            line: String::from("a note"),
            note: String::from("Comment should begin with `!` character"),
        }
    );
}

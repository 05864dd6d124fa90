use console_utils::control::LoopControl;
use console_utils::sums::{
    average, classify, count, input_loop, partition, tokens_to_parse, validate, Aggregate,
    Averages, Classes, Counts, Mean, SignClass, Sums, INFINITY, SIGN_BIT,
};
use console_utils::validation::ValidationError;

fn bits(values: &[f64]) -> Vec<u64> {
    values.iter().map(|value| value.to_bits()).collect()
}

fn total(samples: &[u64]) -> f64 {
    samples.iter().map(|sample| f64::from_bits(*sample)).sum()
}

fn value_of(mean: Mean) -> f64 {
    match mean {
        Mean::Zero => 0.0,
        Mean::Quotient { sum, count } => f64::from_bits(sum) / count as f64,
    }
}

fn readings(line: &str) -> Vec<Result<u64, ValidationError>> {
    let (_, tokens) = tokens_to_parse(Some(line));
    tokens
        .unwrap()
        .into_iter()
        .map(|token| match token.parse::<f64>() {
            Ok(value) => Ok(value.to_bits()),
            Err(error) => Err(ValidationError::ParseFailure { token, cause: error.to_string() }),
        })
        .collect()
}

fn aggregate(values: &[f64]) -> (Sums, Counts, Averages) {
    let samples = bits(values);
    let classes = partition(&samples);
    let counts = count(&samples);
    let sums = Sums {
        positive: total(&classes.positive).to_bits(),
        negative: total(&classes.negative).to_bits(),
        overall: total(&samples).to_bits(),
    };
    let averages = average(&sums, &counts);
    (sums, counts, averages)
}

fn close(left: f64, right: f64) -> bool {
    (left - right).abs() < 1e-9
}

#[test]
fn constants_are_the_bits_of_what_they_name() {
    assert_eq!(SIGN_BIT, (-0.0f64).to_bits());
    assert_eq!(INFINITY, f64::INFINITY.to_bits());
}

#[test]
fn three_samples_are_aggregated() {
    let (sums, counts, averages) = aggregate(&[1.0, -2.0, 3.0]);
    assert!(close(f64::from_bits(sums.positive), 4.0));
    assert!(close(f64::from_bits(sums.negative), -2.0));
    assert!(close(f64::from_bits(sums.overall), 2.0));
    assert_eq!(counts, Counts { positive: 2, negative: 1, overall: 3 });
    assert!(close(value_of(averages.positive), 2.0));
    assert!(close(value_of(averages.negative), -2.0));
    assert!(close(value_of(averages.overall), 2.0 / 3.0));
}

#[test]
fn the_classes_keep_the_order_of_the_samples() {
    let samples = bits(&[1.0, -2.0, 3.0, 0.0, -0.5]);
    assert_eq!(
        partition(&samples),
        Classes { positive: bits(&[1.0, 3.0, 0.0]), negative: bits(&[-2.0, -0.5]) }
    );
}

#[test]
fn class_sums_and_counts_add_up() {
    let values = [0.25, -7.5, 1e10, -1e-10, 0.0, -0.0, 42.0, -3.0, 2.5e-300, -9.75e200];
    let (sums, counts, _) = aggregate(&values);
    assert_eq!(counts.overall, 10);
    assert_eq!(counts.positive + counts.negative, counts.overall);
    let parts = f64::from_bits(sums.positive) + f64::from_bits(sums.negative);
    let whole = f64::from_bits(sums.overall);
    assert!((parts - whole).abs() <= 1e-9 * whole.abs());
}

#[test]
fn an_empty_class_has_the_average_zero() {
    let (_, counts, averages) = aggregate(&[1.0, 2.0]);
    assert_eq!(counts.negative, 0);
    assert_eq!(averages.negative, Mean::Zero);
    assert_eq!(value_of(averages.negative), 0.0);
    let (_, counts, averages) = aggregate(&[-1.0]);
    assert_eq!(counts.positive, 0);
    assert_eq!(averages.positive, Mean::Zero);
    assert_eq!(averages.negative, Mean::Quotient { sum: (-1.0f64).to_bits(), count: 1 });
    let (_, _, averages) = aggregate(&[]);
    assert_eq!(
        averages,
        Averages { positive: Mean::Zero, negative: Mean::Zero, overall: Mean::Zero }
    );
}

#[test]
fn a_class_with_samples_is_divided_by_its_count() {
    let sums = Sums { positive: 9.0f64.to_bits(), negative: (-4.0f64).to_bits(), overall: 5.0f64.to_bits() };
    let counts = Counts { positive: 3, negative: 2, overall: 5 };
    let averages = average(&sums, &counts);
    assert_eq!(averages.positive, Mean::Quotient { sum: 9.0f64.to_bits(), count: 3 });
    assert_eq!(averages.negative, Mean::Quotient { sum: (-4.0f64).to_bits(), count: 2 });
    assert_eq!(averages.overall, Mean::Quotient { sum: 5.0f64.to_bits(), count: 5 });
    assert_eq!(value_of(averages.positive), 3.0);
}

#[test]
fn classes_agree_with_comparing_the_numbers() {
    let values = [
        0.0, -0.0, 1.0, -1.0, f64::MIN_POSITIVE, -f64::MIN_POSITIVE, 5e-324, -5e-324, f64::MAX,
        f64::MIN, f64::INFINITY, f64::NEG_INFINITY, f64::NAN, -f64::NAN, 0.1 + 0.2,
    ];
    for value in values {
        let class = classify(value.to_bits());
        assert_eq!(class == SignClass::Positive, value >= 0.0, "for {}", value);
        assert_eq!(class == SignClass::Negative, value < 0.0, "for {}", value);
        assert_eq!(class == SignClass::Unordered, value.is_nan(), "for {}", value);
    }
}

#[test]
fn classes_agree_with_comparing_over_a_sweep_of_bits() {
    let mut sample: u64 = 0;
    loop {
        let value = f64::from_bits(sample);
        let class = classify(sample);
        assert_eq!(class == SignClass::Positive, value >= 0.0, "for the bits {:#x}", sample);
        assert_eq!(class == SignClass::Negative, value < 0.0, "for the bits {:#x}", sample);
        match sample.checked_add(0x0000_1000_0000_1003) {
            Some(next) => sample = next,
            None => break,
        }
    }
}

#[test]
fn what_is_not_a_number_is_in_neither_class() {
    let samples = bits(&[1.0, f64::NAN, -1.0]);
    assert_eq!(count(&samples), Counts { positive: 1, negative: 1, overall: 3 });
}

#[test]
fn negative_zero_counts_as_positive() {
    assert_eq!(count(&bits(&[-0.0])), Counts { positive: 1, negative: 0, overall: 1 });
}

#[test]
fn numbers_are_gathered_in_order() {
    assert_eq!(validate(readings("1.0 -2 3e0\n")), Ok(bits(&[1.0, -2.0, 3.0])));
    assert_eq!(validate(readings("  0.5  ")), Ok(bits(&[0.5])));
}

#[test]
fn no_reading_is_no_input() {
    assert_eq!(validate(Vec::new()), Err(ValidationError::NoInput));
    assert_eq!(validate(readings("")), Err(ValidationError::NoInput));
    assert_eq!(validate(readings("  \t \n")), Err(ValidationError::NoInput));
}

#[test]
fn the_first_failed_reading_is_reported() {
    assert_eq!(
        validate(readings("1 two 3 four")),
        Err(ValidationError::ParseFailure {
            token: "two".to_string(),
            cause: "two".parse::<f64>().unwrap_err().to_string(),
        })
    );
}

#[test]
fn a_sample_session_stops_when_reading_fails() {
    assert_eq!(tokens_to_parse(None), (LoopControl::Stop, None));
}

#[test]
fn a_sample_session_stops_on_a_bare_line_feed() {
    assert_eq!(tokens_to_parse(Some("\n")), (LoopControl::Stop, None));
}

#[test]
fn a_sample_session_hands_the_tokens_to_the_parser() {
    assert_eq!(
        tokens_to_parse(Some("1.0  -2.0\t3.0\n")),
        (
            LoopControl::Continue,
            Some(vec!["1.0".to_string(), "-2.0".to_string(), "3.0".to_string()])
        )
    );
    assert_eq!(tokens_to_parse(Some("")), (LoopControl::Continue, Some(Vec::new())));
}

#[test]
fn a_sample_session_goes_on_after_samples() {
    let (control, outcome) = input_loop(readings("1.0 -2.0 3.0\n"));
    assert_eq!(control, LoopControl::Continue);
    assert_eq!(
        outcome,
        Ok(Aggregate {
            samples: bits(&[1.0, -2.0, 3.0]),
            classes: Classes { positive: bits(&[1.0, 3.0]), negative: bits(&[-2.0]) },
            counts: Counts { positive: 2, negative: 1, overall: 3 },
        })
    );
}

#[test]
fn a_sample_session_goes_on_after_a_rejected_line() {
    assert_eq!(
        input_loop(readings(" \n")),
        (LoopControl::Continue, Err(ValidationError::NoInput))
    );
    let (control, outcome) = input_loop(readings("1 x"));
    assert_eq!(control, LoopControl::Continue);
    assert!(matches!(outcome, Err(ValidationError::ParseFailure { token, .. }) if token == "x"));
}

#[test]
fn counts_do_not_wrap_after_255_samples() {
    let mut values = vec![1.5; 300];
    values.push(-1.5);
    assert_eq!(count(&bits(&values)), Counts { positive: 300, negative: 1, overall: 301 });
}

#[test]
fn counts_do_not_depend_on_the_order() {
    let forwards = bits(&[1.0, -2.0, 3.0, -0.0, -4.5, 0.0]);
    let mut backwards = forwards.clone();
    backwards.reverse();
    assert_eq!(count(&forwards), count(&backwards));
    assert_eq!(count(&forwards), Counts { positive: 4, negative: 2, overall: 6 });
}

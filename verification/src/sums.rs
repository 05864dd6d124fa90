//! Sorting signed samples into a positive and a negative class, counting
//! each class, and deciding which averages can be taken.
//!
//! A sample is a binary64 floating-point number held as its 64 bits: the
//! sign in the top bit, then eleven bits of exponent and fifty-two of
//! fraction. Telling the classes apart takes no arithmetic on the number
//! itself, only a look at those bits; adding and dividing are left to
//! the caller.
use vstd::prelude::*;
use crate::control::{is_bare_line_feed, next, state_after, Event, LoopControl};
use crate::tokens::{first_line, first_line_tokens, tokens};
use crate::validation::ValidationError;

verus! {

/// The top bit of a sample: set where the number carries a minus sign.
pub const SIGN_BIT: u64 = 0x8000_0000_0000_0000;

/// The bits of positive infinity. A larger magnitude is no number at all.
pub const INFINITY: u64 = 0x7ff0_0000_0000_0000;

/// The bits of `sample` without its sign.
pub open spec fn magnitude(sample: u64) -> u64 {
    if sample >= SIGN_BIT {
        (sample - SIGN_BIT) as u64
    } else {
        sample
    }
}

/// Whether `sample` is not a number, and so compares with nothing.
pub open spec fn is_nan(sample: u64) -> bool {
    magnitude(sample) > INFINITY
}

/// Whether `sample` compares as greater than or equal to zero: any number
/// without a minus sign, and the negative zero.
pub open spec fn at_least_zero(sample: u64) -> bool {
    !is_nan(sample) && (sample < SIGN_BIT || magnitude(sample) == 0)
}

/// Whether `sample` compares as less than zero: any number with a minus
/// sign but the negative zero.
pub open spec fn below_zero(sample: u64) -> bool {
    !is_nan(sample) && sample >= SIGN_BIT && magnitude(sample) != 0
}

/// The class that a sample counts towards.
#[derive(Clone, Copy, Debug, PartialEq, Eq, Structural)]
pub enum SignClass {
    /// Greater than or equal to zero.
    Positive,
    /// Less than zero.
    Negative,
    /// Not a number: in neither class.
    Unordered,
}

/// The class of `sample`.
pub fn classify(sample: u64) -> (class: SignClass)
    ensures
        class == SignClass::Positive <==> at_least_zero(sample),
        class == SignClass::Negative <==> below_zero(sample),
        class == SignClass::Unordered <==> is_nan(sample),
{
    let magnitude: u64 = if sample >= SIGN_BIT {
        sample - SIGN_BIT
    } else {
        sample
    };
    if magnitude > INFINITY {
        SignClass::Unordered
    } else if sample < SIGN_BIT || magnitude == 0 {
        SignClass::Positive
    } else {
        SignClass::Negative
    }
}

/// How many samples there are in each class, and in all.
#[derive(Clone, Copy, Debug, PartialEq, Eq, Structural)]
pub struct Counts {
    pub positive: usize,
    pub negative: usize,
    pub overall: usize,
}

/// The samples of each class, in the order in which they came.
#[derive(Debug, PartialEq, Eq)]
pub struct Classes {
    pub positive: Vec<u64>,
    pub negative: Vec<u64>,
}

/// The samples of `numbers` that are at least zero.
pub open spec fn positives(numbers: Seq<u64>) -> Seq<u64> {
    numbers.filter(|sample: u64| at_least_zero(sample))
}

/// The samples of `numbers` that are below zero.
pub open spec fn negatives(numbers: Seq<u64>) -> Seq<u64> {
    numbers.filter(|sample: u64| below_zero(sample))
}

/// Sorts `numbers` into the two classes.
pub fn partition(numbers: &Vec<u64>) -> (classes: Classes)
    ensures
        classes.positive@ == positives(numbers@),
        classes.negative@ == negatives(numbers@),
{
    let mut positive: Vec<u64> = Vec::new();
    let mut negative: Vec<u64> = Vec::new();
    let mut i: usize = 0;
    proof {
        reveal(Seq::filter);
    }
    while i < numbers.len()
        invariant
            i <= numbers@.len(),
            positive@ == positives(numbers@.take(i as int)),
            negative@ == negatives(numbers@.take(i as int)),
        decreases numbers@.len() - i,
    {
        let sample: u64 = numbers[i];
        proof {
            let seen = numbers@.take(i as int);
            assert(numbers@.take(i + 1) =~= seen.push(sample));
            seen.lemma_filter_push(sample, |sample: u64| at_least_zero(sample));
            seen.lemma_filter_push(sample, |sample: u64| below_zero(sample));
        }
        match classify(sample) {
            SignClass::Positive => positive.push(sample),
            SignClass::Negative => negative.push(sample),
            SignClass::Unordered => {},
        }
        i = i + 1;
    }
    proof {
        assert(numbers@.take(numbers@.len() as int) =~= numbers@);
    }
    Classes { positive, negative }
}

/// Counts the samples of `numbers` by class.
pub fn count(numbers: &Vec<u64>) -> (counts: Counts)
    ensures
        counts.positive == positives(numbers@).len(),
        counts.negative == negatives(numbers@).len(),
        counts.overall == numbers@.len(),
        (forall|i: int| 0 <= i < numbers@.len() ==> !is_nan(#[trigger] numbers@[i]))
            ==> counts.overall == counts.positive + counts.negative,
{
    proof {
        if forall|i: int| 0 <= i < numbers@.len() ==> !is_nan(#[trigger] numbers@[i]) {
            lemma_counts_add_up(numbers@);
        }
    }
    let classes = partition(numbers);
    Counts {
        positive: classes.positive.len(),
        negative: classes.negative.len(),
        overall: numbers.len(),
    }
}

/// Where every sample is a number, each one is in exactly one class: the
/// two class counts add up to the count of all samples.
pub proof fn lemma_counts_add_up(numbers: Seq<u64>)
    requires
        forall|i: int| 0 <= i < numbers.len() ==> !is_nan(#[trigger] numbers[i]),
    ensures
        positives(numbers).len() + negatives(numbers).len() == numbers.len(),
    decreases numbers.len(),
{
    reveal(Seq::filter);
    if numbers.len() > 0 {
        lemma_counts_add_up(numbers.drop_last());
    }
}

/// Taking one sample out of `numbers` lowers the count of its class by one
/// and leaves the other count as it is.
proof fn lemma_counts_without(numbers: Seq<u64>, i: int)
    requires
        0 <= i < numbers.len(),
    ensures
        positives(numbers).len() == positives(numbers.remove(i)).len() + if at_least_zero(
            numbers[i],
        ) {
            1nat
        } else {
            0nat
        },
        negatives(numbers).len() == negatives(numbers.remove(i)).len() + if below_zero(
            numbers[i],
        ) {
            1nat
        } else {
            0nat
        },
{
    let head = numbers.take(i);
    let tail = numbers.skip(i + 1);
    let positive = |sample: u64| at_least_zero(sample);
    let negative = |sample: u64| below_zero(sample);
    assert(numbers =~= head.push(numbers[i]) + tail);
    assert(numbers.remove(i) =~= head + tail);
    Seq::filter_distributes_over_add(head.push(numbers[i]), tail, positive);
    Seq::filter_distributes_over_add(head.push(numbers[i]), tail, negative);
    Seq::filter_distributes_over_add(head, tail, positive);
    Seq::filter_distributes_over_add(head, tail, negative);
    head.lemma_filter_push(numbers[i], positive);
    head.lemma_filter_push(numbers[i], negative);
}

/// The counts do not depend on the order of the samples: two sequences
/// that hold the same samples, each as often as the other, have the same
/// count in each class and in all.
pub proof fn lemma_counts_ignore_order(a: Seq<u64>, b: Seq<u64>)
    requires
        a.to_multiset() == b.to_multiset(),
    ensures
        positives(a).len() == positives(b).len(),
        negatives(a).len() == negatives(b).len(),
        a.len() == b.len(),
    decreases a.len(),
{
    a.to_multiset_ensures();
    b.to_multiset_ensures();
    if a.len() == 0 {
        assert(b =~= a);
    } else {
        let sample = a.last();
        let rest = a.drop_last();
        assert(a =~= rest.push(sample));
        rest.to_multiset_ensures();
        assert(a.contains(sample));
        assert(a.to_multiset().count(sample) > 0);
        assert(b.to_multiset().count(sample) > 0);
        assert(b.contains(sample));
        let i = choose|i: int| 0 <= i < b.len() && b[i] == sample;
        assert(rest.to_multiset() =~= a.to_multiset().remove(sample));
        assert(b.remove(i).to_multiset() =~= rest.to_multiset());
        lemma_counts_ignore_order(rest, b.remove(i));
        lemma_counts_without(b, i);
        lemma_counts_without(a, a.len() - 1);
        assert(a.remove(a.len() - 1) =~= rest);
    }
}

/// The sum of each class and of all samples, as the caller added them up.
#[derive(Clone, Copy, Debug, PartialEq, Eq, Structural)]
pub struct Sums {
    pub positive: u64,
    pub negative: u64,
    pub overall: u64,
}

/// The average of a class: zero for a class without samples, and else the
/// quotient of its sum and its count, which is left to the caller to work
/// out.
#[derive(Clone, Copy, Debug, PartialEq, Eq, Structural)]
pub enum Mean {
    Zero,
    Quotient { sum: u64, count: usize },
}

/// The averages of the two classes and of all samples.
#[derive(Clone, Copy, Debug, PartialEq, Eq, Structural)]
pub struct Averages {
    pub positive: Mean,
    pub negative: Mean,
    pub overall: Mean,
}

/// The average of a class with the sum `sum` and `count` samples. An empty
/// class is never divided by its count.
pub open spec fn mean_of(sum: u64, count: usize) -> Mean {
    if count == 0 {
        Mean::Zero
    } else {
        Mean::Quotient { sum, count }
    }
}

/// The average of one class.
fn mean(sum: u64, count: usize) -> (m: Mean)
    ensures
        m == mean_of(sum, count),
{
    if count != 0 {
        Mean::Quotient { sum, count }
    } else {
        Mean::Zero
    }
}

/// The averages that go with `sums` and `counts`, each class for itself.
pub fn average(sums: &Sums, counts: &Counts) -> (averages: Averages)
    ensures
        averages.positive == mean_of(sums.positive, counts.positive),
        averages.negative == mean_of(sums.negative, counts.negative),
        averages.overall == mean_of(sums.overall, counts.overall),
{
    Averages {
        positive: mean(sums.positive, counts.positive),
        negative: mean(sums.negative, counts.negative),
        overall: mean(sums.overall, counts.overall),
    }
}

/// Whether every reading is a number.
pub open spec fn all_numbers(readings: Seq<Result<u64, ValidationError>>) -> bool {
    forall|j: int| 0 <= j < readings.len() ==> (#[trigger] readings[j]) is Ok
}

/// Whether reading `k` is the first that failed.
pub open spec fn first_failure(readings: Seq<Result<u64, ValidationError>>, k: int) -> bool {
    &&& 0 <= k < readings.len()
    &&& readings[k] is Err
    &&& forall|j: int| 0 <= j < k ==> (#[trigger] readings[j]) is Ok
}

/// The numbers that the readings hold, where all of them are numbers.
pub open spec fn numbers_of(readings: Seq<Result<u64, ValidationError>>) -> Seq<u64> {
    Seq::new(readings.len(), |j: int| readings[j]->Ok_0)
}

/// What validating the readings of a line must give: the first failure
/// among them where there is one, `NoInput` where there is no reading at
/// all, and else the numbers in their order.
pub open spec fn validated(
    readings: Seq<Result<u64, ValidationError>>,
    r: Result<Vec<u64>, ValidationError>,
) -> bool {
    match r {
        Ok(numbers) => {
            &&& all_numbers(readings)
            &&& readings.len() > 0
            &&& numbers@ == numbers_of(readings)
        },
        Err(error) => {
            ||| exists|k: int| #[trigger] first_failure(readings, k) && error == readings[k]->Err_0
            ||| readings.len() == 0 && error == ValidationError::NoInput
        },
    }
}

/// Gathers the samples of a line from what the parser made of each of its
/// tokens, in order.
pub fn validate(readings: Vec<Result<u64, ValidationError>>) -> (r: Result<
    Vec<u64>,
    ValidationError,
>)
    ensures
        validated(readings@, r),
{
    let mut numbers: Vec<u64> = Vec::new();
    for reading in it: readings
        invariant
            it.seq() == readings@,
            numbers@.len() == it.index(),
            forall|j: int| 0 <= j < it.index() ==> (#[trigger] readings@[j]) is Ok,
            forall|j: int| 0 <= j < it.index() ==> numbers@[j] == (#[trigger] readings@[j])->Ok_0,
    {
        match reading {
            Ok(sample) => {
                numbers.push(sample);
            },
            Err(error) => {
                assert(first_failure(readings@, it.index() as int));
                return Err(error);
            },
        }
    }
    if numbers.len() == 0 {
        Err(ValidationError::NoInput)
    } else {
        assert(numbers@ =~= numbers_of(readings@));
        Ok(numbers)
    }
}

/// The first half of a turn of a session that aggregates samples. `line`
/// is the line that was read, or `None` where reading failed. The turn ends
/// the session where reading failed or only the enter key was hit; of any
/// other line the tokens of the first line are handed back for the parser.
pub fn tokens_to_parse(line: Option<&str>) -> (turn: (LoopControl, Option<Vec<String>>))
    ensures
        match line {
            None => turn.0 == state_after(Event::ReadFailure) && turn.1 is None,
            Some(text) => if text@ == seq!['\n'] {
                turn.0 == state_after(Event::Sentinel) && turn.1 is None
            } else {
                &&& turn.0 == LoopControl::Continue
                &&& turn.1 is Some
                &&& turn.1.unwrap().deep_view() == tokens(first_line(text@))
            },
        },
{
    let text = match line {
        Some(text) => text,
        None => {
            return (next(Event::ReadFailure), None);
        },
    };
    if is_bare_line_feed(text) {
        return (next(Event::Sentinel), None);
    }
    (LoopControl::Continue, Some(first_line_tokens(text)))
}

/// The samples of a line in the order in which they came, sorted into
/// classes, and counted.
#[derive(Debug, PartialEq, Eq)]
pub struct Aggregate {
    pub samples: Vec<u64>,
    pub classes: Classes,
    pub counts: Counts,
}

/// What the second half of a turn must give for the readings of a line:
/// the reason why they are rejected, or the samples with their classes and
/// counts.
pub open spec fn aggregated(
    readings: Seq<Result<u64, ValidationError>>,
    outcome: Result<Aggregate, ValidationError>,
) -> bool {
    match outcome {
        Ok(aggregate) => {
            &&& all_numbers(readings)
            &&& readings.len() > 0
            &&& aggregate.samples@ == numbers_of(readings)
            &&& aggregate.classes.positive@ == positives(numbers_of(readings))
            &&& aggregate.classes.negative@ == negatives(numbers_of(readings))
            &&& aggregate.counts.positive == positives(numbers_of(readings)).len()
            &&& aggregate.counts.negative == negatives(numbers_of(readings)).len()
            &&& aggregate.counts.overall == readings.len()
        },
        Err(error) => {
            ||| exists|k: int| #[trigger] first_failure(readings, k) && error == readings[k]->Err_0
            ||| readings.len() == 0 && error == ValidationError::NoInput
        },
    }
}

/// The second half of the turn, on what the parser made of each token.
/// The session goes on whatever the readings are.
pub fn input_loop(readings: Vec<Result<u64, ValidationError>>) -> (turn: (
    LoopControl,
    Result<Aggregate, ValidationError>,
))
    ensures
        turn.0 == LoopControl::Continue,
        aggregated(readings@, turn.1),
{
    match validate(readings) {
        Ok(samples) => {
            let classes = partition(&samples);
            let counts = Counts {
                positive: classes.positive.len(),
                negative: classes.negative.len(),
                overall: samples.len(),
            };
            (next(Event::Computed), Ok(Aggregate { samples, classes, counts }))
        },
        Err(error) => (next(Event::Rejected), Err(error)),
    }
}

} // verus!

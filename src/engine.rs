use vstd::prelude::*;

use crate::binary64::Binary64;
use crate::policy::{NoisePolicy, PolicyMap};
use crate::randomness::{select_source, NoiseSource};

verus! {

/// A numeric field value, in the representation it arrived in.
#[derive(Clone, Copy, Debug, PartialEq, Eq, Structural)]
pub enum NumberValue {
    Int(i64),
    UInt(u64),
    Float(Binary64),
}

/// The value of one top-level field of a record.
#[derive(Clone, Debug, PartialEq, Eq)]
pub enum FieldValue {
    Number(NumberValue),
    /// A string; it counts as numeric when its whole text reads as a number.
    Text(String),
    /// Anything else (object, array, boolean, null), held as its encoded text
    /// and never looked into.
    Other(String),
}

/// A record: its top-level fields, by name, in their order.
#[derive(Clone, Debug, PartialEq, Eq)]
pub struct Record {
    pub fields: Vec<(String, FieldValue)>,
}

/// Why one policy-bound field was left as it was.
#[derive(Clone, Copy, Debug, PartialEq, Eq, Structural)]
pub enum FieldError {
    /// The value does not read as a number.
    NotNumeric,
    /// The policy's parameters are out of range or give no usable distribution.
    InvalidParameter,
    /// The noised value cannot be stored in the policy's unit.
    CoercionFailed,
}

/// A field that could not be perturbed, and why.
#[derive(Clone, Debug, PartialEq, Eq)]
pub struct FieldFailure {
    pub name: String,
    pub error: FieldError,
}

/// What one field becomes, given the outcome of the numeric work on it:
/// a policy-bound field takes the new number on success and stays as it was
/// on failure; any other field stays as it was.
pub open spec fn perturbed_field(
    policies: Map<Seq<char>, NoisePolicy>,
    field: (String, FieldValue),
    outcome: Result<NumberValue, FieldError>,
) -> (String, FieldValue) {
    if policies.contains_key(field.0@) {
        match outcome {
            Ok(n) => (field.0, FieldValue::Number(n)),
            Err(_) => field,
        }
    } else {
        field
    }
}

/// The fields of a record after perturbation, field by field.
pub open spec fn perturbed_fields(
    policies: Map<Seq<char>, NoisePolicy>,
    fields: Seq<(String, FieldValue)>,
    outcomes: Seq<Result<NumberValue, FieldError>>,
) -> Seq<(String, FieldValue)> {
    Seq::new(fields.len(), |i: int| perturbed_field(policies, fields[i], outcomes[i]))
}

/// The failures reported for a record: one for each policy-bound field whose
/// numeric work failed, in the order of the fields.
pub open spec fn field_failures(
    policies: Map<Seq<char>, NoisePolicy>,
    fields: Seq<(String, FieldValue)>,
    outcomes: Seq<Result<NumberValue, FieldError>>,
) -> Seq<FieldFailure>
    decreases fields.len(),
{
    if fields.len() == 0 {
        Seq::empty()
    } else {
        let k = fields.len() - 1;
        let earlier = field_failures(policies, fields.take(k), outcomes);
        match outcomes[k] {
            Err(e) => if policies.contains_key(fields[k].0@) {
                earlier.push(FieldFailure { name: fields[k].0, error: e })
            } else {
                earlier
            },
            Ok(_) => earlier,
        }
    }
}

/// The failures of a run of fields depend only on the outcomes of those fields.
proof fn lemma_failures_use_own_outcomes(
    policies: Map<Seq<char>, NoisePolicy>,
    fields: Seq<(String, FieldValue)>,
    a: Seq<Result<NumberValue, FieldError>>,
    b: Seq<Result<NumberValue, FieldError>>,
)
    requires
        forall|j: int| 0 <= j < fields.len() ==> a[j] == b[j],
    ensures
        field_failures(policies, fields, a) == field_failures(policies, fields, b),
    decreases fields.len(),
{
    if fields.len() > 0 {
        let k = fields.len() - 1;
        lemma_failures_use_own_outcomes(policies, fields.take(k), a, b);
        assert(a[k] == b[k]);
    }
}

/// `outcome` is a result that the numeric work on `value` under `policy` can
/// have: a value that is no number or string is not numeric; else `read`
/// gives its number, or fails and it is not numeric; then invalid parameters
/// fail the field; else `draw` is handed the number, the policy and the
/// source that the policy's seed selects, and its result is the outcome.
pub open spec fn possible_outcome<R, D>(
    read: R,
    draw: D,
    policy: NoisePolicy,
    value: FieldValue,
    outcome: Result<NumberValue, FieldError>,
) -> bool where
    R: Fn(&FieldValue) -> Option<Binary64>,
    D: Fn(Binary64, &NoisePolicy, NoiseSource) -> Result<NumberValue, FieldError>,
 {
    match value {
        FieldValue::Other(_) => outcome == Err::<NumberValue, FieldError>(FieldError::NotNumeric),
        _ => exists|x: Option<Binary64>|
            #[trigger] read.ensures((&value,), x) && match x {
                None => outcome == Err::<NumberValue, FieldError>(FieldError::NotNumeric),
                Some(v) => if policy.params_valid() {
                    exists|s: NoiseSource|
                        s.fits(policy.spec_seed()) && #[trigger] draw.ensures((v, &policy, s), outcome)
                } else {
                    outcome == Err::<NumberValue, FieldError>(FieldError::InvalidParameter)
                },
            },
    }
}

/// Perturbs every field of `record` that has a policy in `policies`, and
/// reports the fields that could not be perturbed.
///
/// `read` reads a number or a string as a binary64 value; `draw` adds a
/// sample of the policy's distribution to the value, using the given source,
/// and stores the sum in the policy's unit. Fields without a policy are
/// never handed to either and come out as they went in; a failure on one
/// field leaves that field alone and does not stop the others.
pub fn apply<R, D>(policies: &PolicyMap, record: Record, read: R, draw: D) -> (r: (
    Record,
    Vec<FieldFailure>,
)) where
    R: Fn(&FieldValue) -> Option<Binary64>,
    D: Fn(Binary64, &NoisePolicy, NoiseSource) -> Result<NumberValue, FieldError>,

    requires
        policies.wf(),
        forall|v: &FieldValue| #[trigger] read.requires((v,)),
        forall|x: Binary64, p: &NoisePolicy, s: NoiseSource| #[trigger] draw.requires((x, p, s)),
    ensures
        r.0.fields@.len() == record.fields@.len(),
        forall|i: int|
            0 <= i < record.fields@.len() && !policies@.contains_key(record.fields@[i].0@)
                ==> #[trigger] r.0.fields@[i] == record.fields@[i],
        exists|outcomes: Seq<Result<NumberValue, FieldError>>|
            {
                &&& outcomes.len() == record.fields@.len()
                &&& forall|i: int|
                    0 <= i < record.fields@.len() && policies@.contains_key(record.fields@[i].0@)
                        ==> possible_outcome(
                        read,
                        draw,
                        policies@[record.fields@[i].0@],
                        record.fields@[i].1,
                        #[trigger] outcomes[i],
                    )
                &&& r.0.fields@ == perturbed_fields(policies@, record.fields@, outcomes)
                &&& r.1@ == field_failures(policies@, record.fields@, outcomes)
            },
{
    let ghost orig = record.fields@;
    let mut fields = record.fields;
    let mut failures: Vec<FieldFailure> = Vec::new();
    let ghost mut outcomes: Seq<Result<NumberValue, FieldError>> = Seq::empty();
    let n = fields.len();
    let mut i: usize = 0;
    while i < n
        invariant
            policies.wf(),
            forall|v: &FieldValue| #[trigger] read.requires((v,)),
            forall|x: Binary64, p: &NoisePolicy, s: NoiseSource| #[trigger] draw.requires((x, p, s)),
            n == orig.len(),
            i <= n,
            fields@.len() == n,
            outcomes.len() == i,
            forall|j: int|
                0 <= j < i ==> #[trigger] fields@[j] == perturbed_field(policies@, orig[j], outcomes[j]),
            forall|j: int| i <= j < n ==> #[trigger] fields@[j] == orig[j],
            forall|j: int|
                0 <= j < i && policies@.contains_key(orig[j].0@) ==> possible_outcome(
                    read,
                    draw,
                    policies@[orig[j].0@],
                    orig[j].1,
                    #[trigger] outcomes[j],
                ),
            failures@ == field_failures(policies@, orig.take(i as int), outcomes),
        decreases n - i,
    {
        let ghost field = orig[i as int];
        let ghost mut outcome: Result<NumberValue, FieldError> = Err(FieldError::NotNumeric);
        match policies.get(&fields[i].0) {
            Some(policy) => {
                let result: Result<NumberValue, FieldError> = match &fields[i].1 {
                    FieldValue::Other(_) => Err(FieldError::NotNumeric),
                    value => {
                        let x = read(value);
                        match x {
                            None => Err(FieldError::NotNumeric),
                            Some(v) => {
                                if policy.has_valid_params() {
                                    let source = select_source(policy.seed());
                                    let ghost s = source;
                                    let d = draw(v, policy, source);
                                    assert(draw.ensures((v, policy, s), d));
                                    d
                                } else {
                                    Err(FieldError::InvalidParameter)
                                }
                            },
                        }
                    },
                };
                proof {
                    outcome = result;
                    assert(possible_outcome(read, draw, *policy, field.1, outcome));
                }
                match result {
                    Ok(num) => {
                        let name = fields[i].0.clone();
                        fields.set(i, (name, FieldValue::Number(num)));
                    },
                    Err(e) => {
                        let name = fields[i].0.clone();
                        failures.push(FieldFailure { name, error: e });
                    },
                }
            },
            None => {},
        }
        proof {
            let before = outcomes;
            outcomes = outcomes.push(outcome);
            assert(orig.take(i as int + 1).take(i as int) =~= orig.take(i as int));
            lemma_failures_use_own_outcomes(policies@, orig.take(i as int), before, outcomes);
        }
        i = i + 1;
    }
    proof {
        assert(orig.take(n as int) =~= orig);
        assert(fields@ =~= perturbed_fields(policies@, orig, outcomes));
    }
    (Record { fields }, failures)
}

/// Policy isolation: a field without a policy comes out exactly as it went
/// in, and no failure is ever reported under its name.
pub proof fn lemma_policy_isolation(
    policies: Map<Seq<char>, NoisePolicy>,
    fields: Seq<(String, FieldValue)>,
    outcomes: Seq<Result<NumberValue, FieldError>>,
    i: int,
)
    requires
        0 <= i < fields.len(),
        !policies.contains_key(fields[i].0@),
    ensures
        perturbed_fields(policies, fields, outcomes)[i] == fields[i],
        forall|j: int|
            0 <= j < field_failures(policies, fields, outcomes).len()
                ==> #[trigger] field_failures(policies, fields, outcomes)[j].name@ != fields[i].0@,
{
    lemma_failures_are_bound(policies, fields, outcomes);
}

/// Every reported failure names a field that has a policy.
pub proof fn lemma_failures_are_bound(
    policies: Map<Seq<char>, NoisePolicy>,
    fields: Seq<(String, FieldValue)>,
    outcomes: Seq<Result<NumberValue, FieldError>>,
)
    ensures
        forall|j: int|
            0 <= j < field_failures(policies, fields, outcomes).len() ==> policies.contains_key(
                #[trigger] field_failures(policies, fields, outcomes)[j].name@,
            ),
    decreases fields.len(),
{
    if fields.len() > 0 {
        lemma_failures_are_bound(policies, fields.take(fields.len() - 1), outcomes);
    }
}

/// Partial failure containment: in a record of two policy-bound fields, the
/// first holding a value that is no number or string and the second a value
/// whose numeric work succeeds, the second is perturbed, the first is left
/// alone, and the only failure reported is that the first is not numeric.
pub proof fn lemma_partial_failure_containment<R, D>(
    read: R,
    draw: D,
    policies: Map<Seq<char>, NoisePolicy>,
    fields: Seq<(String, FieldValue)>,
    outcomes: Seq<Result<NumberValue, FieldError>>,
) where
    R: Fn(&FieldValue) -> Option<Binary64>,
    D: Fn(Binary64, &NoisePolicy, NoiseSource) -> Result<NumberValue, FieldError>,

    requires
        fields.len() == 2,
        policies.contains_key(fields[0].0@),
        policies.contains_key(fields[1].0@),
        fields[0].1 is Other,
        possible_outcome(read, draw, policies[fields[0].0@], fields[0].1, outcomes[0]),
        outcomes[1] is Ok,
    ensures
        perturbed_fields(policies, fields, outcomes)[0] == fields[0],
        perturbed_fields(policies, fields, outcomes)[1] == (
            fields[1].0,
            FieldValue::Number(outcomes[1]->Ok_0),
        ),
        field_failures(policies, fields, outcomes) == seq![
            FieldFailure { name: fields[0].0, error: FieldError::NotNumeric },
        ],
{
    assert(outcomes[0] == Err::<NumberValue, FieldError>(FieldError::NotNumeric));
    let first = fields.take(1);
    assert(first[0] == fields[0]);
    assert(field_failures(policies, first.take(0), outcomes) == Seq::<FieldFailure>::empty());
    assert(field_failures(policies, first, outcomes) == Seq::<FieldFailure>::empty().push(
        FieldFailure { name: fields[0].0, error: FieldError::NotNumeric },
    ));
    assert(fields.take(2) =~= fields);
}

/// Without policies nothing changes: every field comes out as it went in and
/// no failure is reported.
pub proof fn lemma_no_policies_no_change(
    fields: Seq<(String, FieldValue)>,
    outcomes: Seq<Result<NumberValue, FieldError>>,
)
    ensures
        perturbed_fields(Map::empty(), fields, outcomes) == fields,
        field_failures(Map::empty(), fields, outcomes) == Seq::<FieldFailure>::empty(),
    decreases fields.len(),
{
    assert(perturbed_fields(Map::empty(), fields, outcomes) =~= fields);
    if fields.len() > 0 {
        lemma_no_policies_no_change(fields.take(fields.len() - 1), outcomes);
    }
}

} // verus!

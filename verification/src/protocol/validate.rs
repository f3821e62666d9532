//! Validation of protocol messages: accumulated validation results, field
//! validators, payload rules and format checks for common identifiers.

use std::collections::HashMap;

use vstd::prelude::*;
use vstd::utf8::encode_utf8;
use crate::protocol::number::{
    above, at_most_zero, below, bits_above, bits_at_most_zero, bits_below, ONE_BILLION_BITS,
    ONE_HUNDRED_MILLION_BITS, ONE_MILLION_BITS,
};
use crate::protocol::pattern::{
    compile_pattern, pattern_is_match, regex_compiles, regex_error_message, regex_error_text,
    regex_matches,
};
use crate::text::{
    char_is_ascii_digit, char_is_ascii_hexdigit, chars_of, debug_list, debug_quoted, debug_str, debug_str_list, decimal_digits,
    decimal_string, is_ascii_digit, is_ascii_hexdigit, same_text, str_views,
};

verus! {

// ---------------------------------------------------------------------------
// VALIDATION RESULT
// ---------------------------------------------------------------------------

/// How serious a reported problem is.
#[derive(Debug, Clone, Copy, PartialEq, Eq)]
pub enum Severity {
    Error,
    Warning,
    Info,
}

/// One problem found in a message.
#[derive(Debug, Clone)]
pub struct ValidationError {
    pub field: String,
    pub code: String,
    pub message: String,
    pub severity: Severity,
}

/// The value of a [`ValidationError`].
pub struct ErrorView {
    pub field: Seq<char>,
    pub code: Seq<char>,
    pub message: Seq<char>,
    pub severity: Severity,
}

impl View for ValidationError {
    type V = ErrorView;

    open spec fn view(&self) -> ErrorView {
        ErrorView {
            field: self.field@,
            code: self.code@,
            message: self.message@,
            severity: self.severity,
        }
    }
}

/// The outcome of validating a message: whether it is acceptable, the
/// problems found and any warnings.
#[derive(Debug, Clone)]
pub struct ValidationResult {
    pub valid: bool,
    pub errors: Vec<ValidationError>,
    pub warnings: Vec<String>,
}

/// The value of a [`ValidationResult`].
pub struct ReportView {
    pub valid: bool,
    pub errors: Seq<ErrorView>,
    pub warnings: Seq<Seq<char>>,
}

/// The values of a sequence of errors.
pub open spec fn error_views(errors: Seq<ValidationError>) -> Seq<ErrorView> {
    errors.map_values(|e: ValidationError| e@)
}

/// The values of a sequence of strings.
pub open spec fn string_views(strings: Seq<String>) -> Seq<Seq<char>> {
    strings.map_values(|s: String| s@)
}

impl View for ValidationResult {
    type V = ReportView;

    open spec fn view(&self) -> ReportView {
        ReportView {
            valid: self.valid,
            errors: error_views(self.errors@),
            warnings: string_views(self.warnings@),
        }
    }
}

/// An error of severity [`Severity::Error`] on `field`.
pub open spec fn field_error(field: Seq<char>, code: Seq<char>, message: Seq<char>) -> ErrorView {
    ErrorView { field, code, message, severity: Severity::Error }
}

/// The report of a message with no problem.
pub open spec fn valid_report() -> ReportView {
    ReportView { valid: true, errors: Seq::empty(), warnings: Seq::empty() }
}

/// The report of a message with exactly one error.
pub open spec fn error_report(field: Seq<char>, code: Seq<char>, message: Seq<char>) -> ReportView {
    ReportView {
        valid: false,
        errors: seq![field_error(field, code, message)],
        warnings: Seq::empty(),
    }
}

/// The report holding the findings of `a` followed by those of `b`.
pub open spec fn combined(a: ReportView, b: ReportView) -> ReportView {
    ReportView {
        valid: a.valid && b.valid,
        errors: a.errors + b.errors,
        warnings: a.warnings + b.warnings,
    }
}

/// `r` with one more error.
pub open spec fn with_error(
    r: ReportView,
    field: Seq<char>,
    code: Seq<char>,
    message: Seq<char>,
) -> ReportView {
    ReportView {
        valid: false,
        errors: r.errors.push(field_error(field, code, message)),
        warnings: r.warnings,
    }
}

/// `r` with one more warning.
pub open spec fn with_warning(r: ReportView, message: Seq<char>) -> ReportView {
    ReportView { valid: r.valid, errors: r.errors, warnings: r.warnings.push(message) }
}

/// A report is valid exactly when it holds no error.
pub open spec fn consistent(r: ReportView) -> bool {
    r.valid <==> r.errors.len() == 0
}

/// The report whose errors are `errors`, in order, and that has no warning.
pub open spec fn report_of(errors: Seq<ErrorView>) -> ReportView {
    ReportView { valid: errors.len() == 0, errors, warnings: Seq::empty() }
}

impl ValidationResult {
    /// A result with no error and no warning.
    pub fn valid() -> (res: Self)
        ensures
            res@ == valid_report(),
    {
        let res = ValidationResult { valid: true, errors: Vec::new(), warnings: Vec::new() };
        assert(res@.errors =~= Seq::<ErrorView>::empty());
        assert(res@.warnings =~= Seq::<Seq<char>>::empty());
        res
    }

    /// A result holding one error on `field`.
    pub fn error(field: &str, code: &str, message: &str) -> (res: Self)
        ensures
            res@ == error_report(field@, code@, message@),
    {
        let mut errors: Vec<ValidationError> = Vec::new();
        errors.push(
            ValidationError {
                field: String::from_str(field),
                code: String::from_str(code),
                message: String::from_str(message),
                severity: Severity::Error,
            },
        );
        let res = ValidationResult { valid: false, errors, warnings: Vec::new() };
        assert(res@.errors =~= seq![field_error(field@, code@, message@)]);
        assert(res@.warnings =~= Seq::<Seq<char>>::empty());
        res
    }

    /// Appends the findings of `other` to this result.
    pub fn combine(&mut self, other: ValidationResult)
        ensures
            final(self)@ == combined(old(self)@, other@),
    {
        let mut other = other;
        self.valid = self.valid && other.valid;
        let ghost old_errors = self.errors@;
        let ghost old_warnings = self.warnings@;
        let ghost other_errors = other.errors@;
        let ghost other_warnings = other.warnings@;
        self.errors.append(&mut other.errors);
        self.warnings.append(&mut other.warnings);
        assert(error_views(self.errors@) =~= error_views(old_errors) + error_views(other_errors));
        assert(string_views(self.warnings@) =~= string_views(old_warnings) + string_views(
            other_warnings,
        ));
    }

    /// Whether any error was found.
    pub fn has_errors(&self) -> (res: bool)
        ensures
            res == (self@.errors.len() > 0),
    {
        !self.errors.is_empty()
    }

    /// Whether any warning was raised.
    pub fn has_warnings(&self) -> (res: bool)
        ensures
            res == (self@.warnings.len() > 0),
    {
        !self.warnings.is_empty()
    }

    /// Records an error on `field`; the result is then invalid.
    pub fn add_error(&mut self, field: &str, code: &str, message: &str)
        ensures
            final(self)@ == with_error(old(self)@, field@, code@, message@),
    {
        self.valid = false;
        let ghost old_errors = self.errors@;
        let e = ValidationError {
            field: String::from_str(field),
            code: String::from_str(code),
            message: String::from_str(message),
            severity: Severity::Error,
        };
        self.errors.push(e);
        assert(error_views(self.errors@) =~= error_views(old_errors).push(
            field_error(field@, code@, message@),
        ));
    }

    /// Records a warning; validity is unchanged.
    pub fn add_warning(&mut self, message: &str)
        ensures
            final(self)@ == with_warning(old(self)@, message@),
    {
        let ghost old_warnings = self.warnings@;
        self.warnings.push(String::from_str(message));
        assert(string_views(self.warnings@) =~= string_views(old_warnings).push(message@));
    }
}

/// Combining results is associative.
pub proof fn lemma_combine_associative(a: ReportView, b: ReportView, c: ReportView)
    ensures
        combined(combined(a, b), c) == combined(a, combined(b, c)),
{
    assert(combined(combined(a, b), c).errors =~= combined(a, combined(b, c)).errors);
    assert(combined(combined(a, b), c).warnings =~= combined(a, combined(b, c)).warnings);
}

/// The empty valid result is neutral on both sides of combining.
pub proof fn lemma_valid_is_neutral(r: ReportView)
    ensures
        combined(valid_report(), r) == r,
        combined(r, valid_report()) == r,
{
    assert(combined(valid_report(), r).errors =~= r.errors);
    assert(combined(valid_report(), r).warnings =~= r.warnings);
    assert(combined(r, valid_report()).errors =~= r.errors);
    assert(combined(r, valid_report()).warnings =~= r.warnings);
}

/// Adding an error is the same as combining with a result that holds just that
/// error.
pub proof fn lemma_add_error_is_combine_with_error(
    r: ReportView,
    field: Seq<char>,
    code: Seq<char>,
    message: Seq<char>,
)
    ensures
        with_error(r, field, code, message) == combined(r, error_report(field, code, message)),
{
    assert(with_error(r, field, code, message).errors =~= combined(
        r,
        error_report(field, code, message),
    ).errors);
    assert(with_error(r, field, code, message).warnings =~= combined(
        r,
        error_report(field, code, message),
    ).warnings);
}

/// Every way of building a result keeps it valid exactly when it holds no
/// error.
pub proof fn lemma_results_stay_consistent(
    a: ReportView,
    b: ReportView,
    field: Seq<char>,
    code: Seq<char>,
    message: Seq<char>,
)
    ensures
        consistent(valid_report()),
        consistent(error_report(field, code, message)),
        consistent(a) && consistent(b) ==> consistent(combined(a, b)),
        consistent(with_error(a, field, code, message)),
        consistent(a) ==> consistent(with_warning(a, message)),
{
}


// ---------------------------------------------------------------------------
// FIELD VALIDATORS
// ---------------------------------------------------------------------------

/// A check of one field of a message.
pub trait FieldValidator<T> {
    /// Checks `value`, reporting problems against `field_name`.
    fn validate(&self, value: &T, field_name: &str) -> ValidationResult;
}

/// Requires that an optional field is present.
pub struct RequiredValidator;

impl<T> FieldValidator<Option<T>> for RequiredValidator {
    fn validate(&self, value: &Option<T>, field_name: &str) -> (res: ValidationResult)
        ensures
            res@ == (if value is Some {
                valid_report()
            } else {
                error_report(field_name@, "required"@, "Field is required"@)
            }),
    {
        match value {
            Some(_) => ValidationResult::valid(),
            None => ValidationResult::error(field_name, "required", "Field is required"),
        }
    }
}

/// The length of a string in bytes of UTF-8, as `str::len` reports it.
pub open spec fn byte_len(s: Seq<char>) -> nat {
    encode_utf8(s).len()
}

/// Bounds, in bytes of UTF-8, on the length of a string field.
pub struct StringLengthValidator {
    pub min: Option<usize>,
    pub max: Option<usize>,
}

/// The errors of a string field of `len` bytes against the bounds.
pub open spec fn length_errors(
    min: Option<usize>,
    max: Option<usize>,
    field: Seq<char>,
    len: nat,
) -> Seq<ErrorView> {
    (if min is Some && len < min->0 {
        seq![
            field_error(
                field,
                "min_length"@,
                "Must be at least "@ + decimal_digits(min->0 as nat) + " characters"@,
            ),
        ]
    } else {
        Seq::empty()
    }) + (if max is Some && len > max->0 {
        seq![
            field_error(
                field,
                "max_length"@,
                "Must be at most "@ + decimal_digits(max->0 as nat) + " characters"@,
            ),
        ]
    } else {
        Seq::empty()
    })
}

impl FieldValidator<String> for StringLengthValidator {
    fn validate(&self, value: &String, field_name: &str) -> (res: ValidationResult)
        ensures
            res@ == report_of(length_errors(self.min, self.max, field_name@, byte_len(value@))),
    {
        let len = value.as_str().as_bytes().len();
        let mut result = ValidationResult::valid();
        let ghost errs = Seq::<ErrorView>::empty();
        assert(result@ == report_of(errs));
        if let Some(min) = self.min {
            if len < min {
                let mut message = String::from_str("Must be at least ");
                message.append(decimal_string(min).as_str());
                message.append(" characters");
                result.add_error(field_name, "min_length", message.as_str());
                proof {
                    errs = errs.push(field_error(field_name@, "min_length"@, message@));
                }
            }
        }
        assert(result@ == report_of(errs));
        let ghost first = errs;
        if let Some(max) = self.max {
            if len > max {
                let mut message = String::from_str("Must be at most ");
                message.append(decimal_string(max).as_str());
                message.append(" characters");
                result.add_error(field_name, "max_length", message.as_str());
                proof {
                    errs = errs.push(field_error(field_name@, "max_length"@, message@));
                }
            }
        }
        assert(errs =~= length_errors(self.min, self.max, field_name@, byte_len(value@)));
        result
    }
}

/// Requires that a string field matches a regular expression.
pub struct RegexValidator {
    pub pattern: &'static str,
}

/// The result of matching a field against `pattern`: whether it matched, or
/// the text of the error that refused the pattern.
pub open spec fn regex_report(
    field: Seq<char>,
    pattern: Seq<char>,
    outcome: Result<bool, Seq<char>>,
) -> ReportView {
    match outcome {
        Ok(true) => valid_report(),
        Ok(false) => error_report(
            field,
            "pattern_mismatch"@,
            "Does not match required pattern: "@ + pattern,
        ),
        Err(text) => error_report(field, "invalid_pattern"@, "Invalid regex pattern: "@ + text),
    }
}

/// The value of a matching outcome.
pub open spec fn outcome_view(outcome: Result<bool, String>) -> Result<bool, Seq<char>> {
    match outcome {
        Ok(b) => Ok(b),
        Err(text) => Err(text@),
    }
}

impl RegexValidator {
    /// The result for a field once the pattern has been tried on it.
    pub fn report(&self, field_name: &str, outcome: Result<bool, String>) -> (res:
        ValidationResult)
        ensures
            res@ == regex_report(field_name@, self.pattern@, outcome_view(outcome)),
    {
        match outcome {
            Ok(true) => ValidationResult::valid(),
            Ok(false) => {
                let mut message = String::from_str("Does not match required pattern: ");
                message.append(self.pattern);
                ValidationResult::error(field_name, "pattern_mismatch", message.as_str())
            },
            Err(text) => {
                let mut message = String::from_str("Invalid regex pattern: ");
                message.append(text.as_str());
                ValidationResult::error(field_name, "invalid_pattern", message.as_str())
            },
        }
    }
}

impl FieldValidator<String> for RegexValidator {
    fn validate(&self, value: &String, field_name: &str) -> (res: ValidationResult)
        ensures
            regex_compiles(self.pattern@) ==> res@ == regex_report(
                field_name@,
                self.pattern@,
                Ok(regex_matches(self.pattern@, value@)),
            ),
            !regex_compiles(self.pattern@) ==> res@ == regex_report(
                field_name@,
                self.pattern@,
                Err(regex_error_message(self.pattern@)),
            ),
    {
        let outcome = match compile_pattern(self.pattern) {
            Ok(compiled) => Ok(pattern_is_match(&compiled, value.as_str())),
            Err(e) => Err(regex_error_text(&e)),
        };
        self.report(field_name, outcome)
    }
}

/// Requires that a string field is one of a fixed list of values.
pub struct EnumValidator {
    pub variants: &'static [&'static str],
}

impl FieldValidator<String> for EnumValidator {
    fn validate(&self, value: &String, field_name: &str) -> (res: ValidationResult)
        ensures
            res@ == (if str_views(self.variants@).contains(value@) {
                valid_report()
            } else {
                error_report(
                    field_name@,
                    "invalid_value"@,
                    "Must be one of: "@ + debug_list(str_views(self.variants@)),
                )
            }),
    {
        let variants = self.variants;
        let mut i: usize = 0;
        while i < variants.len()
            invariant
                variants@ == self.variants@,
                i <= variants@.len(),
                forall|j: int| 0 <= j < i ==> variants@[j]@ != value@,
            decreases variants@.len() - i,
        {
            if same_text(variants[i], value.as_str()) {
                assert(str_views(variants@)[i as int] == value@);
                return ValidationResult::valid();
            }
            i = i + 1;
        }
        assert(!str_views(variants@).contains(value@)) by {
            if str_views(variants@).contains(value@) {
                let k = choose|k: int| 0 <= k < str_views(variants@).len() && str_views(variants@)[k] == value@;
                assert(variants@[k]@ == value@);
            }
        }
        let mut message = String::from_str("Must be one of: ");
        message.append(debug_str_list(variants).as_str());
        ValidationResult::error(field_name, "invalid_value", message.as_str())
    }
}

/// Requires that a string field looks like an e-mail address.
pub struct EmailValidator;

impl FieldValidator<String> for EmailValidator {
    fn validate(&self, value: &String, field_name: &str) -> (res: ValidationResult)
        ensures
            res@ == (if email_accepted(value@) {
                valid_report()
            } else {
                error_report(field_name@, "invalid_email"@, "Invalid email format"@)
            }),
    {
        if validate_email(value.as_str()) {
            ValidationResult::valid()
        } else {
            ValidationResult::error(field_name, "invalid_email", "Invalid email format")
        }
    }
}

// ---------------------------------------------------------------------------
// MESSAGE PAYLOADS
// ---------------------------------------------------------------------------

/// The fields of an order payload that the order rules read. A field is
/// `Some` when the payload holds it with the expected JSON type: a string for
/// the textual fields, a number for `quantity` and `price`, held as the bits
/// of its `f64` value.
pub struct OrderPayload {
    pub side: Option<String>,
    pub order_type: Option<String>,
    pub quantity: Option<u64>,
    pub price: Option<u64>,
    pub time_in_force: Option<String>,
}

/// The fields of an account payload that the account rules read, in the same
/// form as for [`OrderPayload`].
pub struct AccountPayload {
    pub amount: Option<u64>,
    pub currency: Option<String>,
}

#[verifier::external_type_specification]
#[verifier::external_body]
pub struct ExJsonValue(serde_json::Value);

/// Whether `serde_json::from_slice` accepts `payload` as one JSON value.
pub uninterp spec fn json_parses(payload: Seq<u8>) -> bool;

/// Parses `payload` with `serde_json::from_slice::<Value>`.
///
/// Trusted: a value comes back exactly on the payloads that [`json_parses`]
/// names. Nothing is stated of the value itself.
#[verifier::external_body]
fn parse_json(payload: &[u8]) -> (res: Option<serde_json::Value>)
    ensures
        res is Some <==> json_parses(payload@),
{
    serde_json::from_slice::<serde_json::Value>(payload).ok()
}

/// A check registered for the parsed JSON of one message type.
///
/// Implementations are supplied by the users of [`MessageValidator`]. What
/// they promise is the contract of `check`: its report is a function of the
/// validator and the parsed value, named by `outcome`. `outcome` is never run;
/// an implementation outside verified code defines it as unreachable.
pub trait JsonFieldValidator {
    /// The report of this validator on a parsed payload.
    spec fn outcome(&self, value: serde_json::Value) -> ReportView;

    /// Checks the parsed payload.
    fn check(&self, value: &serde_json::Value) -> (res: ValidationResult)
        ensures
            res@ == self.outcome(*value),
    ;
}

/// A check registered for the raw payload of every message.
///
/// Implementations are supplied by the users of [`MessageValidator`]. What
/// they promise is the contract of `check`: its report is a function of the
/// validator, the message type and the payload, named by `outcome`. `outcome`
/// is never run; an implementation outside verified code defines it as
/// unreachable.
pub trait PayloadValidator {
    /// The report of this validator on a message of type `message_type`.
    spec fn outcome(&self, message_type: u16, payload: &[u8]) -> ReportView;

    /// Checks the payload of a message of type `message_type`.
    fn check(&self, message_type: u16, payload: &[u8]) -> (res: ValidationResult)
        ensures
            res@ == self.outcome(message_type, payload),
    ;
}

/// The reports of `validators`, in order, on the parsed payload `value`.
pub open spec fn field_outcomes(
    validators: Seq<Box<dyn JsonFieldValidator>>,
    value: serde_json::Value,
) -> Seq<ReportView> {
    Seq::new(validators.len(), |k: int| validators[k].outcome(value))
}

/// The reports of `validators`, in order, on a message of type
/// `message_type` with raw payload `payload`.
pub open spec fn custom_outcomes(
    validators: Seq<Box<dyn PayloadValidator>>,
    message_type: u16,
    payload: &[u8],
) -> Seq<ReportView> {
    Seq::new(validators.len(), |k: int| validators[k].outcome(message_type, payload))
}

/// Validation of protocol messages: a schema check, the field validators
/// registered for the message type, then the custom validators, each in the
/// order of registration.
pub struct MessageValidator {
    field_validators: HashMap<u16, Vec<Box<dyn JsonFieldValidator>>>,
    custom_validators: Vec<Box<dyn PayloadValidator>>,
}

/// The report of the schema check: no error, or a `schema_mismatch` error
/// with the `{:?}` text of what the schema checker reported.
pub open spec fn schema_report(schema: Result<(), Seq<char>>) -> ReportView {
    match schema {
        Ok(_) => valid_report(),
        Err(text) => error_report(
            "_schema"@,
            "schema_mismatch"@,
            "Schema validation failed: "@ + text,
        ),
    }
}

/// `start` combined, in order, with each report of `reports`.
pub open spec fn combine_all(start: ReportView, reports: Seq<ReportView>) -> ReportView
    decreases reports.len(),
{
    if reports.len() == 0 {
        start
    } else {
        combined(combine_all(start, reports.drop_last()), reports.last())
    }
}

/// The report of a message: the schema report, then the reports of the field
/// validators, then those of the custom validators.
pub open spec fn message_report(
    schema: Result<(), Seq<char>>,
    field_reports: Seq<ReportView>,
    custom_reports: Seq<ReportView>,
) -> ReportView {
    combine_all(combine_all(schema_report(schema), field_reports), custom_reports)
}

proof fn lemma_combine_all_splits(start: ReportView, reports: Seq<ReportView>)
    ensures
        combine_all(start, reports) == combined(start, combine_all(valid_report(), reports)),
    decreases reports.len(),
{
    if reports.len() == 0 {
        lemma_valid_is_neutral(start);
    } else {
        lemma_combine_all_splits(start, reports.drop_last());
        lemma_combine_associative(
            start,
            combine_all(valid_report(), reports.drop_last()),
            reports.last(),
        );
    }
}

/// The report of a message is the schema report, combined with the field
/// reports taken together, combined with the custom reports taken together;
/// with no report at all it is the schema report alone.
pub proof fn lemma_message_report_stages(
    schema: Result<(), Seq<char>>,
    field_reports: Seq<ReportView>,
    custom_reports: Seq<ReportView>,
)
    ensures
        message_report(schema, field_reports, custom_reports) == combined(
            combined(schema_report(schema), combine_all(valid_report(), field_reports)),
            combine_all(valid_report(), custom_reports),
        ),
        message_report(schema, Seq::empty(), Seq::empty()) == schema_report(schema),
{
    lemma_combine_all_splits(schema_report(schema), field_reports);
    lemma_combine_all_splits(combine_all(schema_report(schema), field_reports), custom_reports);
}

/// The value of a schema outcome.
pub open spec fn schema_view(schema: Result<(), String>) -> Result<(), Seq<char>> {
    match schema {
        Ok(_) => Ok(()),
        Err(text) => Err(text@),
    }
}

/// The values of a sequence of results.
pub open spec fn report_views(results: Seq<ValidationResult>) -> Seq<ReportView> {
    results.map_values(|r: ValidationResult| r@)
}

/// Combines `results` into `result`, in order.
fn combine_each(result: &mut ValidationResult, results: Vec<ValidationResult>)
    ensures
        final(result)@ == combine_all(old(result)@, report_views(results@)),
{
    let ghost all = report_views(results@);
    let ghost start = result@;
    let mut results = results;
    let total = results.len();
    let mut k: usize = 0;
    assert(all.take(0) =~= Seq::<ReportView>::empty());
    assert(all.skip(0) =~= all);
    while results.len() > 0
        invariant
            all.len() == total,
            k + results@.len() == all.len(),
            report_views(results@) == all.skip(k as int),
            result@ == combine_all(start, all.take(k as int)),
        decreases results@.len(),
    {
        let ghost before = results@;
        assert(report_views(before)[0] == all.skip(k as int)[0]);
        let next = results.remove(0);
        assert(next@ == all[k as int]);
        assert(results@ =~= before.skip(1));
        assert(all.take(k + 1).drop_last() =~= all.take(k as int));
        result.combine(next);
        assert forall|j: int| 0 <= j < results@.len() implies #[trigger] report_views(results@)[j]
            == all.skip(k + 1)[j] by {
            assert(results@[j] == before[j + 1]);
            assert(report_views(before)[j + 1] == all.skip(k as int)[j + 1]);
        }
        assert(report_views(results@) =~= all.skip(k + 1));
        k = k + 1;
    }
    assert(all.take(k as int) =~= all);
}

/// Combines the reports of the stages of message validation, in order.
pub fn combine_message_reports(
    schema: Result<(), String>,
    field_results: Vec<ValidationResult>,
    custom_results: Vec<ValidationResult>,
) -> (res: ValidationResult)
    ensures
        res@ == message_report(
            schema_view(schema),
            report_views(field_results@),
            report_views(custom_results@),
        ),
{
    let mut result = ValidationResult::valid();
    match &schema {
        Ok(_) => {},
        Err(text) => {
            let message = String::from_str("Schema validation failed: ").concat(text.as_str());
            result.add_error("_schema", "schema_mismatch", message.as_str());
            assert(result@ =~= error_report(
                "_schema"@,
                "schema_mismatch"@,
                "Schema validation failed: "@ + text@,
            ));
        },
    }
    combine_each(&mut result, field_results);
    combine_each(&mut result, custom_results);
    result
}

/// No error.
pub open spec fn no_errors() -> Seq<ErrorView> {
    Seq::empty()
}

/// The errors of the `side` field.
pub open spec fn side_errors(side: Option<Seq<char>>) -> Seq<ErrorView> {
    match side {
        Some(s) => if s == "buy"@ || s == "sell"@ {
            no_errors()
        } else {
            seq![
                field_error(
                    "side"@,
                    "invalid_side"@,
                    "Invalid side: "@ + s + ". Must be 'buy' or 'sell'"@,
                ),
            ]
        },
        None => seq![field_error("side"@, "required"@, "Side is required"@)],
    }
}

/// A known order type.
pub open spec fn is_order_type(t: Seq<char>) -> bool {
    t == "market"@ || t == "limit"@ || t == "stop"@ || t == "stop_limit"@
}

/// The errors of the `type` field.
pub open spec fn order_type_errors(order_type: Option<Seq<char>>) -> Seq<ErrorView> {
    match order_type {
        Some(t) => if is_order_type(t) {
            no_errors()
        } else {
            seq![field_error("type"@, "invalid_type"@, "Invalid order type: "@ + t)]
        },
        None => seq![field_error("type"@, "required"@, "Order type is required"@)],
    }
}

/// The errors of the `quantity` field.
pub open spec fn quantity_errors(quantity: Option<u64>) -> Seq<ErrorView> {
    match quantity {
        Some(q) => (if at_most_zero(q) {
            seq![field_error("quantity"@, "invalid_quantity"@, "Quantity must be positive"@)]
        } else {
            no_errors()
        }) + (if above(q, ONE_MILLION_BITS) {
            seq![
                field_error("quantity"@, "max_exceeded"@, "Quantity exceeds maximum allowed"@),
            ]
        } else {
            no_errors()
        }),
        None => seq![field_error("quantity"@, "required"@, "Quantity is required"@)],
    }
}

/// The errors of the `price` field, which only orders other than market
/// orders need.
pub open spec fn price_errors(order_type: Option<Seq<char>>, price: Option<u64>) -> Seq<
    ErrorView,
> {
    if order_type == Some("market"@) {
        no_errors()
    } else {
        match price {
            Some(p) => if at_most_zero(p) {
                seq![field_error("price"@, "invalid_price"@, "Price must be positive"@)]
            } else {
                no_errors()
            },
            None => seq![
                field_error("price"@, "required"@, "Price is required for non-market orders"@),
            ],
        }
    }
}

/// The accepted time-in-force values.
pub open spec fn time_in_force_values() -> Seq<Seq<char>> {
    seq!["gtc"@, "ioc"@, "fok"@, "day"@, "gtd"@]
}

/// The errors of the optional `time_in_force` field.
pub open spec fn time_in_force_errors(tif: Option<Seq<char>>) -> Seq<ErrorView> {
    match tif {
        Some(t) => if time_in_force_values().contains(t) {
            no_errors()
        } else {
            seq![
                field_error(
                    "time_in_force"@,
                    "invalid_tif"@,
                    "Invalid time_in_force: "@ + debug_quoted(t) + ". Must be one of "@
                        + debug_list(time_in_force_values()),
                ),
            ]
        },
        None => no_errors(),
    }
}

/// The errors of an order payload, field by field.
pub open spec fn order_errors(
    side: Option<Seq<char>>,
    order_type: Option<Seq<char>>,
    quantity: Option<u64>,
    price: Option<u64>,
    tif: Option<Seq<char>>,
) -> Seq<ErrorView> {
    side_errors(side) + order_type_errors(order_type) + quantity_errors(quantity) + price_errors(
        order_type,
        price,
    ) + time_in_force_errors(tif)
}

/// The accepted currencies.
pub open spec fn is_currency(c: Seq<char>) -> bool {
    c == "USD"@ || c == "EUR"@ || c == "GBP"@ || c == "BTC"@ || c == "ETH"@ || c == "USDT"@ || c
        == "USDC"@
}

/// The errors of an account payload.
pub open spec fn account_errors(amount: Option<u64>, currency: Option<Seq<char>>) -> Seq<
    ErrorView,
> {
    (match amount {
        Some(a) => (if at_most_zero(a) {
            seq![field_error("amount"@, "invalid_amount"@, "Amount must be positive"@)]
        } else {
            no_errors()
        }) + (if above(a, ONE_BILLION_BITS) {
            seq![field_error("amount"@, "max_exceeded"@, "Amount exceeds maximum"@)]
        } else {
            no_errors()
        }),
        None => no_errors(),
    }) + (match currency {
        Some(c) => if is_currency(c) {
            no_errors()
        } else {
            seq![field_error("currency"@, "invalid_currency"@, "Unsupported currency: "@ + c)]
        },
        None => no_errors(),
    })
}

/// Whether an optional string is present and spells `word`.
fn holds_text(value: &Option<String>, word: &str) -> (res: bool)
    ensures
        res == (value.deep_view() == Some(word@)),
{
    match value {
        Some(v) => same_text(v.as_str(), word),
        None => false,
    }
}

/// Builds "`prefix``middle``suffix`".
fn three_part(prefix: &str, middle: &str, suffix: &str) -> (res: String)
    ensures
        res@ == prefix@ + middle@ + suffix@,
{
    let mut s = String::from_str(prefix);
    s.append(middle);
    s.append(suffix);
    s
}

/// `r` followed by the errors `errs`.
pub open spec fn with_errors(r: ReportView, errs: Seq<ErrorView>) -> ReportView {
    ReportView { valid: r.valid && errs.len() == 0, errors: r.errors + errs, warnings: r.warnings }
}

proof fn lemma_report_of_append(a: Seq<ErrorView>, b: Seq<ErrorView>)
    ensures
        with_errors(report_of(a), b) == report_of(a + b),
{
    assert(report_of(a + b).errors =~= a + b);
}

/// Records the errors of the `side` field.
fn check_side(result: &mut ValidationResult, side: &Option<String>)
    ensures
        final(result)@ == with_errors(old(result)@, side_errors(side.deep_view())),
{
    match side {
        Some(side) => {
            if !(same_text(side.as_str(), "buy") || same_text(side.as_str(), "sell")) {
                let message = three_part("Invalid side: ", side.as_str(), ". Must be 'buy' or 'sell'");
                result.add_error("side", "invalid_side", message.as_str());
            }
        },
        None => result.add_error("side", "required", "Side is required"),
    }
    assert(result@.errors =~= old(result)@.errors + side_errors(side.deep_view()));
}

/// Records the errors of the `type` field.
fn check_order_type(result: &mut ValidationResult, order_type: &Option<String>)
    ensures
        final(result)@ == with_errors(old(result)@, order_type_errors(order_type.deep_view())),
{
    match order_type {
        Some(t) => {
            if !(same_text(t.as_str(), "market") || same_text(t.as_str(), "limit") || same_text(
                t.as_str(),
                "stop",
            ) || same_text(t.as_str(), "stop_limit")) {
                let message = String::from_str("Invalid order type: ").concat(t.as_str());
                result.add_error("type", "invalid_type", message.as_str());
            }
        },
        None => result.add_error("type", "required", "Order type is required"),
    }
    assert(result@.errors =~= old(result)@.errors + order_type_errors(order_type.deep_view()));
}

/// Records the errors of the `quantity` field.
fn check_quantity(result: &mut ValidationResult, quantity: Option<u64>)
    ensures
        final(result)@ == with_errors(old(result)@, quantity_errors(quantity)),
{
    match quantity {
        Some(q) => {
            if bits_at_most_zero(q) {
                result.add_error("quantity", "invalid_quantity", "Quantity must be positive");
            }
            if bits_above(q, ONE_MILLION_BITS) {
                result.add_error("quantity", "max_exceeded", "Quantity exceeds maximum allowed");
            }
        },
        None => result.add_error("quantity", "required", "Quantity is required"),
    }
    assert(result@.errors =~= old(result)@.errors + quantity_errors(quantity));
}

/// Records the errors of the `price` field.
fn check_price(result: &mut ValidationResult, order_type: &Option<String>, price: Option<u64>)
    ensures
        final(result)@ == with_errors(old(result)@, price_errors(order_type.deep_view(), price)),
{
    if !holds_text(order_type, "market") {
        match price {
            Some(p) => {
                if bits_at_most_zero(p) {
                    result.add_error("price", "invalid_price", "Price must be positive");
                }
            },
            None => result.add_error("price", "required", "Price is required for non-market orders"),
        }
    }
    assert(result@.errors =~= old(result)@.errors + price_errors(order_type.deep_view(), price));
}

/// Records the errors of the `time_in_force` field.
fn check_time_in_force(result: &mut ValidationResult, tif: &Option<String>)
    ensures
        final(result)@ == with_errors(old(result)@, time_in_force_errors(tif.deep_view())),
{
    let valid_tif: [&str; 5] = ["gtc", "ioc", "fok", "day", "gtd"];
    assert(str_views(valid_tif@) =~= time_in_force_values());
    match tif {
        Some(tif) => {
            let mut known = false;
            let mut i: usize = 0;
            while i < 5
                invariant
                    i <= 5,
                    valid_tif@.len() == 5,
                    known == exists|j: int| 0 <= j < i && valid_tif@[j]@ == tif@,
                decreases 5 - i,
            {
                if same_text(valid_tif[i], tif.as_str()) {
                    known = true;
                }
                i = i + 1;
            }
            assert(known == time_in_force_values().contains(tif@)) by {
                if time_in_force_values().contains(tif@) {
                    let k = choose|k: int|
                        0 <= k < time_in_force_values().len() && time_in_force_values()[k] == tif@;
                    assert(valid_tif@[k]@ == tif@);
                }
                if known {
                    let k = choose|k: int| 0 <= k < 5 && valid_tif@[k]@ == tif@;
                    assert(time_in_force_values()[k] == tif@);
                }
            }
            if !known {
                let quoted = debug_str(tif.as_str());
                let listed = debug_str_list(valid_tif.as_slice());
                let mut message = three_part(
                    "Invalid time_in_force: ",
                    quoted.as_str(),
                    ". Must be one of ",
                );
                message.append(listed.as_str());
                result.add_error("time_in_force", "invalid_tif", message.as_str());
            }
        },
        None => {},
    }
    assert(result@.errors =~= old(result)@.errors + time_in_force_errors(tif.deep_view()));
}

impl MessageValidator {
    /// The field validators, by message type, in order of registration.
    pub closed spec fn field_validators(&self) -> Map<u16, Seq<Box<dyn JsonFieldValidator>>> {
        self.field_validators@.map_values(|list: Vec<Box<dyn JsonFieldValidator>>| list@)
    }

    /// The custom validators, in order of registration.
    pub closed spec fn custom_validators(&self) -> Seq<Box<dyn PayloadValidator>> {
        self.custom_validators@
    }

    /// The field validators registered for `message_type`.
    pub open spec fn registered_for(&self, message_type: u16) -> Seq<Box<dyn JsonFieldValidator>> {
        if self.field_validators().contains_key(message_type) {
            self.field_validators()[message_type]
        } else {
            Seq::empty()
        }
    }

    /// A validator with no field and no custom validator.
    pub fn new() -> (res: Self)
        ensures
            res.field_validators() == Map::<u16, Seq<Box<dyn JsonFieldValidator>>>::empty(),
            res.custom_validators() == Seq::<Box<dyn PayloadValidator>>::empty(),
    {
        let res = MessageValidator { field_validators: HashMap::new(), custom_validators: Vec::new() };
        assert(res.field_validators() =~= Map::<u16, Seq<Box<dyn JsonFieldValidator>>>::empty());
        res
    }

    /// Registers `validator` after those already registered for
    /// `message_type`.
    pub fn register_field_validator(
        &mut self,
        message_type: u16,
        validator: Box<dyn JsonFieldValidator>,
    )
        ensures
            final(self).field_validators() == old(self).field_validators().insert(
                message_type,
                old(self).registered_for(message_type).push(validator),
            ),
            final(self).custom_validators() == old(self).custom_validators(),
    {
        broadcast use vstd::std_specs::hash::group_hash_axioms;

        let ghost before = self.field_validators@;
        let mut list = match self.field_validators.remove(&message_type) {
            Some(list) => list,
            None => Vec::new(),
        };
        assert(list@ == old(self).registered_for(message_type));
        list.push(validator);
        self.field_validators.insert(message_type, list);
        assert(self.field_validators() =~= old(self).field_validators().insert(
            message_type,
            old(self).registered_for(message_type).push(validator),
        ));
    }

    /// Registers `validator` after the custom validators already registered.
    pub fn register_custom_validator(&mut self, validator: Box<dyn PayloadValidator>)
        ensures
            final(self).custom_validators() == old(self).custom_validators().push(validator),
            final(self).field_validators() == old(self).field_validators(),
    {
        self.custom_validators.push(validator);
    }

    /// Validates a message of type `message_type`. `schema` is the outcome of
    /// checking `payload` against the schema of its type and version, with the
    /// `{:?}` text of the problem found. When `payload` parses as JSON, the
    /// field validators registered for the type check the parsed value; every
    /// custom validator then checks the raw payload.
    pub fn validate(&self, message_type: u16, schema: Result<(), String>, payload: &[u8]) -> (res:
        ValidationResult)
        ensures
            json_parses(payload@) ==> exists|value: serde_json::Value|
                res@ == #[trigger] message_report(
                    schema_view(schema),
                    field_outcomes(self.registered_for(message_type), value),
                    custom_outcomes(self.custom_validators(), message_type, payload),
                ),
            !json_parses(payload@) ==> res@ == message_report(
                schema_view(schema),
                Seq::empty(),
                custom_outcomes(self.custom_validators(), message_type, payload),
            ),
    {
        broadcast use vstd::std_specs::hash::group_hash_axioms;

        let mut field_results: Vec<ValidationResult> = Vec::new();
        let ghost mut parsed: Option<serde_json::Value> = None;
        if let Some(value) = parse_json(payload) {
            proof {
                parsed = Some(value);
            }
            match self.field_validators.get(&message_type) {
                Some(list) => {
                    assert(list@ == self.registered_for(message_type));
                    let mut i: usize = 0;
                    while i < list.len()
                        invariant
                            i <= list@.len(),
                            report_views(field_results@) == field_outcomes(list@, value).take(
                                i as int,
                            ),
                        decreases list@.len() - i,
                    {
                        let r = list[i].check(&value);
                        let ghost before = report_views(field_results@);
                        field_results.push(r);
                        assert(report_views(field_results@) =~= before.push(r@));
                        assert(report_views(field_results@) =~= field_outcomes(list@, value).take(
                            i + 1,
                        ));
                        i = i + 1;
                    }
                    assert(field_outcomes(list@, value).take(list@.len() as int) =~= field_outcomes(
                        list@,
                        value,
                    ));
                },
                None => {
                    assert(report_views(field_results@) =~= field_outcomes(
                        self.registered_for(message_type),
                        value,
                    ));
                },
            }
        } else {
            assert(report_views(field_results@) =~= Seq::<ReportView>::empty());
        }
        let mut custom_results: Vec<ValidationResult> = Vec::new();
        let mut j: usize = 0;
        while j < self.custom_validators.len()
            invariant
                j <= self.custom_validators@.len(),
                report_views(custom_results@) == custom_outcomes(
                    self.custom_validators@,
                    message_type,
                    payload,
                ).take(j as int),
            decreases self.custom_validators@.len() - j,
        {
            let r = self.custom_validators[j].check(message_type, payload);
            let ghost before = report_views(custom_results@);
            custom_results.push(r);
            assert(report_views(custom_results@) =~= before.push(r@));
            assert(report_views(custom_results@) =~= custom_outcomes(
                self.custom_validators@,
                message_type,
                payload,
            ).take(j + 1));
            j = j + 1;
        }
        assert(custom_outcomes(self.custom_validators@, message_type, payload).take(
            self.custom_validators@.len() as int,
        ) =~= custom_outcomes(self.custom_validators@, message_type, payload));
        let ghost field_reports = report_views(field_results@);
        let ghost custom_reports = report_views(custom_results@);
        let ghost schema_value = schema_view(schema);
        let res = combine_message_reports(schema, field_results, custom_results);
        assert(res@ == message_report(schema_value, field_reports, custom_reports));
        proof {
            if json_parses(payload@) {
                let value = parsed->0;
                assert(res@ == message_report(
                    schema_view(schema),
                    field_outcomes(self.registered_for(message_type), value),
                    custom_outcomes(self.custom_validators(), message_type, payload),
                ));
            }
        }
        res
    }

    /// Checks the fields of an order: side, type, quantity, price for orders
    /// other than market orders, and time in force when given.
    pub fn validate_order_payload(payload: &OrderPayload) -> (res: ValidationResult)
        ensures
            res@ == report_of(
                order_errors(
                    payload.side.deep_view(),
                    payload.order_type.deep_view(),
                    payload.quantity,
                    payload.price,
                    payload.time_in_force.deep_view(),
                ),
            ),
    {
        let mut result = ValidationResult::valid();
        let ghost s = side_errors(payload.side.deep_view());
        let ghost t = order_type_errors(payload.order_type.deep_view());
        let ghost q = quantity_errors(payload.quantity);
        let ghost p = price_errors(payload.order_type.deep_view(), payload.price);
        let ghost f = time_in_force_errors(payload.time_in_force.deep_view());
        assert(result@ == report_of(no_errors()));
        check_side(&mut result, &payload.side);
        proof {
            lemma_report_of_append(no_errors(), s);
        }
        check_order_type(&mut result, &payload.order_type);
        proof {
            lemma_report_of_append(no_errors() + s, t);
        }
        check_quantity(&mut result, payload.quantity);
        proof {
            lemma_report_of_append(no_errors() + s + t, q);
        }
        check_price(&mut result, &payload.order_type, payload.price);
        proof {
            lemma_report_of_append(no_errors() + s + t + q, p);
        }
        check_time_in_force(&mut result, &payload.time_in_force);
        proof {
            lemma_report_of_append(no_errors() + s + t + q + p, f);
            assert(no_errors() + s + t + q + p + f =~= order_errors(
                payload.side.deep_view(),
                payload.order_type.deep_view(),
                payload.quantity,
                payload.price,
                payload.time_in_force.deep_view(),
            ));
        }
        result
    }

    /// Checks the fields of an account operation: a positive amount of at most
    /// one billion, and a supported currency, each when given.
    pub fn validate_account_payload(payload: &AccountPayload) -> (res: ValidationResult)
        ensures
            res@ == report_of(account_errors(payload.amount, payload.currency.deep_view())),
    {
        let mut result = ValidationResult::valid();
        let ghost errs = no_errors();
        assert(result@ == report_of(errs));
        if let Some(amount) = payload.amount {
            if bits_at_most_zero(amount) {
                result.add_error("amount", "invalid_amount", "Amount must be positive");
            }
            if bits_above(amount, ONE_BILLION_BITS) {
                result.add_error("amount", "max_exceeded", "Amount exceeds maximum");
            }
        }
        if let Some(currency) = &payload.currency {
            let c = currency.as_str();
            if !(same_text(c, "USD") || same_text(c, "EUR") || same_text(c, "GBP") || same_text(
                c,
                "BTC",
            ) || same_text(c, "ETH") || same_text(c, "USDT") || same_text(c, "USDC")) {
                let message = String::from_str("Unsupported currency: ").concat(c);
                result.add_error("currency", "invalid_currency", message.as_str());
            }
        }
        assert(result@.errors =~= account_errors(payload.amount, payload.currency.deep_view()));
        result
    }
}

// ---------------------------------------------------------------------------
// CONVENIENCE FUNCTIONS
// ---------------------------------------------------------------------------

/// Shape of an e-mail address.
pub const EMAIL_PATTERN: &'static str = "^[a-zA-Z0-9._%+-]+@[a-zA-Z0-9.-]+\\.[a-zA-Z]{2,}$";

/// Shape of a lower-case hyphenated UUID.
pub const UUID_PATTERN: &'static str =
    "^[0-9a-f]{8}-[0-9a-f]{4}-[0-9a-f]{4}-[0-9a-f]{4}-[0-9a-f]{12}$";

/// Shape of a trading symbol such as `BTC/USD`.
pub const SYMBOL_PATTERN: &'static str = "^[A-Z0-9]{2,10}/[A-Z0-9]{2,10}$";

/// Shape of an instrument identifier.
pub const INSTRUMENT_ID_PATTERN: &'static str = "^[a-z0-9]{2,20}$";

/// `text` is matched by the built-in expression `pattern`.
pub open spec fn builtin_match(pattern: Seq<char>, text: Seq<char>) -> bool {
    regex_compiles(pattern) && regex_matches(pattern, text)
}

/// `s` is accepted as an e-mail address.
pub open spec fn email_accepted(s: Seq<char>) -> bool {
    builtin_match(EMAIL_PATTERN@, s)
}

/// Matches `text` against one of the built-in expressions.
fn matches_builtin(pattern: &str, text: &str) -> (res: bool)
    ensures
        res == builtin_match(pattern@, text@),
{
    match compile_pattern(pattern) {
        Ok(compiled) => pattern_is_match(&compiled, text),
        Err(_) => false,
    }
}

/// Whether `email` looks like an e-mail address.
pub fn validate_email(email: &str) -> (res: bool)
    ensures
        res == email_accepted(email@),
{
    matches_builtin(EMAIL_PATTERN, email)
}

/// The number of ASCII digits in `s`.
pub open spec fn digit_count(s: Seq<char>) -> nat
    decreases s.len(),
{
    if s.len() == 0 {
        0
    } else {
        digit_count(s.drop_last()) + if is_ascii_digit(s.last()) {
            1nat
        } else {
            0nat
        }
    }
}

/// Whether `phone` holds between 10 and 15 digits, whatever else it holds.
pub fn validate_phone(phone: &str) -> (res: bool)
    ensures
        res == (10 <= digit_count(phone@) <= 15),
{
    let chars = chars_of(phone);
    let mut count: usize = 0;
    let mut i: usize = 0;
    while i < chars.len()
        invariant
            chars@ == phone@,
            i <= chars@.len(),
            count == digit_count(chars@.take(i as int)),
            count <= i,
        decreases chars@.len() - i,
    {
        assert(chars@.take(i + 1).drop_last() =~= chars@.take(i as int));
        if char_is_ascii_digit(chars[i]) {
            count = count + 1;
        }
        i = i + 1;
    }
    assert(chars@.take(chars@.len() as int) =~= chars@);
    10 <= count && count <= 15
}

/// Whether `uuid` looks like a lower-case hyphenated UUID.
pub fn validate_uuid(uuid: &str) -> (res: bool)
    ensures
        res == builtin_match(UUID_PATTERN@, uuid@),
{
    matches_builtin(UUID_PATTERN, uuid)
}

/// Whether `s` is the hexadecimal writing of `expected_len` bytes: twice as
/// many hexadecimal digits.
pub fn validate_hex_string(s: &str, expected_len: usize) -> (res: bool)
    requires
        expected_len <= usize::MAX / 2,
    ensures
        res == (byte_len(s@) == 2 * expected_len && forall|i: int|
            0 <= i < s@.len() ==> #[trigger] is_ascii_hexdigit(s@[i])),
{
    if s.as_bytes().len() != expected_len * 2 {
        return false;
    }
    let chars = chars_of(s);
    let mut i: usize = 0;
    while i < chars.len()
        invariant
            chars@ == s@,
            byte_len(s@) == 2 * expected_len,
            i <= chars@.len(),
            forall|j: int| 0 <= j < i ==> #[trigger] is_ascii_hexdigit(chars@[j]),
        decreases chars@.len() - i,
    {
        if !char_is_ascii_hexdigit(chars[i]) {
            return false;
        }
        i = i + 1;
    }
    true
}

/// Whether `ts`, in milliseconds since the epoch, lies from 2000-01-01 to
/// 2100-01-01.
pub fn validate_timestamp(ts: i64) -> (res: bool)
    ensures
        res == (946684800000 <= ts && ts <= 4102444800000),
{
    ts >= 946684800000 && ts <= 4102444800000
}

/// Whether `symbol` looks like a trading symbol such as `BTC/USD`.
pub fn validate_symbol(symbol: &str) -> (res: bool)
    ensures
        res == builtin_match(SYMBOL_PATTERN@, symbol@),
{
    matches_builtin(SYMBOL_PATTERN, symbol)
}

/// Whether `id` looks like an instrument identifier.
pub fn validate_instrument_id(id: &str) -> (res: bool)
    ensures
        res == builtin_match(INSTRUMENT_ID_PATTERN@, id@),
{
    matches_builtin(INSTRUMENT_ID_PATTERN, id)
}

/// Whether the quantity whose `f64` bits are `qty_bits` is positive and below
/// one hundred million.
pub fn validate_quantity(qty_bits: u64) -> (res: bool)
    ensures
        res == (above(qty_bits, 0) && below(qty_bits, ONE_HUNDRED_MILLION_BITS)),
{
    bits_above(qty_bits, 0) && bits_below(qty_bits, ONE_HUNDRED_MILLION_BITS)
}


// ---------------------------------------------------------------------------
// LAWS OF MESSAGE AND PAYLOAD VALIDATION
// ---------------------------------------------------------------------------

/// Every registered validator contributes exactly one report, in order: the
/// k-th field report is the k-th field validator's report on the parsed value,
/// and the k-th custom report is the k-th custom validator's report on the
/// message type and payload.
pub proof fn lemma_each_validator_reports_once(
    fields: Seq<Box<dyn JsonFieldValidator>>,
    value: serde_json::Value,
    customs: Seq<Box<dyn PayloadValidator>>,
    message_type: u16,
    payload: &[u8],
)
    ensures
        field_outcomes(fields, value).len() == fields.len(),
        forall|k: int|
            0 <= k < fields.len() ==> #[trigger] field_outcomes(fields, value)[k]
                == fields[k].outcome(value),
        custom_outcomes(customs, message_type, payload).len() == customs.len(),
        forall|k: int|
            0 <= k < customs.len() ==> #[trigger] custom_outcomes(customs, message_type, payload)[k]
                == customs[k].outcome(message_type, payload),
{
}

proof fn lemma_combine_all_valid(start: ReportView, reports: Seq<ReportView>)
    ensures
        combine_all(start, reports).valid == (start.valid && forall|k: int|
            0 <= k < reports.len() ==> #[trigger] reports[k].valid),
    decreases reports.len(),
{
    if reports.len() > 0 {
        let t = reports.drop_last();
        lemma_combine_all_valid(start, t);
        if start.valid && forall|k: int| 0 <= k < t.len() ==> #[trigger] t[k].valid {
            if reports.last().valid {
                assert forall|k: int| 0 <= k < reports.len() implies #[trigger] reports[k].valid by {
                    if k < t.len() {
                        assert(t[k] == reports[k]);
                    }
                }
            }
        } else if start.valid {
            let k = choose|k: int| 0 <= k < t.len() && !(#[trigger] t[k].valid);
            assert(t[k] == reports[k]);
        }
    }
}

/// A message is valid exactly when the schema check passed and every report
/// combined into it, field and custom, is valid.
pub proof fn lemma_message_valid_iff_all_valid(
    schema: Result<(), Seq<char>>,
    field_reports: Seq<ReportView>,
    custom_reports: Seq<ReportView>,
)
    ensures
        message_report(schema, field_reports, custom_reports).valid == (schema is Ok && (forall|
            k: int,
        | 0 <= k < field_reports.len() ==> #[trigger] field_reports[k].valid) && (forall|k: int|
            0 <= k < custom_reports.len() ==> #[trigger] custom_reports[k].valid)),
{
    lemma_combine_all_valid(schema_report(schema), field_reports);
    lemma_combine_all_valid(combine_all(schema_report(schema), field_reports), custom_reports);
}

/// The order type causes no error exactly when it is `market`, `limit`,
/// `stop` or `stop_limit`; any other type causes one `invalid_type` error
/// naming it, and a missing type one `required` error.
pub proof fn lemma_order_types(order_type: Option<Seq<char>>)
    ensures
        order_type matches Some(t) ==> (order_type_errors(order_type).len() == 0 <==> (t
            == "market"@ || t == "limit"@ || t == "stop"@ || t == "stop_limit"@)),
        order_type is Some && order_type_errors(order_type).len() != 0 ==> order_type_errors(
            order_type,
        ) == seq![field_error("type"@, "invalid_type"@, "Invalid order type: "@ + order_type->0)],
        order_type is None ==> order_type_errors(order_type) == seq![
            field_error("type"@, "required"@, "Order type is required"@),
        ],
{
}

/// A currency causes no error exactly when it is one of USD, EUR, GBP, BTC,
/// ETH, USDT and USDC; any other currency causes one `invalid_currency` error
/// naming it.
pub proof fn lemma_supported_currencies(amount: Option<u64>, currency: Seq<char>)
    ensures
        account_errors(None, Some(currency)).len() == 0 <==> (currency == "USD"@ || currency
            == "EUR"@ || currency == "GBP"@ || currency == "BTC"@ || currency == "ETH"@
            || currency == "USDT"@ || currency == "USDC"@),
        account_errors(amount, Some(currency)) == account_errors(amount, None) + account_errors(
            None,
            Some(currency),
        ),
        account_errors(None, Some(currency)).len() != 0 ==> account_errors(None, Some(currency))
            == seq![
            field_error("currency"@, "invalid_currency"@, "Unsupported currency: "@ + currency),
        ],
{
    assert(account_errors(None, Some(currency)) =~= no_errors() + account_errors(
        None,
        Some(currency),
    ).subrange(0, account_errors(None, Some(currency)).len() as int));
    assert(account_errors(amount, None) + no_errors() =~= account_errors(amount, None));
}

/// Characters other than the ASCII digits `'0'..='9'` add nothing to the
/// digit count, each digit adds one, and counts add up over concatenation.
pub proof fn lemma_digit_count_counts_digits(s: Seq<char>, t: Seq<char>, c: char)
    ensures
        digit_count(Seq::empty()) == 0,
        digit_count(s.push(c)) == digit_count(s) + (if '0' <= c && c <= '9' {
            1int
        } else {
            0int
        }),
        digit_count(s + t) == digit_count(s) + digit_count(t),
        digit_count(s) <= s.len(),
    decreases t.len(),
{
    assert(s.push(c).drop_last() =~= s);
    lemma_digit_count_at_most_len(s);
    if t.len() > 0 {
        lemma_digit_count_counts_digits(s, t.drop_last(), c);
        assert((s + t).drop_last() =~= s + t.drop_last());
    } else {
        assert(s + t =~= s);
    }
}

proof fn lemma_digit_count_at_most_len(s: Seq<char>)
    ensures
        digit_count(s) <= s.len(),
    decreases s.len(),
{
    if s.len() > 0 {
        lemma_digit_count_at_most_len(s.drop_last());
    }
}

} // verus!

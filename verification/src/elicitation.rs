//! Validation of submitted form values against the fields that a form asks for.
//!
//! A field of a floating-point kind is judged on a [`Real`], which holds what
//! the decision needs of a parsed number: whether it is a number at all,
//! whether it is finite, and its rank among the numbers.
use vstd::prelude::*;
#[allow(unused_imports)]
use vstd::string::*;

#[allow(unused_imports)]
use crate::text::{
    byte_count, byte_len, cat2, chars_of, decimal, decimal_text, find_char, is_white,
    is_whitespace, lemma_trimmed_blank, lemma_until, option_view, parse_i64, same_text,
    signed_decimal, signed_text, signed_value, split, split_at_char, text_between, trim, trimmed,
    until, views,
};

verus! {

/// The textual formats that a string field may ask for.
#[derive(Clone, Copy, Debug, PartialEq, Eq, Structural)]
pub enum ElicitTextFormat {
    Email,
    Uri,
    Date,
    DateTime,
}

/// One option of a selection.
#[derive(Clone, Debug)]
pub struct ElicitOption {
    pub value: String,
}

/// A floating-point number as the validation sees it.
#[derive(Clone, Debug)]
pub struct Real {
    /// Not a number: it compares below and above nothing.
    pub nan: bool,
    /// Neither infinite nor NaN.
    pub finite: bool,
    /// Orders the values that are not NaN; equal values have equal ranks.
    pub rank: i64,
    /// The number as it is printed.
    pub text: String,
}

/// What a field holds.
#[derive(Clone, Debug)]
pub enum ElicitFieldKind {
    Unsupported,
    Boolean,
    SingleSelect { options: Vec<ElicitOption> },
    MultiSelect { options: Vec<ElicitOption>, min_items: Option<u64>, max_items: Option<u64> },
    String { format: Option<ElicitTextFormat>, min_length: Option<u64>, max_length: Option<u64> },
    Integer { minimum: Option<i64>, maximum: Option<i64> },
    Number { minimum: Option<Real>, maximum: Option<Real> },
}

/// One field of a form.
#[derive(Clone, Debug)]
pub struct ElicitFieldSpec {
    pub name: String,
    pub required: bool,
    pub kind: ElicitFieldKind,
}

/// The user's submitted value for one field. Selections are indexes into the
/// options of the field.
#[derive(Clone, Debug)]
pub enum ElicitFieldValue<'a> {
    /// The raw text draft of a string, number or integer field. An empty draft
    /// means "not provided"; anything else is validated and submitted verbatim.
    Draft(&'a str),
    Bool(bool),
    Choice(Option<usize>),
    /// Selected option indexes, in option order.
    MultiChoice(&'a [usize]),
}

/// What a value holds.
pub enum ValueView {
    Draft(Seq<char>),
    Bool(bool),
    Choice(Option<usize>),
    MultiChoice(Seq<usize>),
}

impl<'a> View for ElicitFieldValue<'a> {
    type V = ValueView;

    open spec fn view(&self) -> ValueView {
        match *self {
            ElicitFieldValue::Draft(s) => ValueView::Draft(s@),
            ElicitFieldValue::Bool(b) => ValueView::Bool(b),
            ElicitFieldValue::Choice(c) => ValueView::Choice(c),
            ElicitFieldValue::MultiChoice(m) => ValueView::MultiChoice(m@),
        }
    }
}

/// The accepted content of one field.
#[derive(Clone, Debug)]
pub enum FieldContent {
    Bool(bool),
    Text(String),
    List(Vec<String>),
    Integer(i64),
    /// A finite number, as it is printed.
    Number(String),
}

/// What an accepted content holds.
#[verifier::ext_equal]
pub enum ContentView {
    Bool(bool),
    Text(Seq<char>),
    List(Seq<Seq<char>>),
    Integer(int),
    Number(Seq<char>),
}

impl View for FieldContent {
    type V = ContentView;

    open spec fn view(&self) -> ContentView {
        match *self {
            FieldContent::Bool(b) => ContentView::Bool(b),
            FieldContent::Text(s) => ContentView::Text(s@),
            FieldContent::List(l) => ContentView::List(views(l@)),
            FieldContent::Integer(n) => ContentView::Integer(n as int),
            FieldContent::Number(s) => ContentView::Number(s@),
        }
    }
}

/// A field that was refused, and why.
#[derive(Clone, Debug, PartialEq, Eq)]
pub struct FormValidationError {
    pub field: String,
    pub message: String,
}

/// The verdict on one field: its content, nothing to submit, or a message.
pub type VerdictView = Result<Option<ContentView>, Seq<char>>;

// ---- what the outside crates decide ----

/// `url::Url::parse` accepts the string.
pub uninterp spec fn uri_accepted(s: Seq<char>) -> bool;

/// Calls `url::Url::parse` and tells whether it succeeded.
#[verifier::external_body]
fn uri_parses(s: &str) -> (r: bool)
    ensures
        r == uri_accepted(s@),
{
    url::Url::parse(s).is_ok()
}

/// `chrono::NaiveDate::parse_from_str` accepts the string in the format.
pub uninterp spec fn date_accepted(s: Seq<char>, format: Seq<char>) -> bool;

/// Calls `chrono::NaiveDate::parse_from_str` and tells whether it succeeded.
#[verifier::external_body]
fn date_parses(s: &str, format: &str) -> (r: bool)
    ensures
        r == date_accepted(s@, format@),
{
    chrono::NaiveDate::parse_from_str(s, format).is_ok()
}

/// `chrono::DateTime::parse_from_rfc3339` accepts the string.
pub uninterp spec fn date_time_accepted(s: Seq<char>) -> bool;

/// Calls `chrono::DateTime::parse_from_rfc3339` and tells whether it succeeded.
#[verifier::external_body]
fn date_time_parses(s: &str) -> (r: bool)
    ensures
        r == date_time_accepted(s@),
{
    chrono::DateTime::parse_from_rfc3339(s).is_ok()
}

// ---- text formats ----

/// An ASCII letter or digit.
pub open spec fn ascii_alphanumeric(c: char) -> bool {
    ('0' <= c && c <= '9') || ('a' <= c && c <= 'z') || ('A' <= c && c <= 'Z')
}

/// One label of a host name.
pub open spec fn host_label(l: Seq<char>) -> bool {
    &&& l.len() > 0
    &&& byte_len(l) <= 63
    &&& l[0] != '-'
    &&& l.last() != '-'
    &&& forall|i: int| 0 <= i < l.len() ==> ascii_alphanumeric(#[trigger] l[i]) || l[i] == '-'
}

/// One `@`, a non-empty local part of at most 64 characters without white
/// space, and a domain of at least two host labels.
pub open spec fn plausible_email(s: Seq<char>) -> bool {
    let k = until(s, '@') as int;
    let local = s.take(k);
    let labels = split(s.skip(k + 1), '.');
    &&& k < s.len()
    &&& 0 < local.len() <= 64
    &&& forall|i: int| 0 <= i < local.len() ==> !is_white(#[trigger] local[i])
    &&& labels.len() >= 2
    &&& forall|i: int| 0 <= i < labels.len() ==> host_label(#[trigger] labels[i])
}

fn is_host_label(label: &str) -> (r: bool)
    ensures
        r == host_label(label@),
{
    let v: Vec<char> = chars_of(label);
    let bytes: usize = byte_count(label);
    if v.len() == 0 || bytes > 63 || v[0] == '-' || v[v.len() - 1] == '-' {
        return false;
    }
    let mut i: usize = 0;
    while i < v.len()
        invariant
            i <= v@.len(),
            v@ == label@,
            forall|j: int| 0 <= j < i ==> ascii_alphanumeric(#[trigger] v@[j]) || v@[j] == '-',
        decreases v.len() - i,
    {
        let c: char = v[i];
        let alphanumeric: bool = ('0' <= c && c <= '9') || ('a' <= c && c <= 'z') || ('A' <= c && c
            <= 'Z');
        if !(alphanumeric || c == '-') {
            return false;
        }
        i += 1;
    }
    true
}

/// Whether a string has the shape of an e-mail address.
pub fn is_plausible_email(s: &str) -> (r: bool)
    ensures
        r == plausible_email(s@),
{
    let v: Vec<char> = chars_of(s);
    let k: usize = find_char(&v, 0, '@');
    proof {
        assert(v@.skip(0) =~= s@);
    }
    if k >= v.len() || k == 0 || k > 64 {
        return false;
    }
    let ghost local = s@.take(k as int);
    let mut i: usize = 0;
    while i < k
        invariant
            i <= k < v@.len(),
            v@ == s@,
            k == until(s@, '@'),
            local == s@.take(k as int),
            forall|j: int| 0 <= j < i ==> !is_white(#[trigger] local[j]),
        decreases k - i,
    {
        if is_whitespace(v[i]) {
            proof {
                assert(is_white(local[i as int]));
            }
            return false;
        }
        i += 1;
    }
    let domain: String = text_between(&v, k + 1, v.len());
    proof {
        assert(domain@ =~= s@.skip(k as int + 1));
    }
    let labels: Vec<String> = split_at_char(domain.as_str(), '.');
    let ghost parts = split(s@.skip(k as int + 1), '.');
    proof {
        assert(views(labels@).len() == labels@.len());
    }
    if labels.len() < 2 {
        return false;
    }
    let mut n: usize = 0;
    while n < labels.len()
        invariant
            n <= labels@.len(),
            k == until(s@, '@'),
            parts == views(labels@),
            parts == split(s@.skip(k as int + 1), '.'),
            forall|j: int| 0 <= j < n ==> host_label(#[trigger] parts[j]),
        decreases labels.len() - n,
    {
        if !is_host_label(labels[n].as_str()) {
            proof {
                assert(!host_label(parts[n as int]));
            }
            return false;
        }
        n += 1;
    }
    true
}

/// The message for a draft that does not have its format.
pub open spec fn format_message(format: ElicitTextFormat) -> Seq<char> {
    match format {
        ElicitTextFormat::Email => "invalid email"@,
        ElicitTextFormat::Uri => "invalid URI"@,
        ElicitTextFormat::Date => "use YYYY-MM-DD"@,
        ElicitTextFormat::DateTime => "use RFC 3339 date-time"@,
    }
}

/// The message for a draft that does not have its format.
pub fn format_error(format: ElicitTextFormat) -> (r: String)
    ensures
        r@ == format_message(format),
{
    match format {
        ElicitTextFormat::Email => "invalid email".to_owned(),
        ElicitTextFormat::Uri => "invalid URI".to_owned(),
        ElicitTextFormat::Date => "use YYYY-MM-DD".to_owned(),
        ElicitTextFormat::DateTime => "use RFC 3339 date-time".to_owned(),
    }
}

/// A draft has a format. A date takes ten bytes.
pub open spec fn format_accepted(format: ElicitTextFormat, s: Seq<char>) -> bool {
    match format {
        ElicitTextFormat::Email => plausible_email(s),
        ElicitTextFormat::Uri => uri_accepted(s),
        ElicitTextFormat::Date => byte_len(s) == 10 && date_accepted(s, "%Y-%m-%d"@),
        ElicitTextFormat::DateTime => date_time_accepted(s),
    }
}

/// Whether a draft has a format.
pub fn has_format(format: ElicitTextFormat, s: &str) -> (r: bool)
    ensures
        r == format_accepted(format, s@),
{
    match format {
        ElicitTextFormat::Email => is_plausible_email(s),
        ElicitTextFormat::Uri => uri_parses(s),
        ElicitTextFormat::Date => {
            byte_count(s) == 10 && date_parses(s, "%Y-%m-%d")
        },
        ElicitTextFormat::DateTime => date_time_parses(s),
    }
}

/// The message for a draft that does not have the format it should.
pub fn validate_text_format(format: ElicitTextFormat, s: &str) -> (r: Option<String>)
    ensures
        option_view(r) == (if format_accepted(format, s@) {
            None
        } else {
            Some(format_message(format))
        }),
{
    if has_format(format, s) {
        None
    } else {
        Some(format_error(format))
    }
}

// ---- one field ----

/// The message for nothing submitted, or nothing to submit.
pub open spec fn absent(required: bool) -> VerdictView {
    if required {
        Err("required"@)
    } else {
        Ok(None)
    }
}

/// The values of the options that the indexes pick, out-of-range ones left out.
pub open spec fn picked(options: Seq<ElicitOption>, chosen: Seq<usize>) -> Seq<Seq<char>>
    decreases chosen.len(),
{
    if chosen.len() == 0 {
        Seq::empty()
    } else if chosen.last() < options.len() {
        picked(options, chosen.drop_last()).push(options[chosen.last() as int].value@)
    } else {
        picked(options, chosen.drop_last())
    }
}

/// The verdict on a selection of several options.
pub open spec fn multi_verdict(
    required: bool,
    values: Seq<Seq<char>>,
    min_items: Option<u64>,
    max_items: Option<u64>,
) -> VerdictView {
    if min_items is Some && values.len() < min_items->0 {
        Err("select at least "@ + decimal(min_items->0 as nat))
    } else if max_items is Some && values.len() > max_items->0 {
        Err("select at most "@ + decimal(max_items->0 as nat))
    } else if values.len() == 0 && !required {
        Ok(None)
    } else {
        Ok(Some(ContentView::List(values)))
    }
}

/// The verdict on the draft of a string field; `formatted` says whether it has
/// the format that the field asks for.
pub open spec fn string_verdict(
    required: bool,
    draft: Seq<char>,
    format: Option<ElicitTextFormat>,
    min_length: Option<u64>,
    max_length: Option<u64>,
    formatted: bool,
) -> VerdictView {
    if draft.len() == 0 {
        absent(required)
    } else if min_length is Some && draft.len() < min_length->0 {
        Err("min length "@ + decimal(min_length->0 as nat))
    } else if max_length is Some && draft.len() > max_length->0 {
        Err("max length "@ + decimal(max_length->0 as nat))
    } else if format is Some && !formatted {
        Err(format_message(format->0))
    } else {
        Ok(Some(ContentView::Text(draft)))
    }
}

/// The verdict on the draft of an integer field.
pub open spec fn integer_verdict(
    required: bool,
    draft: Seq<char>,
    minimum: Option<i64>,
    maximum: Option<i64>,
) -> VerdictView {
    let text = trimmed(draft);
    let n = signed_value(text);
    if text.len() == 0 {
        absent(required)
    } else if n is None || n->0 > i64::MAX || n->0 < i64::MIN {
        Err("must be an integer"@)
    } else if minimum is Some && n->0 < minimum->0 {
        Err("min "@ + signed_decimal(minimum->0 as int))
    } else if maximum is Some && n->0 > maximum->0 {
        Err("max "@ + signed_decimal(maximum->0 as int))
    } else {
        Ok(Some(ContentView::Integer(n->0)))
    }
}

/// `a` is the smaller number.
pub open spec fn real_below(a: Real, b: Real) -> bool {
    !a.nan && !b.nan && a.rank < b.rank
}

/// The verdict on the draft of a number field, which reads as `number`.
pub open spec fn number_verdict(
    required: bool,
    draft: Seq<char>,
    number: Option<Real>,
    minimum: Option<Real>,
    maximum: Option<Real>,
) -> VerdictView {
    if trimmed(draft).len() == 0 {
        absent(required)
    } else if number is None {
        Err("invalid number"@)
    } else if minimum is Some && real_below(number->0, minimum->0) {
        Err("min "@ + minimum->0.text@)
    } else if maximum is Some && real_below(maximum->0, number->0) {
        Err("max "@ + maximum->0.text@)
    } else if number->0.finite {
        Ok(Some(ContentView::Number(number->0.text@)))
    } else {
        Err("invalid number"@)
    }
}

/// The verdict on one field. `number` is what the draft reads as, where the
/// field is a number; `formatted` whether it has the format, where the field
/// asks for one.
pub open spec fn field_verdict(
    spec: ElicitFieldSpec,
    value: ValueView,
    number: Option<Real>,
    formatted: bool,
) -> VerdictView {
    match (spec.kind, value) {
        (ElicitFieldKind::Unsupported, _) => if spec.required {
            Err("unsupported field type"@)
        } else {
            Ok(None)
        },
        (ElicitFieldKind::Boolean, ValueView::Bool(b)) => Ok(Some(ContentView::Bool(b))),
        (ElicitFieldKind::SingleSelect { options }, ValueView::Choice(choice)) => {
            if choice is Some && choice->0 < options@.len() {
                Ok(Some(ContentView::Text(options@[choice->0 as int].value@)))
            } else {
                absent(spec.required)
            }
        },
        (
            ElicitFieldKind::MultiSelect { options, min_items, max_items },
            ValueView::MultiChoice(chosen),
        ) => multi_verdict(spec.required, picked(options@, chosen), min_items, max_items),
        (
            ElicitFieldKind::String { format, min_length, max_length },
            ValueView::Draft(draft),
        ) => string_verdict(spec.required, draft, format, min_length, max_length, formatted),
        (ElicitFieldKind::Integer { minimum, maximum }, ValueView::Draft(draft)) => integer_verdict(
            spec.required,
            draft,
            minimum,
            maximum,
        ),
        (ElicitFieldKind::Number { minimum, maximum }, ValueView::Draft(draft)) => number_verdict(
            spec.required,
            draft,
            number,
            minimum,
            maximum,
        ),
        _ => Err("invalid value"@),
    }
}

/// The draft of a string field has the format that the field asks for, if any.
pub open spec fn draft_formatted(spec: ElicitFieldSpec, value: ValueView) -> bool {
    match (spec.kind, value) {
        (
            ElicitFieldKind::String { format: Some(format), .. },
            ValueView::Draft(draft),
        ) => format_accepted(format, draft),
        _ => true,
    }
}

/// What a result says.
pub open spec fn verdict_view(r: Result<Option<FieldContent>, String>) -> VerdictView {
    match r {
        Ok(Some(c)) => Ok(Some(c@)),
        Ok(None) => Ok(None),
        Err(m) => Err(m@),
    }
}

fn absent_value(required: bool) -> (r: Result<Option<FieldContent>, String>)
    ensures
        verdict_view(r) == absent(required),
{
    if required {
        Err("required".to_owned())
    } else {
        Ok(None)
    }
}

fn judge_multi(
    required: bool,
    options: &Vec<ElicitOption>,
    chosen: &[usize],
    min_items: Option<u64>,
    max_items: Option<u64>,
) -> (r: Result<Option<FieldContent>, String>)
    ensures
        verdict_view(r) == multi_verdict(
            required,
            picked(options@, chosen@),
            min_items,
            max_items,
        ),
{
    let mut values: Vec<String> = Vec::new();
    let mut i: usize = 0;
    while i < chosen.len()
        invariant
            i <= chosen@.len(),
            views(values@) =~= picked(options@, chosen@.take(i as int)),
        decreases chosen.len() - i,
    {
        let k: usize = chosen[i];
        proof {
            assert(chosen@.take(i as int + 1).drop_last() =~= chosen@.take(i as int));
        }
        if k < options.len() {
            let ghost before = views(values@);
            values.push(options[k].value.clone());
            proof {
                assert(views(values@) =~= before.push(options@[k as int].value@));
            }
        }
        i += 1;
    }
    proof {
        assert(chosen@.take(chosen@.len() as int) =~= chosen@);
        assert(views(values@).len() == values@.len());
    }
    if let Some(min) = min_items {
        if (values.len() as u64) < min {
            return Err(cat2("select at least ", decimal_text(min).as_str()));
        }
    }
    if let Some(max) = max_items {
        if (values.len() as u64) > max {
            return Err(cat2("select at most ", decimal_text(max).as_str()));
        }
    }
    if values.len() == 0 && !required {
        return Ok(None);
    }
    Ok(Some(FieldContent::List(values)))
}

fn judge_string(
    required: bool,
    draft: &str,
    format: Option<ElicitTextFormat>,
    min_length: Option<u64>,
    max_length: Option<u64>,
    formatted: bool,
) -> (r: Result<Option<FieldContent>, String>)
    ensures
        verdict_view(r) == string_verdict(
            required,
            draft@,
            format,
            min_length,
            max_length,
            formatted,
        ),
{
    let length: u64 = draft.unicode_len() as u64;
    if length == 0 {
        return absent_value(required);
    }
    if let Some(min) = min_length {
        if length < min {
            return Err(cat2("min length ", decimal_text(min).as_str()));
        }
    }
    if let Some(max) = max_length {
        if length > max {
            return Err(cat2("max length ", decimal_text(max).as_str()));
        }
    }
    if let Some(fmt) = format {
        if !formatted {
            return Err(format_error(fmt));
        }
    }
    Ok(Some(FieldContent::Text(draft.to_owned())))
}

fn judge_integer(
    required: bool,
    draft: &str,
    minimum: Option<i64>,
    maximum: Option<i64>,
) -> (r: Result<Option<FieldContent>, String>)
    ensures
        verdict_view(r) == integer_verdict(required, draft@, minimum, maximum),
{
    let text: &str = trim(draft);
    if text.is_empty() {
        return absent_value(required);
    }
    match parse_i64(text) {
        None => Err("must be an integer".to_owned()),
        Some(n) => {
            if let Some(min) = minimum {
                if n < min {
                    return Err(cat2("min ", signed_text(min).as_str()));
                }
            }
            if let Some(max) = maximum {
                if n > max {
                    return Err(cat2("max ", signed_text(max).as_str()));
                }
            }
            Ok(Some(FieldContent::Integer(n)))
        },
    }
}

fn judge_number(
    required: bool,
    draft: &str,
    number: &Option<Real>,
    minimum: &Option<Real>,
    maximum: &Option<Real>,
) -> (r: Result<Option<FieldContent>, String>)
    ensures
        verdict_view(r) == number_verdict(required, draft@, *number, *minimum, *maximum),
{
    if trim(draft).is_empty() {
        return absent_value(required);
    }
    match number {
        None => Err("invalid number".to_owned()),
        Some(n) => {
            if let Some(min) = minimum {
                if !n.nan && !min.nan && n.rank < min.rank {
                    return Err(cat2("min ", min.text.as_str()));
                }
            }
            if let Some(max) = maximum {
                if !n.nan && !max.nan && max.rank < n.rank {
                    return Err(cat2("max ", max.text.as_str()));
                }
            }
            if n.finite {
                Ok(Some(FieldContent::Number(n.text.clone())))
            } else {
                Err("invalid number".to_owned())
            }
        },
    }
}

/// Judges one field, given whether its draft has the format it should.
pub fn judge_field(
    spec: &ElicitFieldSpec,
    value: &ElicitFieldValue<'_>,
    number: &Option<Real>,
    formatted: bool,
) -> (r: Result<Option<FieldContent>, String>)
    ensures
        verdict_view(r) == field_verdict(*spec, value@, *number, formatted),
{
    match (&spec.kind, value) {
        (ElicitFieldKind::Unsupported, _) => {
            if spec.required {
                Err("unsupported field type".to_owned())
            } else {
                Ok(None)
            }
        },
        (ElicitFieldKind::Boolean, ElicitFieldValue::Bool(b)) => Ok(Some(FieldContent::Bool(*b))),
        (ElicitFieldKind::SingleSelect { options }, ElicitFieldValue::Choice(choice)) => {
            match choice {
                Some(k) => {
                    if *k < options.len() {
                        return Ok(Some(FieldContent::Text(options[*k].value.clone())));
                    }
                },
                None => {},
            }
            absent_value(spec.required)
        },
        (
            ElicitFieldKind::MultiSelect { options, min_items, max_items },
            ElicitFieldValue::MultiChoice(chosen),
        ) => judge_multi(spec.required, options, chosen, *min_items, *max_items),
        (
            ElicitFieldKind::String { format, min_length, max_length },
            ElicitFieldValue::Draft(draft),
        ) => judge_string(spec.required, draft, *format, *min_length, *max_length, formatted),
        (
            ElicitFieldKind::Integer { minimum, maximum },
            ElicitFieldValue::Draft(draft),
        ) => judge_integer(spec.required, draft, *minimum, *maximum),
        (
            ElicitFieldKind::Number { minimum, maximum },
            ElicitFieldValue::Draft(draft),
        ) => judge_number(spec.required, draft, number, minimum, maximum),
        _ => Err("invalid value".to_owned()),
    }
}

/// Validates one field. `Ok(None)` means "leave it out of the content" (empty
/// and not required). `number` is what the draft of a number field reads as.
pub fn validate_field(
    spec: &ElicitFieldSpec,
    value: &ElicitFieldValue<'_>,
    number: &Option<Real>,
) -> (r: Result<Option<FieldContent>, String>)
    ensures
        verdict_view(r) == field_verdict(*spec, value@, *number, draft_formatted(*spec, value@)),
{
    let formatted: bool = match (&spec.kind, value) {
        (
            ElicitFieldKind::String { format: Some(format), .. },
            ElicitFieldValue::Draft(draft),
        ) => has_format(*format, draft),
        _ => true,
    };
    judge_field(spec, value, number, formatted)
}

// ---- a whole form ----

/// The empty value of a kind of field. A Boolean has none.
pub open spec fn empty_value(kind: ElicitFieldKind) -> ValueView {
    match kind {
        ElicitFieldKind::SingleSelect { .. } => ValueView::Choice(None),
        ElicitFieldKind::MultiSelect { .. } => ValueView::MultiChoice(Seq::empty()),
        _ => ValueView::Draft(""@),
    }
}

/// The verdict on a field for which nothing was submitted: it is empty.
pub open spec fn missing_verdict(spec: ElicitFieldSpec) -> VerdictView {
    if spec.kind is Boolean {
        absent(spec.required)
    } else {
        field_verdict(spec, empty_value(spec.kind), None, true)
    }
}

/// Judges a field for which nothing was submitted.
pub fn validate_missing(spec: &ElicitFieldSpec) -> (r: Result<Option<FieldContent>, String>)
    ensures
        verdict_view(r) == missing_verdict(*spec),
{
    match &spec.kind {
        ElicitFieldKind::Boolean => absent_value(spec.required),
        ElicitFieldKind::SingleSelect { .. } => judge_field(
            spec,
            &ElicitFieldValue::Choice(None),
            &None,
            true,
        ),
        ElicitFieldKind::MultiSelect { .. } => {
            let none: Vec<usize> = Vec::new();
            proof {
                assert(none@ =~= Seq::<usize>::empty());
            }
            judge_field(spec, &ElicitFieldValue::MultiChoice(none.as_slice()), &None, true)
        },
        _ => judge_field(spec, &ElicitFieldValue::Draft(""), &None, true),
    }
}

/// The number for field `i`, if one was read.
pub open spec fn number_at(numbers: Seq<Option<Real>>, i: int) -> Option<Real> {
    if i < numbers.len() {
        numbers[i]
    } else {
        None
    }
}

/// The verdict on field `i`.
pub open spec fn verdict_at(
    specs: Seq<ElicitFieldSpec>,
    values: Seq<ElicitFieldValue<'_>>,
    numbers: Seq<Option<Real>>,
    i: int,
) -> VerdictView {
    if i < values.len() {
        field_verdict(
            specs[i],
            values[i]@,
            number_at(numbers, i),
            draft_formatted(specs[i], values[i]@),
        )
    } else {
        missing_verdict(specs[i])
    }
}

/// The errors of the first `n` fields, in field order.
pub open spec fn form_errors(
    specs: Seq<ElicitFieldSpec>,
    values: Seq<ElicitFieldValue<'_>>,
    numbers: Seq<Option<Real>>,
    n: int,
) -> Seq<(Seq<char>, Seq<char>)>
    decreases n,
{
    if n <= 0 {
        Seq::empty()
    } else {
        let before = form_errors(specs, values, numbers, n - 1);
        match verdict_at(specs, values, numbers, n - 1) {
            Err(m) => before.push((specs[n - 1].name@, m)),
            Ok(_) => before,
        }
    }
}

/// The content that the first `n` fields give, by field name.
pub open spec fn form_content(
    specs: Seq<ElicitFieldSpec>,
    values: Seq<ElicitFieldValue<'_>>,
    numbers: Seq<Option<Real>>,
    n: int,
) -> Map<Seq<char>, ContentView>
    decreases n,
{
    if n <= 0 {
        Map::empty()
    } else {
        let before = form_content(specs, values, numbers, n - 1);
        match verdict_at(specs, values, numbers, n - 1) {
            Ok(Some(c)) => before.insert(specs[n - 1].name@, c),
            _ => before,
        }
    }
}

/// The names of a list of entries are all different.
pub open spec fn names_differ(entries: Seq<(String, FieldContent)>) -> bool {
    forall|i: int, j: int|
        0 <= i < j < entries.len() ==> (#[trigger] entries[i]).0@ != (#[trigger] entries[j]).0@
}

/// What a list of entries holds, by name.
pub open spec fn entries_map(entries: Seq<(String, FieldContent)>) -> Map<Seq<char>, ContentView>
    decreases entries.len(),
{
    if entries.len() == 0 {
        Map::empty()
    } else {
        entries_map(entries.drop_last()).insert(entries.last().0@, entries.last().1@)
    }
}

proof fn lemma_entries_replace(entries: Seq<(String, FieldContent)>, k: int, e: (String, FieldContent))
    requires
        names_differ(entries),
        0 <= k < entries.len(),
        e.0@ == entries[k].0@,
    ensures
        entries_map(entries.update(k, e)) =~= entries_map(entries).insert(e.0@, e.1@),
        names_differ(entries.update(k, e)),
    decreases entries.len(),
{
    let after = entries.update(k, e);
    assert forall|i: int, j: int| 0 <= i < j < after.len() implies (#[trigger] after[i]).0@ != (
    #[trigger] after[j]).0@ by {
        assert(entries[i].0@ != entries[j].0@);
    }
    if k == entries.len() - 1 {
        assert(after.drop_last() =~= entries.drop_last());
    } else {
        let short = entries.drop_last();
        assert(names_differ(short)) by {
            assert forall|i: int, j: int| 0 <= i < j < short.len() implies (
            #[trigger] short[i]).0@ != (#[trigger] short[j]).0@ by {
                assert(entries[i].0@ != entries[j].0@);
            }
        }
        lemma_entries_replace(short, k, e);
        assert(after.drop_last() =~= short.update(k, e));
        assert(entries[k].0@ != entries[entries.len() - 1].0@);
    }
}

/// Puts a content under a name, in place of what was there.
fn put_entry(entries: &mut Vec<(String, FieldContent)>, name: &str, content: FieldContent)
    requires
        names_differ(old(entries)@),
    ensures
        names_differ(final(entries)@),
        entries_map(final(entries)@) == entries_map(old(entries)@).insert(name@, content@),
{
    let ghost before = entries@;
    let mut i: usize = 0;
    while i < entries.len()
        invariant
            i <= entries@.len(),
            entries@ == before,
            before == old(entries)@,
            names_differ(before),
            forall|j: int| 0 <= j < i ==> (#[trigger] before[j]).0@ != name@,
        decreases entries.len() - i,
    {
        if same_text(entries[i].0.as_str(), name) {
            let entry: (String, FieldContent) = (name.to_owned(), content);
            proof {
                lemma_entries_replace(before, i as int, entry);
            }
            entries.set(i, entry);
            return;
        }
        i += 1;
    }
    entries.push((name.to_owned(), content));
    proof {
        assert(entries@.drop_last() =~= before);
        assert forall|a: int, b: int| 0 <= a < b < entries@.len() implies (
        #[trigger] entries@[a]).0@ != (#[trigger] entries@[b]).0@ by {
            if b < before.len() {
                assert(before[a].0@ != before[b].0@);
            } else {
                assert(before[a].0@ != name@);
            }
        }
    }
}

/// The errors of a list, as pairs of field and message.
pub open spec fn error_views(errors: Seq<FormValidationError>) -> Seq<(Seq<char>, Seq<char>)> {
    errors.map_values(|e: FormValidationError| (e.field@, e.message@))
}

/// Validates a submitted form. `values` and `numbers` are parallel to `specs`;
/// a missing value counts as empty. Gives the accepted content, each name once,
/// or the errors in field order.
pub fn validate_form(
    specs: &[ElicitFieldSpec],
    values: &[ElicitFieldValue<'_>],
    numbers: &[Option<Real>],
) -> (r: Result<Vec<(String, FieldContent)>, Vec<FormValidationError>>)
    ensures
        match r {
            Ok(content) => {
                &&& form_errors(specs@, values@, numbers@, specs@.len() as int).len() == 0
                &&& names_differ(content@)
                &&& entries_map(content@) == form_content(
                    specs@,
                    values@,
                    numbers@,
                    specs@.len() as int,
                )
            },
            Err(errors) => {
                &&& errors@.len() > 0
                &&& error_views(errors@) == form_errors(
                    specs@,
                    values@,
                    numbers@,
                    specs@.len() as int,
                )
            },
        },
{
    let mut content: Vec<(String, FieldContent)> = Vec::new();
    let mut errors: Vec<FormValidationError> = Vec::new();
    let mut i: usize = 0;
    while i < specs.len()
        invariant
            i <= specs@.len(),
            names_differ(content@),
            entries_map(content@) == form_content(specs@, values@, numbers@, i as int),
            error_views(errors@) =~= form_errors(specs@, values@, numbers@, i as int),
        decreases specs.len() - i,
    {
        let verdict: Result<Option<FieldContent>, String> = if i < values.len() {
            if i < numbers.len() {
                validate_field(&specs[i], &values[i], &numbers[i])
            } else {
                validate_field(&specs[i], &values[i], &None)
            }
        } else {
            validate_missing(&specs[i])
        };
        match verdict {
            Ok(Some(c)) => {
                put_entry(&mut content, specs[i].name.as_str(), c);
            },
            Ok(None) => {},
            Err(message) => {
                let ghost before = error_views(errors@);
                errors.push(FormValidationError { field: specs[i].name.clone(), message });
                proof {
                    assert(error_views(errors@) =~= before.push(
                        (specs@[i as int].name@, message@),
                    ));
                }
            },
        }
        i += 1;
    }
    proof {
        assert(error_views(errors@).len() == errors@.len());
    }
    if errors.len() == 0 {
        Ok(content)
    } else {
        Err(errors)
    }
}

// ---- laws ----

/// A form is accepted exactly where each of its fields is.
pub proof fn law_form_is_judged_field_by_field(
    specs: Seq<ElicitFieldSpec>,
    values: Seq<ElicitFieldValue<'_>>,
    numbers: Seq<Option<Real>>,
    n: int,
)
    requires
        0 <= n <= specs.len(),
    ensures
        form_errors(specs, values, numbers, n).len() == 0 <==> forall|i: int|
            0 <= i < n ==> (#[trigger] verdict_at(specs, values, numbers, i)) is Ok,
    decreases n,
{
    if n > 0 {
        law_form_is_judged_field_by_field(specs, values, numbers, n - 1);
        let last = verdict_at(specs, values, numbers, n - 1);
        if last is Ok && form_errors(specs, values, numbers, n - 1).len() == 0 {
            assert forall|i: int| 0 <= i < n implies (#[trigger] verdict_at(
                specs,
                values,
                numbers,
                i,
            )) is Ok by {
                if i < n - 1 {
                    assert(verdict_at(specs, values, numbers, i) is Ok);
                }
            }
        }
    }
}

/// A required field is submitted or refused, never left out.
pub proof fn law_required_fields_are_not_left_out(
    spec: ElicitFieldSpec,
    value: ValueView,
    number: Option<Real>,
    formatted: bool,
)
    requires
        spec.required,
    ensures
        field_verdict(spec, value, number, formatted) != Ok::<Option<ContentView>, Seq<char>>(None),
{
}

/// A field that is not required and has no least number of items is left out
/// where nothing was submitted for it; a required one is refused, unless any
/// number of items will do.
pub proof fn law_missing_fields_are_empty(spec: ElicitFieldSpec)
    requires
        !(spec.kind is Unsupported),
        spec.kind is MultiSelect ==> spec.kind->min_items is None,
    ensures
        !spec.required ==> missing_verdict(spec) == Ok::<Option<ContentView>, Seq<char>>(None),
        spec.required && !(spec.kind is MultiSelect) ==> missing_verdict(spec) == Err::<
            Option<ContentView>,
            Seq<char>,
        >("required"@),
{
    reveal_strlit("");
    lemma_trimmed_blank(""@);
}

/// The content of an accepted form holds each required field.
pub proof fn law_accepted_forms_hold_required_fields(
    specs: Seq<ElicitFieldSpec>,
    values: Seq<ElicitFieldValue<'_>>,
    numbers: Seq<Option<Real>>,
    n: int,
    i: int,
)
    requires
        0 <= i < n <= specs.len(),
        specs[i].required,
        form_errors(specs, values, numbers, n).len() == 0,
    ensures
        form_content(specs, values, numbers, n).contains_key(specs[i].name@),
    decreases n,
{
    law_form_is_judged_field_by_field(specs, values, numbers, n);
    assert(verdict_at(specs, values, numbers, n - 1) is Ok);
    if i < n - 1 {
        law_accepted_forms_hold_required_fields(specs, values, numbers, n - 1, i);
    } else {
        let value = if i < values.len() {
            values[i]@
        } else {
            empty_value(specs[i].kind)
        };
        let number = if i < values.len() {
            number_at(numbers, i)
        } else {
            None
        };
        law_required_fields_are_not_left_out(
            specs[i],
            value,
            number,
            i >= values.len() || draft_formatted(specs[i], value),
        );
    }
}

/// The content of a form holds no field that the form does not have.
pub proof fn law_content_has_only_fields_of_the_form(
    specs: Seq<ElicitFieldSpec>,
    values: Seq<ElicitFieldValue<'_>>,
    numbers: Seq<Option<Real>>,
    n: int,
    name: Seq<char>,
)
    requires
        0 <= n <= specs.len(),
        form_content(specs, values, numbers, n).contains_key(name),
    ensures
        exists|i: int| 0 <= i < n && (#[trigger] specs[i]).name@ == name,
    decreases n,
{
    if n > 0 {
        if specs[n - 1].name@ != name {
            law_content_has_only_fields_of_the_form(specs, values, numbers, n - 1, name);
        }
    }
}

/// A text is submitted verbatim, and only within its bounds and in its format.
pub proof fn law_texts_are_submitted_verbatim(
    spec: ElicitFieldSpec,
    draft: Seq<char>,
    number: Option<Real>,
    formatted: bool,
    content: ContentView,
)
    requires
        spec.kind is String,
        field_verdict(spec, ValueView::Draft(draft), number, formatted) == Ok::<
            Option<ContentView>,
            Seq<char>,
        >(Some(content)),
    ensures
        content == ContentView::Text(draft),
        draft.len() > 0,
        spec.kind->min_length is Some ==> draft.len() >= spec.kind->min_length->0,
        spec.kind->max_length is Some ==> draft.len() <= spec.kind->max_length->0,
        spec.kind->format is Some ==> formatted,
{
}

/// What is selected is among the options, however it was chosen.
pub proof fn law_selections_are_options(options: Seq<ElicitOption>, chosen: Seq<usize>, i: int)
    requires
        0 <= i < picked(options, chosen).len(),
    ensures
        exists|k: int| 0 <= k < options.len() && (#[trigger] options[k]).value@ == picked(
            options,
            chosen,
        )[i],
    decreases chosen.len(),
{
    let before = picked(options, chosen.drop_last());
    if i < before.len() {
        law_selections_are_options(options, chosen.drop_last(), i);
    } else {
        assert(options[chosen.last() as int].value@ == picked(options, chosen)[i]);
    }
}

/// The option that is chosen is the one that is submitted: the text of a field with
/// options is the value of the option at the chosen index. Without a choice among the
/// options the field is left out, unless it is required.
pub proof fn law_the_chosen_option_is_submitted(
    spec: ElicitFieldSpec,
    choice: Option<usize>,
    number: Option<Real>,
    formatted: bool,
)
    requires
        spec.kind is SingleSelect,
    ensures
        ({
            let options = spec.kind->SingleSelect_options@;
            let r = field_verdict(spec, ValueView::Choice(choice), number, formatted);
            &&& choice matches Some(k) ==> (k < options.len() ==> r == Ok::<
                Option<ContentView>,
                Seq<char>,
            >(Some(ContentView::Text(options[k as int].value@))))
            &&& choice is None || choice->0 >= options.len() ==> (if spec.required {
                r is Err
            } else {
                r == Ok::<Option<ContentView>, Seq<char>>(None)
            })
        }),
{
}

/// The options that are chosen are submitted in the order of the choice, each with its
/// own value; an index beyond the options counts for nothing.
pub proof fn law_the_chosen_options_are_submitted(
    options: Seq<ElicitOption>,
    chosen: Seq<usize>,
)
    ensures
        picked(options, chosen) == chosen.filter(|k: usize| k < options.len()).map_values(
            |k: usize| options[k as int].value@,
        ),
        (forall|i: int| 0 <= i < chosen.len() ==> (#[trigger] chosen[i]) < options.len()) ==> picked(
            options,
            chosen,
        ).len() == chosen.len() && forall|i: int|
            0 <= i < chosen.len() ==> #[trigger] picked(options, chosen)[i]
                == options[chosen[i] as int].value@,
    decreases chosen.len(),
{
    reveal(Seq::filter);
    if chosen.len() > 0 {
        let t = chosen.drop_last();
        law_the_chosen_options_are_submitted(options, t);
        if forall|i: int| 0 <= i < chosen.len() ==> (#[trigger] chosen[i]) < options.len() {
            assert forall|i: int| 0 <= i < t.len() implies (#[trigger] t[i]) < options.len() by {
                assert(chosen[i] == t[i]);
            }
            assert forall|i: int| 0 <= i < chosen.len() implies #[trigger] picked(options, chosen)[i]
                == options[chosen[i] as int].value@ by {
                if i < t.len() {
                    assert(picked(options, t)[i] == options[t[i] as int].value@);
                }
            }
        }
    }
    assert(picked(options, chosen) =~= chosen.filter(|k: usize| k < options.len()).map_values(
        |k: usize| options[k as int].value@,
    ));
}

/// How many options may be chosen: a selection is accepted exactly within its bounds,
/// and is then submitted whole, or left out where it is empty and not required.
pub proof fn law_selections_keep_to_their_bounds(
    required: bool,
    values: Seq<Seq<char>>,
    min_items: Option<u64>,
    max_items: Option<u64>,
)
    ensures
        multi_verdict(required, values, min_items, max_items) is Ok <==> (min_items is None
            || values.len() >= min_items->0) && (max_items is None || values.len()
            <= max_items->0),
        multi_verdict(required, values, min_items, max_items) matches Ok(c) ==> {
            &&& c is None <==> values.len() == 0 && !required
            &&& c matches Some(content) ==> content == ContentView::List(values)
        },
{
}

/// A switch is submitted as it stands.
pub proof fn law_switches_are_submitted(
    spec: ElicitFieldSpec,
    on: bool,
    number: Option<Real>,
    formatted: bool,
)
    requires
        spec.kind is Boolean,
    ensures
        field_verdict(spec, ValueView::Bool(on), number, formatted) == Ok::<
            Option<ContentView>,
            Seq<char>,
        >(Some(ContentView::Bool(on))),
{
}

/// A draft is accepted as an integer exactly where it reads as one that fits and lies
/// within the bounds, and that integer is submitted; an empty draft is left out unless
/// it is required.
pub proof fn law_integers_are_read_from_the_draft(
    required: bool,
    draft: Seq<char>,
    minimum: Option<i64>,
    maximum: Option<i64>,
)
    ensures
        ({
            let r = integer_verdict(required, draft, minimum, maximum);
            let n = signed_value(trimmed(draft));
            &&& trimmed(draft).len() > 0 ==> (r is Ok <==> n is Some && i64::MIN <= n->0 <= i64::MAX
                && (minimum is None || minimum->0 <= n->0) && (maximum is None || n->0
                <= maximum->0))
            &&& trimmed(draft).len() > 0 && r is Ok ==> r == Ok::<Option<ContentView>, Seq<char>>(
                Some(ContentView::Integer(n->0)),
            )
            &&& trimmed(draft).len() == 0 ==> (required <==> r is Err) && (!required ==> r == Ok::<
                Option<ContentView>,
                Seq<char>,
            >(None))
        }),
{
}

/// A draft is accepted as a number exactly where it reads as a finite one that is
/// neither below the minimum nor above the maximum.
pub proof fn law_numbers_are_read_from_the_draft(
    required: bool,
    draft: Seq<char>,
    number: Option<Real>,
    minimum: Option<Real>,
    maximum: Option<Real>,
)
    requires
        trimmed(draft).len() > 0,
    ensures
        ({
            let r = number_verdict(required, draft, number, minimum, maximum);
            let low = minimum is Some && number is Some && !minimum->0.nan && !number->0.nan
                && number->0.rank < minimum->0.rank;
            let high = maximum is Some && number is Some && !maximum->0.nan && !number->0.nan
                && maximum->0.rank < number->0.rank;
            &&& r is Ok <==> number is Some && number->0.finite && !low && !high
            &&& r is Ok ==> r == Ok::<Option<ContentView>, Seq<char>>(
                Some(ContentView::Number(number->0.text@)),
            )
        }),
{
}

/// A draft is accepted as a text exactly where it is not empty, keeps to its length and
/// has its format; an empty one is left out unless it is required.
pub proof fn law_texts_are_accepted_within_their_length(
    required: bool,
    draft: Seq<char>,
    format: Option<ElicitTextFormat>,
    min_length: Option<u64>,
    max_length: Option<u64>,
    formatted: bool,
)
    ensures
        ({
            let r = string_verdict(required, draft, format, min_length, max_length, formatted);
            &&& draft.len() > 0 ==> (r is Ok <==> (min_length is None || min_length->0
                <= draft.len()) && (max_length is None || draft.len() <= max_length->0) && (format
                is None || formatted))
            &&& draft.len() > 0 && r is Ok ==> r == Ok::<Option<ContentView>, Seq<char>>(
                Some(ContentView::Text(draft)),
            )
            &&& draft.len() == 0 ==> (required <==> r is Err) && (!required ==> r == Ok::<
                Option<ContentView>,
                Seq<char>,
            >(None))
        }),
{
}

/// A value of the wrong sort for its field is refused, and so is a field that there is
/// no way to fill where it is required.
pub proof fn law_values_fit_their_field(
    spec: ElicitFieldSpec,
    value: ValueView,
    number: Option<Real>,
    formatted: bool,
)
    ensures
        spec.kind is Boolean && !(value is Bool) ==> field_verdict(spec, value, number, formatted)
            is Err,
        spec.kind is SingleSelect && !(value is Choice) ==> field_verdict(
            spec,
            value,
            number,
            formatted,
        ) is Err,
        spec.kind is MultiSelect && !(value is MultiChoice) ==> field_verdict(
            spec,
            value,
            number,
            formatted,
        ) is Err,
        (spec.kind is String || spec.kind is Integer || spec.kind is Number) && !(value is Draft)
            ==> field_verdict(spec, value, number, formatted) is Err,
        spec.kind is Unsupported ==> (spec.required <==> field_verdict(
            spec,
            value,
            number,
            formatted,
        ) is Err),
        spec.kind matches ElicitFieldKind::String { format, min_length, max_length } ==> (value
            is Draft ==> field_verdict(spec, value, number, formatted) == string_verdict(
            spec.required,
            value->Draft_0,
            format,
            min_length,
            max_length,
            formatted,
        )),
        spec.kind matches ElicitFieldKind::Integer { minimum, maximum } ==> (value is Draft
            ==> field_verdict(spec, value, number, formatted) == integer_verdict(
            spec.required,
            value->Draft_0,
            minimum,
            maximum,
        )),
        spec.kind matches ElicitFieldKind::Number { minimum, maximum } ==> (value is Draft
            ==> field_verdict(spec, value, number, formatted) == number_verdict(
            spec.required,
            value->Draft_0,
            number,
            minimum,
            maximum,
        )),
        spec.kind matches ElicitFieldKind::MultiSelect { options, min_items, max_items } ==> (value
            is MultiChoice ==> field_verdict(spec, value, number, formatted) == multi_verdict(
            spec.required,
            picked(options@, value->MultiChoice_0),
            min_items,
            max_items,
        )),
{
}

/// Every field that fails is named with its reason, in the order of the form, and no
/// other.
pub proof fn law_failing_fields_are_named(
    specs: Seq<ElicitFieldSpec>,
    values: Seq<ElicitFieldValue<'_>>,
    numbers: Seq<Option<Real>>,
    n: int,
)
    requires
        0 <= n <= specs.len(),
    ensures
        forall|i: int|
            0 <= i < n ==> ((#[trigger] verdict_at(specs, values, numbers, i)) matches Err(m)
                ==> form_errors(specs, values, numbers, n).contains((specs[i].name@, m))),
        forall|e: (Seq<char>, Seq<char>)| #[trigger]
            form_errors(specs, values, numbers, n).contains(e) ==> exists|i: int|
                0 <= i < n && specs[i].name@ == e.0 && (#[trigger] verdict_at(
                    specs,
                    values,
                    numbers,
                    i,
                )) == Err::<Option<ContentView>, Seq<char>>(e.1),
    decreases n,
{
    if n > 0 {
        law_failing_fields_are_named(specs, values, numbers, n - 1);
        let before = form_errors(specs, values, numbers, n - 1);
        let after = form_errors(specs, values, numbers, n);
        assert forall|i: int| 0 <= i < n implies ((#[trigger] verdict_at(
            specs,
            values,
            numbers,
            i,
        )) matches Err(m) ==> after.contains((specs[i].name@, m))) by {
            if let Err(m) = verdict_at(specs, values, numbers, i) {
                if i < n - 1 {
                    let k = choose|k: int|
                        0 <= k < before.len() && before[k] == (specs[i].name@, m);
                    assert(after[k] == (specs[i].name@, m));
                } else {
                    assert(after[before.len() as int] == (specs[i].name@, m));
                }
            }
        }
        assert forall|e: (Seq<char>, Seq<char>)| #[trigger] after.contains(e) implies exists|
            i: int,
        |
            0 <= i < n && specs[i].name@ == e.0 && (#[trigger] verdict_at(
                specs,
                values,
                numbers,
                i,
            )) == Err::<Option<ContentView>, Seq<char>>(e.1) by {
            let k = choose|k: int| 0 <= k < after.len() && after[k] == e;
            if k < before.len() {
                assert(before[k] == e);
                assert(before.contains(e));
            } else {
                assert(verdict_at(specs, values, numbers, n - 1) is Err);
            }
        }
    }
}

/// The content of a field is what its own verdict gives, where names differ: a field
/// that is left out is not there, and no field gets the content of another.
pub proof fn law_content_is_that_of_the_field(
    specs: Seq<ElicitFieldSpec>,
    values: Seq<ElicitFieldValue<'_>>,
    numbers: Seq<Option<Real>>,
    n: int,
    i: int,
)
    requires
        0 <= i < n <= specs.len(),
        forall|a: int, b: int|
            0 <= a < b < specs.len() ==> (#[trigger] specs[a]).name@ != (#[trigger] specs[b]).name@,
    ensures
        verdict_at(specs, values, numbers, i) matches Ok(Some(c)) ==> form_content(
            specs,
            values,
            numbers,
            n,
        ).contains_pair(specs[i].name@, c),
        verdict_at(specs, values, numbers, i) is Ok && verdict_at(
            specs,
            values,
            numbers,
            i,
        )->Ok_0 is None ==> !form_content(specs, values, numbers, n).contains_key(specs[i].name@),
    decreases n,
{
    if i < n - 1 {
        law_content_is_that_of_the_field(specs, values, numbers, n - 1, i);
        assert(specs[i].name@ != specs[n - 1].name@);
    } else {
        let before = form_content(specs, values, numbers, n - 1);
        if before.contains_key(specs[i].name@) {
            law_content_has_only_fields_of_the_form(
                specs,
                values,
                numbers,
                n - 1,
                specs[i].name@,
            );
            let k = choose|k: int| 0 <= k < n - 1 && (#[trigger] specs[k]).name@ == specs[i].name@;
            assert(specs[k].name@ != specs[i].name@);
        }
    }
}

/// A plausible address has a name of at most 64 characters without white space, an at
/// sign, and a domain behind it.
pub proof fn law_addresses_have_a_name_and_a_domain(s: Seq<char>)
    requires
        plausible_email(s),
    ensures
        exists|k: int|
            {
                &&& 0 < k <= 64
                &&& k < s.len()
                &&& #[trigger] s[k] == '@'
                &&& forall|i: int| 0 <= i < k ==> (#[trigger] s[i]) != '@' && !is_white(s[i])
            },
        ({
            let labels = split(s.skip(until(s, '@') as int + 1), '.');
            &&& labels.len() >= 2
            &&& forall|i: int|
                0 <= i < labels.len() ==> 0 < (#[trigger] labels[i]).len() && labels[i][0] != '-'
                    && labels[i].last() != '-'
        }),
{
    lemma_until(s, '@');
    let k = until(s, '@') as int;
    assert(s[k] == '@');
    assert forall|i: int| 0 <= i < k implies (#[trigger] s[i]) != '@' && !is_white(s[i]) by {
        assert(s.take(k)[i] == s[i]);
    }
    let labels = split(s.skip(k + 1), '.');
    assert forall|i: int| 0 <= i < labels.len() implies 0 < (#[trigger] labels[i]).len()
        && labels[i][0] != '-' && labels[i].last() != '-' by {
        assert(host_label(labels[i]));
    }
}

/// A text is judged by the rule of its own format, and a text that fails is told how to
/// write one.
pub proof fn law_texts_are_judged_by_their_format(
    format: ElicitTextFormat,
    s: &str,
    r: Option<String>,
)
    requires
        call_ensures(validate_text_format, (format, s), r),
    ensures
        format is Email ==> (r is None <==> plausible_email(s@)),
        format is Uri ==> (r is None <==> uri_accepted(s@)),
        format is Date ==> (r is None <==> byte_len(s@) == 10 && date_accepted(s@, "%Y-%m-%d"@)),
        format is DateTime ==> (r is None <==> date_time_accepted(s@)),
        format is Email ==> (r matches Some(e) ==> e@ == "invalid email"@),
        format is Uri ==> (r matches Some(e) ==> e@ == "invalid URI"@),
        format is Date ==> (r matches Some(e) ==> e@ == "use YYYY-MM-DD"@),
        format is DateTime ==> (r matches Some(e) ==> e@ == "use RFC 3339 date-time"@),
{
}

} // verus!

//! Conditional processing attributes: `requiredExtensions`,
//! `requiredFeatures`, `systemLanguage`.

use vstd::prelude::*;
use std::str::FromStr;
use language_tags::LanguageTag;
use locale_config::Locale;
use crate::error::{ValueErrorKind, ValueErrorText};
use crate::strings::{
    is_listed, listed, pieces, split, split_whitespace, texts, trim, trimmed, words,
};

verus! {

/// The extensions that are implemented: none at the moment.
pub const IMPLEMENTED_EXTENSIONS: [&'static str; 0] = [];

/// The feature strings that are implemented, in alphabetical order.
pub const IMPLEMENTED_FEATURES: [&'static str; 21] = [
    "http://www.w3.org/TR/SVG11/feature#BasicFilter",
    "http://www.w3.org/TR/SVG11/feature#BasicGraphicsAttribute",
    "http://www.w3.org/TR/SVG11/feature#BasicPaintAttribute",
    "http://www.w3.org/TR/SVG11/feature#BasicStructure",
    "http://www.w3.org/TR/SVG11/feature#BasicText",
    "http://www.w3.org/TR/SVG11/feature#ConditionalProcessing",
    "http://www.w3.org/TR/SVG11/feature#ContainerAttribute",
    "http://www.w3.org/TR/SVG11/feature#Filter",
    "http://www.w3.org/TR/SVG11/feature#Gradient",
    "http://www.w3.org/TR/SVG11/feature#Image",
    "http://www.w3.org/TR/SVG11/feature#Marker",
    "http://www.w3.org/TR/SVG11/feature#Mask",
    "http://www.w3.org/TR/SVG11/feature#OpacityAttribute",
    "http://www.w3.org/TR/SVG11/feature#Pattern",
    "http://www.w3.org/TR/SVG11/feature#SVG",
    "http://www.w3.org/TR/SVG11/feature#SVG-static",
    "http://www.w3.org/TR/SVG11/feature#Shape",
    "http://www.w3.org/TR/SVG11/feature#Structure",
    "http://www.w3.org/TR/SVG11/feature#Style",
    "http://www.w3.org/TR/SVG11/feature#View",
    "org.w3c.svg.static",
];

/// Every word of `s` is one of the entries of `table`.
pub open spec fn all_words_listed(table: Seq<&'static str>, s: Seq<char>) -> bool {
    forall|k: int|
        0 <= k < split_whitespace(s).len() ==> listed(table, #[trigger] split_whitespace(s)[k])
}

/// Whether every word of `s` is one of the entries of `table`.
fn are_all_words_listed(table: &[&'static str], s: &str) -> (r: bool)
    ensures
        r == all_words_listed(table@, s@),
{
    let tokens = words(s);
    let mut i: usize = 0;
    while i < tokens.len()
        invariant
            i <= tokens@.len(),
            texts(tokens@) == split_whitespace(s@),
            forall|k: int| 0 <= k < i ==> listed(table@, #[trigger] split_whitespace(s@)[k]),
        decreases tokens@.len() - i,
    {
        assert(texts(tokens@)[i as int] == tokens@[i as int]@);
        if !is_listed(table, tokens[i].as_str()) {
            return false;
        }
        i = i + 1;
    }
    true
}

/// The verdict of a `requiredExtensions` attribute.
#[derive(Debug, PartialEq, Eq, Structural)]
pub struct RequiredExtensions(pub bool);

impl RequiredExtensions {
    /// Reads a `requiredExtensions` attribute: the verdict is true exactly
    /// when each of its words names an implemented extension.
    pub fn from_attribute(s: &str) -> (r: Result<RequiredExtensions, ValueErrorKind>)
        ensures
            r matches Ok(v) && v.0 == all_words_listed(IMPLEMENTED_EXTENSIONS@, s@),
    {
        Ok(RequiredExtensions(are_all_words_listed(IMPLEMENTED_EXTENSIONS.as_slice(), s)))
    }

    /// The verdict, for conditional processing.
    pub fn eval(&self) -> (r: bool)
        ensures
            r == self.0,
    {
        self.0
    }
}

/// The verdict of a `requiredFeatures` attribute.
#[derive(Debug, PartialEq, Eq, Structural)]
pub struct RequiredFeatures(pub bool);

impl RequiredFeatures {
    /// Reads a `requiredFeatures` attribute: the verdict is true exactly when
    /// each of its words is an implemented feature string.
    pub fn from_attribute(s: &str) -> (r: Result<RequiredFeatures, ValueErrorKind>)
        ensures
            r matches Ok(v) && v.0 == all_words_listed(IMPLEMENTED_FEATURES@, s@),
    {
        Ok(RequiredFeatures(are_all_words_listed(IMPLEMENTED_FEATURES.as_slice(), s)))
    }

    /// The verdict, for conditional processing.
    pub fn eval(&self) -> (r: bool)
        ensures
            r == self.0,
    {
        self.0
    }
}

#[verifier::external_type_specification]
#[verifier::external_body]
pub struct ExLocale(Locale);

/// The language ranges that `Locale::tags_for` yields for a category, in the
/// order in which it yields them.
pub uninterp spec fn locale_ranges(locale: Locale, category: Seq<char>) -> Seq<Seq<char>>;

/// What `LanguageTag::from_str` has against a text: nothing where it accepts
/// the text as a language tag, the description of its error where it does
/// not.
pub uninterp spec fn language_tag_error(s: Seq<char>) -> Option<Seq<char>>;

/// What `LanguageTag::is_language_range` says of the tag that a text stands
/// for.
pub uninterp spec fn language_tag_is_range(s: Seq<char>) -> bool;

/// What `LanguageTag::matches` says of the range and the tag that two texts
/// stand for.
pub uninterp spec fn language_range_matches(range: Seq<char>, tag: Seq<char>) -> bool;

/// The views of an optional string and of an optional text agree.
pub open spec fn option_text(o: Option<String>) -> Option<Seq<char>> {
    match o {
        Some(s) => Some(s@),
        None => None,
    }
}

/// Calls `Locale::tags_for` and collects the text of each `LanguageRange`
/// that it yields. The contract only gives that list its name.
#[verifier::external_body]
fn ranges_for(locale: &Locale, category: &str) -> (r: Vec<String>)
    ensures
        texts(r@) == locale_ranges(*locale, category@),
{
    locale.tags_for(category).map(|range| range.as_ref().to_owned()).collect()
}

/// Calls `LanguageTag::from_str` and hands back the description of the error,
/// if there is one. The contract only gives the outcome its name.
#[verifier::external_body]
fn tag_error(s: &str) -> (r: Option<String>)
    ensures
        option_text(r) == language_tag_error(s@),
{
    match LanguageTag::from_str(s) {
        Ok(_) => None,
        Err(e) => Some(e.to_string()),
    }
}

/// Calls `LanguageTag::is_language_range` on the tag that `s` stands for,
/// which `LanguageTag::from_str` makes of it. The contract only gives the
/// answer its name.
#[verifier::external_body]
fn tag_is_range(s: &str) -> (r: bool)
    requires
        language_tag_error(s@) is None,
    ensures
        r == language_tag_is_range(s@),
{
    match LanguageTag::from_str(s) {
        Ok(tag) => tag.is_language_range(),
        Err(_) => false,
    }
}

/// Calls `LanguageTag::matches` on the range and the tag that the two texts
/// stand for, which `LanguageTag::from_str` makes of them. That method panics
/// on a range with extensions or private use subtags, which `requires` leaves
/// out. The contract only gives the answer its name.
#[verifier::external_body]
fn range_matches(range: &str, tag: &str) -> (r: bool)
    requires
        language_tag_error(range@) is None,
        language_tag_is_range(range@),
        language_tag_error(tag@) is None,
    ensures
        r == language_range_matches(range@, tag@),
{
    match (LanguageTag::from_str(range), LanguageTag::from_str(tag)) {
        (Ok(range), Ok(tag)) => range.matches(&tag),
        _ => false,
    }
}

/// What is known of one language range of a locale.
#[derive(Debug, Clone, PartialEq, Eq)]
pub struct RangeReport {
    /// The text of the range.
    pub text: String,
    /// Why the text is no language tag, if it is none.
    pub error: Option<String>,
    /// Whether the tag is a language range: one without extensions and
    /// private use subtags.
    pub is_range: bool,
}

/// A `RangeReport` with its texts as sequences of characters.
pub struct RangeReportText {
    pub text: Seq<char>,
    pub error: Option<Seq<char>>,
    pub is_range: bool,
}

impl View for RangeReport {
    type V = RangeReportText;

    open spec fn view(&self) -> RangeReportText {
        RangeReportText {
            text: self.text@,
            error: option_text(self.error),
            is_range: self.is_range,
        }
    }
}

/// The views of the reports of `v`, in order.
pub open spec fn report_texts(v: Seq<RangeReport>) -> Seq<RangeReportText> {
    Seq::new(v.len(), |i: int| v[i]@)
}

/// A range is rejected where it is not empty and is no language tag, or a
/// tag that is no language range. The empty range stands for the invariant
/// locale and is passed over.
pub open spec fn is_rejected(report: RangeReportText) -> bool {
    report.text.len() > 0 && (report.error is Some || !report.is_range)
}

/// The index of the first rejected report at or after `i`, or the number of
/// reports if there is none.
pub open spec fn first_rejected(reports: Seq<RangeReportText>, i: int) -> int
    decreases reports.len() - i,
{
    if 0 <= i < reports.len() && !is_rejected(reports[i]) {
        first_rejected(reports, i + 1)
    } else {
        i
    }
}

/// Why a rejected range is rejected.
pub open spec fn rejection_message(report: RangeReportText) -> Seq<char> {
    match report.error {
        Some(e) => "invalid language tag \""@ + report.text + "\" in locale: "@ + e,
        None => "language tag \""@ + report.text + "\" is not a language range"@,
    }
}

/// The texts of the first `n` reports that are not empty.
pub open spec fn kept_ranges(reports: Seq<RangeReportText>, n: int) -> Seq<Seq<char>>
    decreases n,
{
    if n <= 0 || n > reports.len() {
        seq![]
    } else if reports[n - 1].text.len() == 0 {
        kept_ranges(reports, n - 1)
    } else {
        kept_ranges(reports, n - 1).push(reports[n - 1].text)
    }
}

/// The language tags of a locale: an error for the first rejected range, or
/// else the ranges that are not empty, in order.
pub open spec fn accepted_ranges(reports: Seq<RangeReportText>) -> Result<
    Seq<Seq<char>>,
    Seq<char>,
> {
    let k = first_rejected(reports, 0);
    if 0 <= k < reports.len() {
        Err(rejection_message(reports[k]))
    } else {
        Ok(kept_ranges(reports, reports.len() as int))
    }
}

/// What the outside crates report of each range of `ranges`.
pub open spec fn reports_of(ranges: Seq<Seq<char>>) -> Seq<RangeReportText> {
    Seq::new(
        ranges.len(),
        |i: int|
            RangeReportText {
                text: ranges[i],
                error: language_tag_error(ranges[i]),
                is_range: language_tag_error(ranges[i]) is None && language_tag_is_range(
                    ranges[i],
                ),
            },
    )
}

/// The language tags that a locale accepts for messages, or why it yields
/// none.
pub open spec fn locale_language_tags(locale: Locale) -> Result<Seq<Seq<char>>, Seq<char>> {
    accepted_ranges(reports_of(locale_ranges(locale, "messages"@)))
}

/// Some range of `tags` matches `tag`.
pub open spec fn any_range_matches(tags: Seq<Seq<char>>, tag: Seq<char>) -> bool {
    exists|j: int| 0 <= j < tags.len() && language_range_matches(#[trigger] tags[j], tag)
}

/// The search for the first rejected report stops within the reports, passes
/// over reports that are not rejected, and stops at one that is.
pub proof fn lemma_first_rejected_bounds(reports: Seq<RangeReportText>, i: int)
    requires
        0 <= i <= reports.len(),
    ensures
        i <= first_rejected(reports, i) <= reports.len(),
        forall|k: int| i <= k < first_rejected(reports, i) ==> !is_rejected(reports[k]),
        first_rejected(reports, i) < reports.len() ==> is_rejected(
            reports[first_rejected(reports, i)],
        ),
    decreases reports.len() - i,
{
    if i < reports.len() && !is_rejected(reports[i]) {
        lemma_first_rejected_bounds(reports, i + 1);
    }
}

/// Each kept range is the text, not empty, of one of the first `n` reports.
pub proof fn lemma_kept_ranges_come_from_reports(reports: Seq<RangeReportText>, n: int)
    requires
        0 <= n <= reports.len(),
    ensures
        forall|j: int|
            0 <= j < kept_ranges(reports, n).len() ==> exists|i: int|
                0 <= i < n && reports[i].text.len() > 0 && reports[i].text == #[trigger] kept_ranges(
                    reports,
                    n,
                )[j],
    decreases n,
{
    if n > 0 {
        lemma_kept_ranges_come_from_reports(reports, n - 1);
        let kept = kept_ranges(reports, n);
        assert forall|j: int| 0 <= j < kept.len() implies exists|i: int|
            0 <= i < n && reports[i].text.len() > 0 && reports[i].text == #[trigger] kept[j] by {
            if j < kept_ranges(reports, n - 1).len() {
                let i = choose|i: int|
                    0 <= i < n - 1 && reports[i].text.len() > 0 && reports[i].text == kept_ranges(
                        reports,
                        n - 1,
                    )[j];
                assert(reports[i].text == kept[j]);
            } else {
                assert(reports[n - 1].text == kept[j]);
            }
        }
    }
}

/// The search for the first text that is no language tag stops within the
/// checks, passes over tags, and stops at a text that is none.
pub proof fn lemma_first_invalid_bounds(checks: Seq<TagCheckText>, i: int)
    requires
        0 <= i <= checks.len(),
    ensures
        i <= first_invalid(checks, i) <= checks.len(),
        forall|k: int| i <= k < first_invalid(checks, i) ==> checks[k].error is None,
        first_invalid(checks, i) < checks.len() ==> checks[first_invalid(checks, i)].error is Some,
    decreases checks.len() - i,
{
    if i < checks.len() && checks[i].error is None {
        lemma_first_invalid_bounds(checks, i + 1);
    }
}

/// A list of BCP 47 language tags, each of them a language range.
pub struct LanguageTags(Vec<String>);

impl View for LanguageTags {
    type V = Seq<Seq<char>>;

    closed spec fn view(&self) -> Seq<Seq<char>> {
        texts(self.0@)
    }
}

impl LanguageTags {
    #[verifier::type_invariant]
    spec fn well_formed(self) -> bool {
        forall|i: int|
            0 <= i < self.0@.len() ==> language_tag_error((#[trigger] self.0@[i])@) is None
                && language_tag_is_range(self.0@[i]@)
    }

    /// Goes through the reports of a locale's ranges in order: the first
    /// rejected range is an error; otherwise the ranges that are not empty
    /// are handed back.
    pub fn accepted(reports: &Vec<RangeReport>) -> (r: Result<Vec<String>, String>)
        ensures
            match r {
                Ok(tags) => accepted_ranges(report_texts(reports@)) == Ok::<
                    Seq<Seq<char>>,
                    Seq<char>,
                >(texts(tags@)),
                Err(e) => accepted_ranges(report_texts(reports@)) == Err::<
                    Seq<Seq<char>>,
                    Seq<char>,
                >(e@),
            },
    {
        let ghost all = report_texts(reports@);
        let mut tags: Vec<String> = Vec::new();
        let mut i: usize = 0;
        while i < reports.len()
            invariant
                i <= reports@.len(),
                all == report_texts(reports@),
                first_rejected(all, i as int) == first_rejected(all, 0),
                texts(tags@) == kept_ranges(all, i as int),
            decreases reports@.len() - i,
        {
            let report = &reports[i];
            assert(all[i as int] == report@);
            if report.text.as_str().unicode_len() > 0 {
                match &report.error {
                    Some(e) => {
                        let mut m = "invalid language tag \"".to_owned();
                        m.append(report.text.as_str());
                        m.append("\" in locale: ");
                        m.append(e.as_str());
                        return Err(m);
                    },
                    None => {
                        if !report.is_range {
                            let mut m = "language tag \"".to_owned();
                            m.append(report.text.as_str());
                            m.append("\" is not a language range");
                            return Err(m);
                        }
                    },
                }
                let ghost before = tags@;
                tags.push(report.text.clone());
                assert(texts(tags@) == texts(before).push(report.text@));
            }
            i = i + 1;
        }
        Ok(tags)
    }

    /// Converts a `Locale` to the list of its language tags for messages.
    pub fn from_locale(locale: &Locale) -> (r: Result<LanguageTags, String>)
        ensures
            match r {
                Ok(tags) => locale_language_tags(*locale) == Ok::<Seq<Seq<char>>, Seq<char>>(
                    tags@,
                ),
                Err(e) => locale_language_tags(*locale) == Err::<Seq<Seq<char>>, Seq<char>>(e@),
            },
    {
        let ranges = ranges_for(locale, "messages");
        let mut reports: Vec<RangeReport> = Vec::new();
        let mut i: usize = 0;
        while i < ranges.len()
            invariant
                i <= ranges@.len(),
                reports@.len() == i,
                forall|k: int|
                    0 <= k < i ==> (#[trigger] reports@[k])@ == reports_of(texts(ranges@))[k],
            decreases ranges@.len() - i,
        {
            let text = ranges[i].clone();
            let error = tag_error(text.as_str());
            let is_range = match &error {
                Some(_) => false,
                None => tag_is_range(text.as_str()),
            };
            reports.push(RangeReport { text, error, is_range });
            i = i + 1;
        }
        assert(report_texts(reports@) == reports_of(texts(ranges@)));
        match LanguageTags::accepted(&reports) {
            Ok(tags) => {
                proof {
                    let all = report_texts(reports@);
                    lemma_first_rejected_bounds(all, 0);
                    lemma_kept_ranges_come_from_reports(all, all.len() as int);
                    assert forall|j: int| 0 <= j < tags@.len() implies language_tag_error(
                        (#[trigger] tags@[j])@,
                    ) is None && language_tag_is_range(tags@[j]@) by {
                        assert(texts(tags@)[j] == tags@[j]@);
                        let k = choose|k: int|
                            0 <= k < all.len() && all[k].text.len() > 0 && all[k].text == kept_ranges(
                                all,
                                all.len() as int,
                            )[j];
                        assert(!is_rejected(all[k]));
                    }
                }
                Ok(LanguageTags(tags))
            },
            Err(e) => Err(e),
        }
    }

    /// Whether some range of the list matches `tag`.
    pub(crate) fn any_matches(&self, tag: &str) -> (r: bool)
        requires
            language_tag_error(tag@) is None,
        ensures
            r == any_range_matches(self@, tag@),
    {
        proof {
            use_type_invariant(self);
        }
        let mut i: usize = 0;
        while i < self.0.len()
            invariant
                i <= self.0@.len(),
                language_tag_error(tag@) is None,
                forall|k: int|
                    0 <= k < self.0@.len() ==> language_tag_error((#[trigger] self.0@[k])@) is None
                        && language_tag_is_range(self.0@[k]@),
                forall|k: int|
                    0 <= k < i ==> !language_range_matches(#[trigger] texts(self.0@)[k], tag@),
            decreases self.0@.len() - i,
        {
            if range_matches(self.0[i].as_str(), tag) {
                assert(language_range_matches(texts(self.0@)[i as int], tag@));
                return true;
            }
            i = i + 1;
        }
        false
    }
}

/// What is known of one language tag of a `systemLanguage` attribute.
#[derive(Debug, Clone, PartialEq, Eq)]
pub struct TagCheck {
    /// Why the text is no language tag, if it is none.
    pub error: Option<String>,
    /// Whether one of the locale's language ranges matches the tag.
    pub matches: bool,
}

/// A `TagCheck` with its text as a sequence of characters.
pub struct TagCheckText {
    pub error: Option<Seq<char>>,
    pub matches: bool,
}

impl View for TagCheck {
    type V = TagCheckText;

    open spec fn view(&self) -> TagCheckText {
        TagCheckText { error: option_text(self.error), matches: self.matches }
    }
}

/// The views of the checks of `v`, in order.
pub open spec fn check_texts(v: Seq<TagCheck>) -> Seq<TagCheckText> {
    Seq::new(v.len(), |i: int| v[i]@)
}

/// The index of the first check at or after `i` whose text is no language
/// tag, or the number of checks if there is none.
pub open spec fn first_invalid(checks: Seq<TagCheckText>, i: int) -> int
    decreases checks.len() - i,
{
    if 0 <= i < checks.len() && checks[i].error is None {
        first_invalid(checks, i + 1)
    } else {
        i
    }
}

/// The message for a text that is no language tag, given the parser's own
/// description of what is wrong.
pub open spec fn invalid_tag_message(e: Seq<char>) -> Seq<char> {
    "invalid language tag: \""@ + e + "\""@
}

/// The outcome of a `systemLanguage` attribute, given what is known of each
/// of its tags, in order, and why the locale has no usable list of language
/// tags, if it has none.
///
/// The tags are gone through in order and the first failure is the outcome.
/// A text that is no language tag fails; a tag that has to be held against
/// the locale fails if the locale has no usable list, which the first tag
/// always has to be. Without a failure the outcome is whether any tag is
/// matched.
pub open spec fn system_language_outcome(
    checks: Seq<TagCheckText>,
    locale_error: Option<Seq<char>>,
) -> Result<bool, ValueErrorText> {
    let k = first_invalid(checks, 0);
    if checks.len() > 0 && k == 0 {
        Err(ValueErrorText::Parse(invalid_tag_message(checks[0].error->0)))
    } else if checks.len() > 0 && locale_error is Some {
        Err(ValueErrorText::Value(locale_error->0))
    } else if 0 <= k < checks.len() {
        Err(ValueErrorText::Parse(invalid_tag_message(checks[k].error->0)))
    } else {
        Ok(exists|i: int| 0 <= i < checks.len() && (#[trigger] checks[i]).matches)
    }
}

/// The tags of a `systemLanguage` attribute: the pieces between its commas,
/// each without the white space around it.
pub open spec fn language_tokens(s: Seq<char>) -> Seq<Seq<char>> {
    Seq::new(split(s, ',').len(), |i: int| trim(split(s, ',')[i]))
}

/// What the outside crates report of each tag of `tokens`, held against the
/// language tags of a locale.
pub open spec fn checks_of(
    tokens: Seq<Seq<char>>,
    locale_tags: Result<Seq<Seq<char>>, Seq<char>>,
) -> Seq<TagCheckText> {
    Seq::new(
        tokens.len(),
        |i: int|
            TagCheckText {
                error: language_tag_error(tokens[i]),
                matches: language_tag_error(tokens[i]) is None && (locale_tags matches Ok(tags)
                    && any_range_matches(tags, tokens[i])),
            },
    )
}

/// Why a locale has no usable list of language tags, if it has none.
pub open spec fn locale_error(locale_tags: Result<Seq<Seq<char>>, Seq<char>>) -> Option<
    Seq<char>,
> {
    match locale_tags {
        Ok(_) => None,
        Err(e) => Some(e),
    }
}

/// The verdict of a `systemLanguage` attribute.
#[derive(Debug, PartialEq, Eq, Structural)]
pub struct SystemLanguage(pub bool);

/// The outcome of reading a `systemLanguage` attribute, with its message as
/// a sequence of characters.
pub open spec fn outcome_text(r: Result<SystemLanguage, ValueErrorKind>) -> Result<
    bool,
    ValueErrorText,
> {
    match r {
        Ok(v) => Ok(v.0),
        Err(e) => Err(e@),
    }
}

impl SystemLanguage {
    /// The outcome of a `systemLanguage` attribute, given what is known of
    /// each of its tags in order.
    pub fn from_checks(checks: &Vec<TagCheck>, locale_error: &Option<String>) -> (r: Result<
        SystemLanguage,
        ValueErrorKind,
    >)
        ensures
            outcome_text(r) == system_language_outcome(
                check_texts(checks@),
                option_text(*locale_error),
            ),
    {
        let ghost all = check_texts(checks@);
        let mut matched = false;
        let mut i: usize = 0;
        while i < checks.len()
            invariant
                i <= checks@.len(),
                all == check_texts(checks@),
                first_invalid(all, i as int) == first_invalid(all, 0),
                i > 0 ==> first_invalid(all, 0) > 0,
                i > 0 ==> locale_error is None,
                matched == exists|k: int| 0 <= k < i && (#[trigger] all[k]).matches,
            decreases checks@.len() - i,
        {
            let check = &checks[i];
            assert(all[i as int] == check@);
            proof {
                lemma_first_invalid_bounds(all, i as int);
                lemma_first_invalid_bounds(all, i as int + 1);
            }
            match &check.error {
                Some(e) => {
                    let mut m = "invalid language tag: \"".to_owned();
                    m.append(e.as_str());
                    m.append("\"");
                    return Err(ValueErrorKind::Parse(m));
                },
                None => {},
            }
            if i == 0 {
                match locale_error {
                    Some(m) => {
                        return Err(ValueErrorKind::Value(m.clone()));
                    },
                    None => {},
                }
            }
            if check.matches {
                matched = true;
            }
            i = i + 1;
        }
        Ok(SystemLanguage(matched))
    }

    /// Reads a `systemLanguage` attribute and holds it against a locale.
    ///
    /// The attribute is a list of BCP 47 language tags between commas. The
    /// verdict is true when one of the language ranges that the locale
    /// accepts for messages matches one of the tags.
    pub fn from_attribute(s: &str, locale: &Locale) -> (r: Result<SystemLanguage, ValueErrorKind>)
        ensures
            outcome_text(r) == system_language_outcome(
                checks_of(language_tokens(s@), locale_language_tags(*locale)),
                locale_error(locale_language_tags(*locale)),
            ),
    {
        let parts = pieces(s, ',');
        let tags = LanguageTags::from_locale(locale);
        let ghost tokens = language_tokens(s@);
        let ghost locale_tags = locale_language_tags(*locale);
        let mut checks: Vec<TagCheck> = Vec::new();
        let mut i: usize = 0;
        while i < parts.len()
            invariant
                i <= parts@.len(),
                texts(parts@) == split(s@, ','),
                tokens == language_tokens(s@),
                locale_tags == locale_language_tags(*locale),
                match tags {
                    Ok(t) => locale_tags == Ok::<Seq<Seq<char>>, Seq<char>>(t@),
                    Err(e) => locale_tags == Err::<Seq<Seq<char>>, Seq<char>>(e@),
                },
                checks@.len() == i,
                forall|k: int|
                    0 <= k < i ==> (#[trigger] checks@[k])@ == checks_of(tokens, locale_tags)[k],
            decreases parts@.len() - i,
        {
            assert(texts(parts@)[i as int] == parts@[i as int]@);
            let token = trimmed(parts[i].as_str());
            assert(token@ == tokens[i as int]);
            let error = tag_error(token.as_str());
            let matches = match (&error, &tags) {
                (None, Ok(t)) => t.any_matches(token.as_str()),
                _ => false,
            };
            checks.push(TagCheck { error, matches });
            i = i + 1;
        }
        assert(check_texts(checks@) == checks_of(tokens, locale_tags));
        let locale_error = match tags {
            Ok(_) => None,
            Err(e) => Some(e),
        };
        SystemLanguage::from_checks(&checks, &locale_error)
    }

    /// The verdict, for conditional processing.
    pub fn eval(&self) -> (r: bool)
        ensures
            r == self.0,
    {
        self.0
    }
}

} // verus!

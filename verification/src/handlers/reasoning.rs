//! How the reasoning settings of a request are dealt with: when a body is read for them, and what
//! follows from what their validation and translation gave.
use vstd::prelude::*;
use crate::cache_usage;
use crate::errors::{ErrorView, OnwardsErrorResponse};
use crate::handlers::forwarding;
use crate::json;
use crate::json::{Json, JsonTree};

verus! {

/// What is said when a body that has to be read is not JSON.
pub open spec fn not_json_error() -> ErrorView {
    ErrorView::bad_request("Request body must be valid JSON."@, None)
}

fn not_json() -> (error: OnwardsErrorResponse)
    ensures
        error@ == not_json_error(),
{
    OnwardsErrorResponse::bad_request("Request body must be valid JSON.", None)
}

/// Where the reasoning settings of a request come from.
pub enum ReasoningSource {
    /// They were read before.
    Given,
    /// They are to be read from this document, and validated.
    Validate(Json),
    /// There are none.
    Absent,
}

/// Where the reasoning settings of a request come from.
pub enum SourceView {
    Given,
    Validate(JsonTree),
    Absent,
}

impl View for ReasoningSource {
    type V = SourceView;

    open spec fn view(&self) -> SourceView {
        match self {
            ReasoningSource::Given => SourceView::Given,
            ReasoningSource::Validate(document) => SourceView::Validate(document@),
            ReasoningSource::Absent => SourceView::Absent,
        }
    }
}

/// Where the reasoning settings of a request come from: what was read before counts, and otherwise
/// a body is read where there is one and the path has the reasoning contract.
pub open spec fn reasoning_source(given: bool, has_contract: bool, body: Seq<u8>) -> Result<
    SourceView,
    ErrorView,
> {
    if given {
        Ok(SourceView::Given)
    } else if body.len() > 0 && has_contract {
        match json::parsed_json(body) {
            Some(tree) => Ok(SourceView::Validate(tree)),
            None => Err(not_json_error()),
        }
    } else {
        Ok(SourceView::Absent)
    }
}

/// Finds out where the reasoning settings of a request come from.
pub fn find_reasoning(given: bool, has_contract: bool, body: &[u8]) -> (source: Result<
    ReasoningSource,
    OnwardsErrorResponse,
>)
    ensures
        source_result(source) == reasoning_source(given, has_contract, body@),
{
    if given {
        return Ok(ReasoningSource::Given);
    }
    if body.len() == 0 || !has_contract {
        return Ok(ReasoningSource::Absent);
    }
    match Json::parse(body) {
        Some(document) => Ok(ReasoningSource::Validate(document)),
        None => Err(not_json()),
    }
}

/// The first error, of those that the providers of a pool raise, in order.
pub open spec fn first_objection(objections: Seq<Option<OnwardsErrorResponse>>) -> Option<ErrorView>
    decreases objections.len(),
{
    if objections.len() == 0 {
        None
    } else {
        match objections.first() {
            Some(error) => Some(error@),
            None => first_objection(objections.drop_first()),
        }
    }
}

/// Whether a request with reasoning settings can go to a pool, from what the translation of each
/// provider says of them: the first objection is what the client is told. A provider without a
/// translation has no objection.
pub fn judge_translations(objections: Vec<Option<OnwardsErrorResponse>>) -> (verdict: Result<
    (),
    OnwardsErrorResponse,
>)
    ensures
        match verdict {
            Ok(_) => first_objection(objections@) is None,
            Err(e) => first_objection(objections@) == Some(e@),
        },
{
    let ghost all = objections@;
    assert(all.skip(0) =~= all);
    for objection in it: objections.into_iter()
        invariant
            it.seq() == all,
            first_objection(all) == first_objection(all.skip(it.index() as int)),
    {
        let ghost i = it.index() as int;
        assert(all.skip(i).first() == objection);
        assert(all.skip(i).drop_first() =~= all.skip(i + 1));
        if let Some(error) = objection {
            return Err(error);
        }
    }
    assert(all.skip(all.len() as int).len() == 0);
    Ok(())
}

/// Whether a request has reasoning settings, or what the client is told: `validated` is what the
/// validation of a document found, where one is to be validated, and `objections` what the
/// translations of the providers say of the settings, where there are any.
pub open spec fn reasoning_verdict(
    source: Result<SourceView, ErrorView>,
    validated: Result<bool, ErrorView>,
    objections: Seq<Option<OnwardsErrorResponse>>,
) -> Result<bool, ErrorView> {
    let settings = match source {
        Ok(SourceView::Given) => Ok(true),
        Ok(SourceView::Validate(_)) => validated,
        Ok(SourceView::Absent) => Ok(false),
        Err(error) => Err(error),
    };
    match (settings, first_objection(objections)) {
        (Ok(true), Some(error)) => Err(error),
        _ => settings,
    }
}

/// What a source of reasoning settings or an error is.
pub open spec fn source_result(source: Result<ReasoningSource, OnwardsErrorResponse>) -> Result<
    SourceView,
    ErrorView,
> {
    match source {
        Ok(s) => Ok(s@),
        Err(e) => Err(e@),
    }
}

/// What a finding or an error is.
pub open spec fn finding(result: Result<bool, OnwardsErrorResponse>) -> Result<bool, ErrorView> {
    match result {
        Ok(b) => Ok(b),
        Err(e) => Err(e@),
    }
}

/// Settles whether a request has reasoning settings, or what the client is told.
pub fn settle_reasoning(
    source: Result<ReasoningSource, OnwardsErrorResponse>,
    validated: Result<bool, OnwardsErrorResponse>,
    objections: Vec<Option<OnwardsErrorResponse>>,
) -> (verdict: Result<bool, OnwardsErrorResponse>)
    ensures
        finding(verdict) == reasoning_verdict(
            source_result(source),
            finding(validated),
            objections@,
        ),
{
    let settings = match source {
        Ok(ReasoningSource::Given) => true,
        Ok(ReasoningSource::Validate(_)) => match validated {
            Ok(settings) => settings,
            Err(error) => {
                return Err(error);
            },
        },
        Ok(ReasoningSource::Absent) => false,
        Err(error) => {
            return Err(error);
        },
    };
    if settings {
        if let Err(error) = judge_translations(objections) {
            return Err(error);
        }
    }
    Ok(settings)
}

/// A request without reasoning settings meets no objection: whatever the translations of the
/// providers say, it is held up only by a body that cannot be read or by its validation.
pub proof fn law_only_settings_are_objected_to(
    source: Result<SourceView, ErrorView>,
    validated: Result<bool, ErrorView>,
    objections: Seq<Option<OnwardsErrorResponse>>,
)
    ensures
        source == Ok::<SourceView, ErrorView>(SourceView::Absent) ==> reasoning_verdict(
            source,
            validated,
            objections,
        ) == Ok::<bool, ErrorView>(false),
        source matches Ok(SourceView::Validate(_)) && validated == Ok::<bool, ErrorView>(false)
            ==> reasoning_verdict(source, validated, objections) == Ok::<bool, ErrorView>(false),
        reasoning_verdict(source, validated, objections) == Ok::<bool, ErrorView>(true)
            ==> first_objection(objections) is None,
{
}

/// The document that the translation of a target is applied to: that of the body, where there are
/// reasoning settings, a translation and a body; nothing otherwise.
pub open spec fn document_to_translate(settings: bool, translates: bool, body: Seq<u8>) -> Result<
    Option<JsonTree>,
    ErrorView,
> {
    if settings && translates && body.len() > 0 {
        match json::parsed_json(body) {
            Some(tree) => Ok(Some(tree)),
            None => Err(not_json_error()),
        }
    } else {
        Ok(None)
    }
}

/// Reads the document that the translation of a target is applied to.
pub fn read_for_translation(settings: bool, translates: bool, body: &[u8]) -> (document: Result<
    Option<Json>,
    OnwardsErrorResponse,
>)
    ensures
        match document {
            Ok(d) => document_to_translate(settings, translates, body@) == Ok::<
                Option<JsonTree>,
                ErrorView,
            >(json::optional_tree(d)),
            Err(e) => document_to_translate(settings, translates, body@) == Err::<
                Option<JsonTree>,
                ErrorView,
            >(e@),
        },
{
    if !settings || !translates || body.len() == 0 {
        return Ok(None);
    }
    match Json::parse(body) {
        Some(document) => Ok(Some(document)),
        None => Err(not_json()),
    }
}

/// The body to send once the translation of a target was applied, or what the client is told.
pub fn settle_translation(translated: Result<Json, OnwardsErrorResponse>) -> (body: Result<
    Vec<u8>,
    OnwardsErrorResponse,
>)
    ensures
        forwarding::body_result(body) == match translated {
            Ok(document) => match cache_usage::json_bytes(document@) {
                Some(bytes) => Ok(bytes),
                None => Err(ErrorView::internal()),
            },
            Err(error) => Err(error@),
        },
{
    match translated {
        Ok(document) => match cache_usage::render_bytes(document) {
            Some(bytes) => Ok(bytes),
            None => Err(OnwardsErrorResponse::internal()),
        },
        Err(error) => Err(error),
    }
}

/// Settings that were read before count; otherwise a body is read for them exactly where there is one and
/// the path has the reasoning contract, and it has to be JSON then.
pub proof fn law_where_settings_come_from(has_contract: bool, body: Seq<u8>, tree: JsonTree)
    ensures
        reasoning_source(true, has_contract, body) == Ok::<SourceView, ErrorView>(SourceView::Given),
        !has_contract || body.len() == 0 ==> reasoning_source(false, has_contract, body) == Ok::<
            SourceView,
            ErrorView,
        >(SourceView::Absent),
        has_contract && body.len() > 0 && json::parsed_json(body) == Some(tree) ==> reasoning_source(
            false,
            has_contract,
            body,
        ) == Ok::<SourceView, ErrorView>(SourceView::Validate(tree)),
        has_contract && body.len() > 0 && json::parsed_json(body) is None ==> (reasoning_source(
            false,
            has_contract,
            body,
        ) matches Err(error) && error.status == 400),
{
}

/// Of the objections of the providers the first in order is told; without any there is none.
pub proof fn law_first_objection_counts(objections: Seq<Option<OnwardsErrorResponse>>, i: int)
    requires
        0 <= i <= objections.len(),
        forall|j: int| 0 <= j < i ==> #[trigger] objections[j] is None,
    ensures
        i == objections.len() ==> first_objection(objections) is None,
        i < objections.len() ==> (objections[i] matches Some(error) ==> first_objection(objections)
            == Some(error@)),
    decreases objections.len(),
{
    if i > 0 {
        let rest = objections.drop_first();
        assert(objections[0] is None);
        assert forall|j: int| 0 <= j < i - 1 implies #[trigger] rest[j] is None by {
            assert(rest[j] == objections[j + 1]);
        }
        law_first_objection_counts(rest, i - 1);
        if i < objections.len() {
            assert(rest[i - 1] == objections[i]);
        }
    }
}

/// A body that cannot be read, and settings that are not valid, are told before any objection; settings
/// that are there are objected to where a provider does; and a request has settings exactly when it was
/// given some or some were found.
pub proof fn law_verdict_on_settings(
    source: Result<SourceView, ErrorView>,
    validated: Result<bool, ErrorView>,
    objections: Seq<Option<OnwardsErrorResponse>>,
)
    ensures
        source matches Err(error) ==> reasoning_verdict(source, validated, objections) == Err::<
            bool,
            ErrorView,
        >(error),
        source matches Ok(SourceView::Validate(_)) ==> (validated matches Err(error)
            ==> reasoning_verdict(source, validated, objections) == Err::<bool, ErrorView>(error)),
        source == Ok::<SourceView, ErrorView>(SourceView::Given) || (source matches Ok(
            SourceView::Validate(_),
        ) && validated == Ok::<bool, ErrorView>(true)) ==> reasoning_verdict(
            source,
            validated,
            objections,
        ) == match first_objection(objections) {
            Some(error) => Err::<bool, ErrorView>(error),
            None => Ok::<bool, ErrorView>(true),
        },
{
}

} // verus!

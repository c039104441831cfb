//! Keys and addresses of providers.

use url::Url;
use vstd::prelude::*;
use crate::outsource_lib::error::OutsourceError;
use crate::protocol::ModelDescription;
use crate::text::opt_text;

verus! {

/// The address that a text stands for, in its normal form, if it stands for one.
pub uninterp spec fn parsed_url(s: Seq<char>) -> Option<Seq<char>>;

/// The address that a reference means from an address, if there is one.
pub uninterp spec fn joined_url(base: Seq<char>, reference: Seq<char>) -> Option<Seq<char>>;

/// `Url::parse`: whether a text is an address, and its normal form, are a function of the text.
#[verifier::external_body]
pub(crate) fn parse_url(s: &str) -> (r: Option<String>)
    ensures
        opt_text(r) == parsed_url(s@),
{
    Url::parse(s).ok().map(String::from)
}

/// `Url::join`, on a base that is given as a text: whether there is a result, and which, is a
/// function of the base and the reference.
#[verifier::external_body]
pub(crate) fn join_url(base: &str, reference: &str) -> (r: Option<String>)
    ensures
        opt_text(r) == joined_url(base@, reference@),
{
    Url::parse(base).ok()?.join(reference).ok().map(String::from)
}

/// Gives the API key of the configuration, or
/// [`OutsourceError::APIKeyNotDefined`] if there is none.
pub fn get_api_key(config_api_key: Option<&str>) -> (r: Result<&str, OutsourceError>)
    ensures
        match config_api_key {
            Some(key) => r == Ok::<_, OutsourceError>(key),
            None => r == Err::<&str, _>(OutsourceError::APIKeyNotDefined),
        },
{
    match config_api_key {
        Some(key) => Ok(key),
        None => Err(OutsourceError::APIKeyNotDefined),
    }
}

/// Gives the API key for OpenAI. At an endpoint of one's own, a key is not needed.
pub fn get_openai_api_key<'a>(
    api_key: Option<&'a str>,
    is_config_custom_endpoint_present: bool,
    model_description: &ModelDescription,
) -> (r: Result<&'a str, OutsourceError>)
    ensures
        match api_key {
            Some(key) => r == Ok::<_, OutsourceError>(key),
            None => if is_config_custom_endpoint_present || model_description.endpoint is Some {
                r matches Ok(key) && key@ == ""@
            } else {
                r == Err::<&str, _>(OutsourceError::APIKeyNotDefined)
            },
        },
{
    match get_api_key(api_key) {
        Ok(key) => Ok(key),
        Err(e) => if is_config_custom_endpoint_present || model_description.endpoint.is_some() {
            Ok("")
        } else {
            Err(e)
        },
    }
}

/// Whether a status is one of success.
pub open spec fn is_success(status: u16) -> bool {
    200 <= status < 300
}

/// Whether a status is one of success.
pub fn is_success_status(status: u16) -> (r: bool)
    ensures
        r == is_success(status),
{
    200 <= status && status < 300
}

/// Refuses a reply whose status is not one of success.
pub fn check_status_code(status: u16, reason: String, body: String) -> (r: Result<String, OutsourceError>)
    ensures
        if is_success(status) {
            r == Ok::<_, OutsourceError>(body)
        } else {
            r == Err::<String, _>(OutsourceError::BadHttpStatusCode { status, reason, body })
        },
{
    if is_success_status(status) {
        Ok(body)
    } else {
        Err(OutsourceError::BadHttpStatusCode { status, reason, body })
    }
}

// ---------------------------------------------------------------------------------------------
// Laws.

/// A reply with a status of success is handed on with its body; any other is refused, with its status
/// and its body.
pub proof fn law_only_success_is_handed_on(
    status: u16,
    reason: String,
    body: String,
    r: Result<String, OutsourceError>,
)
    requires
        call_ensures(check_status_code, (status, reason, body), r),
    ensures
        200 <= status <= 299 ==> (r matches Ok(found) && found@ == body@),
        status < 200 || status > 299 ==> (r matches Err(OutsourceError::BadHttpStatusCode {
            status: told,
            reason: why,
            body: found,
        }) && told == status && why@ == reason@ && found@ == body@),
{
}

/// A key that is known is used. Without one the request is refused, except at an endpoint of one's own,
/// which is asked with an empty key.
pub proof fn law_known_keys_are_used<'a>(
    api_key: Option<&'a str>,
    custom: bool,
    model_description: ModelDescription,
    r: Result<&'a str, OutsourceError>,
    s: Result<&'a str, OutsourceError>,
)
    requires
        call_ensures(get_api_key, (api_key,), r),
        call_ensures(get_openai_api_key, (api_key, custom, &model_description), s),
    ensures
        api_key matches Some(key) ==> (r matches Ok(found) && found@ == key@) && (s matches Ok(found)
            && found@ == key@),
        api_key is None ==> r == Err::<&str, _>(OutsourceError::APIKeyNotDefined),
        api_key is None && !custom && model_description.endpoint is None ==> s == Err::<&str, _>(
            OutsourceError::APIKeyNotDefined,
        ),
        api_key is None && (custom || model_description.endpoint is Some) ==> (s matches Ok(found)
            && found@.len() == 0),
{
    reveal_strlit("");
}

/// The answers from two hundred to two hundred and ninety-nine are those of success.
pub proof fn law_success_is_told_by_the_status(status: u16, r: bool)
    requires
        call_ensures(is_success_status, (status,), r),
    ensures
        r <==> status / 100 == 2,
{
}

} // verus!

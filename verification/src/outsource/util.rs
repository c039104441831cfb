//! Hosts and keys of providers.

use vstd::prelude::*;
use crate::outsource_lib::error::OutsourceError;
use crate::outsource_lib::util::{parse_url, parsed_url};
use crate::text::opt_text;

verus! {

/// The host and the key of a provider, given the address of the host, if it has one. The key is the
/// one that is given or else that of the environment. Both are needed.
pub open spec fn host_and_key(
    host: Option<Seq<char>>,
    specified: Option<Seq<char>>,
    environment: Option<Seq<char>>,
) -> Result<(Seq<char>, Seq<char>), OutsourceError> {
    match host {
        None => Err(OutsourceError::HostURLParse),
        Some(host) => match (specified, environment) {
            (Some(key), _) => Ok((host, key)),
            (None, Some(key)) => Ok((host, key)),
            (None, None) => Err(OutsourceError::APIKeyNotDefined),
        },
    }
}

/// The host and the key of a provider, given the address of the host, if it has one.
pub fn with_api_key(
    host: Option<String>,
    specified_api_key: Option<String>,
    environment_api_key: Option<String>,
) -> (r: Result<(String, String), OutsourceError>)
    ensures
        match host_and_key(
            opt_text(host),
            opt_text(specified_api_key),
            opt_text(environment_api_key),
        ) {
            Ok((host, key)) => r matches Ok(found) && found.0@ == host && found.1@ == key,
            Err(error) => r == Err::<(String, String), _>(error),
        },
{
    match host {
        Some(host) => match specified_api_key {
            Some(key) => Ok((host, key)),
            None => match environment_api_key {
                Some(key) => Ok((host, key)),
                None => Err(OutsourceError::APIKeyNotDefined),
            },
        },
        None => Err(OutsourceError::HostURLParse),
    }
}

/// The host and the key of a provider. The host is the one of the environment or else the default;
/// the key is the one that is given or else that of the environment. The host has to be an address,
/// and a key is needed.
pub fn get_host_and_api_key(
    environment_api_key: Option<String>,
    specified_api_key: Option<String>,
    environment_api_host: Option<String>,
    default_api_host: &str,
) -> (r: Result<(String, String), OutsourceError>)
    ensures
        match host_and_key(
            parsed_url(
                match environment_api_host {
                    Some(host) => host@,
                    None => default_api_host@,
                },
            ),
            opt_text(specified_api_key),
            opt_text(environment_api_key),
        ) {
            Ok((host, key)) => r matches Ok(found) && found.0@ == host && found.1@ == key,
            Err(error) => r == Err::<(String, String), _>(error),
        },
{
    let host = match &environment_api_host {
        Some(host) => parse_url(host.as_str()),
        None => parse_url(default_api_host),
    };
    with_api_key(host, specified_api_key, environment_api_key)
}

// ---------------------------------------------------------------------------------------------
// Laws.

/// The host of the environment comes before the default, and the key that is given before that of the
/// environment. Without a key, or with a host that is no address, there is an error.
pub proof fn law_host_and_key_are_found(
    environment_key: Option<String>,
    specified_key: Option<String>,
    environment_host: Option<String>,
    default_host: &str,
    r: Result<(String, String), OutsourceError>,
)
    requires
        call_ensures(
            get_host_and_api_key,
            (environment_key, specified_key, environment_host, default_host),
            r,
        ),
    ensures
        r matches Ok((host, key)) ==> {
            &&& specified_key matches Some(given) ==> key@ == given@
            &&& specified_key is None ==> (environment_key matches Some(given) && key@ == given@)
            &&& environment_host matches Some(named) ==> parsed_url(named@) == Some(host@)
            &&& environment_host is None ==> parsed_url(default_host@) == Some(host@)
        },
        r is Err <==> (specified_key is None && environment_key is None) || (environment_host matches Some(
            named,
        ) && parsed_url(named@) is None) || (environment_host is None && parsed_url(default_host@) is None),
{
}

} // verus!

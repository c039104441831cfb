//! The API of Hugging Face, for models whose names may give an address.

use vstd::prelude::*;
use crate::outsource_lib::error::OutsourceError;
use crate::outsource_lib::huggingface::{hosted_model_url, model_url};
use crate::outsource_lib::util::{parse_url, parsed_url};
use crate::text::{opt_text, strip_prefix};

verus! {

/// What a model name begins with that is an address.
pub const CUSTOM_ENDPOINT_PREFIX: &'static str = "endpoint=";

/// The address of a request for a model whose name may give an address: that address, or else the
/// address of the model at the host, if its name can be part of one. Not every address can be read.
pub fn named_url(model_name: &str) -> (r: Result<Option<String>, OutsourceError>)
    ensures
        if CUSTOM_ENDPOINT_PREFIX@.is_prefix_of(model_name@) {
            match parsed_url(model_name@.skip(9)) {
                Some(url) => r matches Ok(Some(found)) && found@ == url,
                None => r == Err::<Option<String>, _>(OutsourceError::HostURLParse),
            }
        } else {
            r matches Ok(found) && opt_text(found) == model_url(model_name@)
        },
{
    proof {
        reveal_strlit("endpoint=");
    }
    match strip_prefix(model_name, CUSTOM_ENDPOINT_PREFIX) {
        Some(rest) => {
            assert(model_name@.skip(9) =~= rest@);
            assert(CUSTOM_ENDPOINT_PREFIX@.is_prefix_of(model_name@));
            match parse_url(rest.as_str()) {
                Some(url) => Ok(Some(url)),
                None => Err(OutsourceError::HostURLParse),
            }
        },
        None => Ok(hosted_model_url(model_name)),
    }
}

// ---------------------------------------------------------------------------------------------
// Laws.

/// A model whose name gives an address is asked there; any other at the host, under its name.
pub proof fn law_named_address_is_asked(
    model_name: &str,
    address: Seq<char>,
    r: Result<Option<String>, OutsourceError>,
)
    requires
        call_ensures(named_url, (model_name,), r),
    ensures
        model_name@ == "endpoint="@ + address ==> {
            &&& parsed_url(address) matches Some(url) ==> (r matches Ok(Some(found)) && found@ == url)
            &&& parsed_url(address) is None ==> r is Err
        },
        !"endpoint="@.is_prefix_of(model_name@) ==> (r matches Ok(found) && opt_text(found) == model_url(
            model_name@,
        )),
{
    reveal_strlit("endpoint=");
    assert("endpoint="@.len() == 9);
    let name = "endpoint="@ + address;
    assert(name.skip(9) =~= address);
    assert(name.take(9) =~= "endpoint="@);
}

} // verus!

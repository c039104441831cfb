//! Presets: generation parameters that are kept under a name.

use vstd::prelude::*;
use crate::core_lib::error::CoreError;
use crate::text::concat;

verus! {

/// The name of the file that holds a preset.
pub fn preset_file_name(preset_id: &str) -> (r: String)
    ensures
        r@ == preset_id@ + ".toml"@,
{
    concat(preset_id, ".toml")
}

/// The text of a preset: the one that is stored, or else the built-in one.
pub fn load_preset(stored: Option<String>, built_in: Option<String>) -> (r: Result<String, CoreError>)
    ensures
        match (stored, built_in) {
            (Some(preset), _) => r == Ok::<_, CoreError>(preset),
            (None, Some(preset)) => r == Ok::<_, CoreError>(preset),
            (None, None) => r == Err::<String, _>(CoreError::PresetNotFound),
        },
{
    match stored {
        Some(preset) => Ok(preset),
        None => match built_in {
            Some(preset) => Ok(preset),
            None => Err(CoreError::PresetNotFound),
        },
    }
}

// ---------------------------------------------------------------------------------------------
// Laws.


/// A stored preset is used whatever is built in; what is built in serves where nothing is stored.
pub proof fn law_stored_preset_comes_first(
    stored: Option<String>,
    built_in: Option<String>,
    r: Result<String, CoreError>,
)
    requires
        call_ensures(load_preset, (stored, built_in), r),
    ensures
        stored matches Some(preset) ==> (r matches Ok(found) && found@ == preset@),
        stored is None ==> (built_in matches Some(preset) ==> (r matches Ok(found) && found@ == preset@)),
        stored is None && built_in is None ==> r == Err::<String, _>(CoreError::PresetNotFound),
{
}

/// The file of a preset tells its id, by which two of them differ.
pub proof fn law_presets_have_their_own_files(id: &str, other: &str, r: String, s: String)
    requires
        call_ensures(preset_file_name, (id,), r),
        call_ensures(preset_file_name, (other,), s),
    ensures
        r@.take(id@.len() as int) == id@,
        r@.skip(id@.len() as int) == seq!['.', 't', 'o', 'm', 'l'],
        r@ == s@ <==> id@ == other@,
{
    reveal_strlit(".toml");
    assert(r@.take(id@.len() as int) =~= id@);
    assert(r@.skip(id@.len() as int) =~= seq!['.', 't', 'o', 'm', 'l']);
    if r@ == s@ {
        assert(id@.len() == other@.len());
        assert(s@.take(other@.len() as int) =~= other@);
    }
}

} // verus!

//! The editor's startup parameters.
use vstd::prelude::*;

verus! {

pub struct EditorParams {
    /// The language file to use for the interface.
    pub lang: String,
    /// The game to launch with its special tools.
    pub game_id: String,
}

impl EditorParams {
    /// The parameters from the values found for the `lang` and `game_id`
    /// arguments; a missing value is an error naming the argument.
    pub fn from_values(lang: Option<&str>, game_id: Option<&str>) -> (r: Result<EditorParams, String>)
        ensures
            lang is None ==> (r matches Err(e) && e@ == "invalid language"@),
            lang is Some && game_id is None ==> (r matches Err(e) && e@ == "invalid game_id"@),
            lang matches Some(l) ==> (game_id matches Some(g) ==> (r matches Ok(p) && p.lang@ == l@
                && p.game_id@ == g@)),
    {
        let lang = match lang {
            Some(l) => l,
            None => {
                return Err("invalid language".to_owned());
            },
        };
        let game_id = match game_id {
            Some(g) => g,
            None => {
                return Err("invalid game_id".to_owned());
            },
        };
        Ok(EditorParams { lang: lang.to_owned(), game_id: game_id.to_owned() })
    }
}

} // verus!

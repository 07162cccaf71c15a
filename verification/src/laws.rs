//! What holds of the store as a whole, stated over the mappings that its
//! functions' contracts speak of.

use crate::persist::{json_entries, json_text, mapping_of_read, mapping_of_text, FileRead};
use crate::redirect::{answers, Reply};
use crate::url_map::associations;
use vstd::prelude::*;

verus! {

/// Insert, then look up: once `code` has been associated with `url`, the
/// mapping holds `code`, it stands for `url`, and every other code stands for
/// what it stood for before.
pub proof fn lemma_insert_then_lookup(
    before: Map<Seq<char>, Seq<char>>,
    code: Seq<char>,
    url: Seq<char>,
)
    ensures
        before.insert(code, url).dom().contains(code),
        before.insert(code, url)[code] == url,
        forall|other: Seq<char>|
            other != code ==> {
                &&& before.insert(code, url).dom().contains(other) == before.dom().contains(other)
                &&& before.insert(code, url)[other] == before[other]
            },
{
}

/// A second insert under the same code replaces the first silently.
pub proof fn lemma_same_code_overwrites(
    before: Map<Seq<char>, Seq<char>>,
    code: Seq<char>,
    first_url: Seq<char>,
    second_url: Seq<char>,
)
    ensures
        before.insert(code, first_url).insert(code, second_url) == before.insert(
            code,
            second_url,
        ),
{
    assert(before.insert(code, first_url).insert(code, second_url) =~= before.insert(
        code,
        second_url,
    ));
}

/// A missing file loads as the empty mapping and never as an error.
pub proof fn lemma_missing_file_is_empty()
    ensures
        mapping_of_read(FileRead::Missing) == Some(Map::<Seq<char>, Seq<char>>::empty()),
{
}

/// Content that the JSON reader does not take for one object of absolute
/// URLs loads as no mapping at all, the empty one included; all other
/// content loads as the mapping of the pairs that the reader gives.
pub proof fn lemma_invalid_content_is_error(text: Seq<char>)
    ensures
        json_entries(text) is None <==> mapping_of_text(text) is None,
        json_entries(text) matches Some(pairs) ==> mapping_of_text(text) == Some(
            associations(pairs),
        ),
{
}

/// The JSON reader gives back what the writer was handed: it reads `text` as
/// pairs that spell `map`.
pub open spec fn reads_back(map: Map<Seq<char>, Seq<char>>, text: Seq<char>) -> bool {
    json_entries(text) matches Some(pairs) && associations(pairs) == map
}

/// Save, then load. The text saved for `map` loads as `map`, with the same
/// codes standing for the same URLs, wherever the JSON reader gives back
/// what the writer was handed.
///
/// That condition is not proved here. It asks that a JSON object reads back
/// as it was written and that a serialized URL parses to itself, and this
/// crate claims neither of the JSON codec or of the URL parser.
pub proof fn lemma_save_then_load(map: Map<Seq<char>, Seq<char>>, text: Seq<char>)
    ensures
        json_text(map) == Some(text) && reads_back(map, text) ==> mapping_of_text(text) == Some(
            map,
        ),
{
}

/// Insert, save, load, look up. After `code` was associated with `url` and
/// the mapping saved as `text`, the mapping that `text` loads as resolves
/// `code` to `url` and every other code to what it stood for before the
/// insert, under the condition of `lemma_save_then_load`.
pub proof fn lemma_lookup_after_reload(
    before: Map<Seq<char>, Seq<char>>,
    code: Seq<char>,
    url: Seq<char>,
    text: Seq<char>,
)
    ensures
        json_text(before.insert(code, url)) == Some(text) && reads_back(
            before.insert(code, url),
            text,
        ) ==> {
            let loaded = mapping_of_text(text)->0;
            &&& mapping_of_text(text) is Some
            &&& loaded.dom().contains(code)
            &&& loaded[code] == url
            &&& forall|other: Seq<char>|
                other != code ==> loaded.dom().contains(other) == before.dom().contains(other)
                    && loaded[other] == before[other]
        },
{
    lemma_save_then_load(before.insert(code, url), text);
}

/// A request for a code that the mapping holds is answered with status 301
/// and the stored URL as the location; a request for any other code is
/// answered with status 404.
pub proof fn lemma_redirect_or_not_found(
    map: Map<Seq<char>, Seq<char>>,
    code: Seq<char>,
    reply: Reply,
)
    requires
        answers(map, code, reply),
    ensures
        map.dom().contains(code) ==> reply.status() == 301 && (reply matches Reply::MovedPermanently {
            location,
        } && location@ == map[code]),
        !map.dom().contains(code) ==> reply.status() == 404 && reply is NotFound,
{
}

} // verus!

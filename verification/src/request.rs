//! What a request's metadata says about workspaces.
use crate::path::PosixPath;
use anda_core::RequestMeta;
use vstd::prelude::*;
use vstd::utf8::*;

verus! {

/// [`anda_core::RequestMeta`]: the metadata of a request.
#[verifier::external_type_specification]
#[verifier::external_body]
pub struct ExRequestMeta(anda_core::RequestMeta);

/// The extra entries of the metadata that are JSON strings, by key.
pub uninterp spec fn extra_texts(meta: RequestMeta) -> Map<Seq<char>, Seq<char>>;

/// The extra entries of the metadata that are JSON arrays of strings, by key.
pub uninterp spec fn extra_text_lists(meta: RequestMeta) -> Map<Seq<char>, Seq<Seq<char>>>;

/// Calls [`RequestMeta::get_extra_as`] for a `String`: the entry under `key` where
/// it is a JSON string, and nothing where it is missing or anything else.
#[verifier::external_body]
pub(crate) fn extra_text(meta: &RequestMeta, key: &str) -> (found: Option<String>)
    ensures
        found is Some <==> extra_texts(*meta).contains_key(key@),
        found matches Some(value) ==> value@ == extra_texts(*meta)[key@],
{
    meta.get_extra_as::<String>(key)
}

/// Calls [`RequestMeta::get_extra_as`] for a `Vec<String>`: the entry under `key`
/// where it is a JSON array of strings, and nothing where it is missing or anything
/// else.
#[verifier::external_body]
pub(crate) fn extra_text_list(meta: &RequestMeta, key: &str) -> (found: Option<Vec<String>>)
    ensures
        found is Some <==> extra_text_lists(*meta).contains_key(key@),
        found matches Some(values) ==> crate::text::texts(values@) == extra_text_lists(*meta)[key@],
{
    meta.get_extra_as::<Vec<String>>(key)
}

/// The paths that the texts are written as.
pub open spec fn encoded(texts: Seq<Seq<char>>) -> Seq<Seq<u8>> {
    texts.map_values(|t: Seq<char>| encode_utf8(t))
}

/// The paths that an entry names which is a text, a list of texts or neither.
pub open spec fn entry_paths(one: Option<Seq<char>>, many: Option<Seq<Seq<char>>>) -> Seq<Seq<u8>> {
    match one {
        Some(text) => seq![encode_utf8(text)],
        None => match many {
            Some(texts) => encoded(texts),
            None => Seq::empty(),
        },
    }
}

/// The value under `key`, where there is one.
pub open spec fn lookup<V>(entries: Map<Seq<char>, V>, key: Seq<char>) -> Option<V> {
    if entries.contains_key(key) {
        Some(entries[key])
    } else {
        None
    }
}

/// The paths that the metadata names under `key`: one for a JSON string, those of
/// the items for a JSON array of strings, and none otherwise.
pub open spec fn extra_paths(meta: RequestMeta, key: Seq<char>) -> Seq<Seq<u8>> {
    entry_paths(lookup(extra_texts(meta), key), lookup(extra_text_lists(meta), key))
}

/// The paths that the texts are written as.
pub fn paths_from_texts(texts: &Vec<String>) -> (paths: Vec<PosixPath>)
    ensures
        crate::path::path_bytes(paths@) == encoded(crate::text::texts(texts@)),
{
    let mut paths: Vec<PosixPath> = Vec::new();
    let mut i: usize = 0;
    while i < texts.len()
        invariant
            i <= texts.len(),
            crate::path::path_bytes(paths@) == encoded(crate::text::texts(texts@)).take(i as int),
        decreases texts.len() - i,
    {
        let ghost before = paths@;
        paths.push(PosixPath::from_text(texts[i].as_str()));
        assert(crate::path::path_bytes(paths@) == crate::path::path_bytes(before).push(
            encode_utf8(texts@[i as int]@),
        ));
        assert(encoded(crate::text::texts(texts@)).take(i + 1) == encoded(
            crate::text::texts(texts@),
        ).take(i as int).push(encode_utf8(texts@[i as int]@)));
        i += 1;
    }
    paths
}

/// The paths that the metadata names under `key`.
pub fn request_paths(meta: &RequestMeta, key: &str) -> (paths: Vec<PosixPath>)
    ensures
        crate::path::path_bytes(paths@) == extra_paths(*meta, key@),
{
    if let Some(text) = extra_text(meta, key) {
        let mut paths: Vec<PosixPath> = Vec::new();
        paths.push(PosixPath::from_text(text.as_str()));
        assert(crate::path::path_bytes(paths@) == seq![encode_utf8(text@)]);
        paths
    } else if let Some(texts) = extra_text_list(meta, key) {
        paths_from_texts(&texts)
    } else {
        assert(crate::path::path_bytes(Seq::<PosixPath>::empty()) == Seq::<Seq<u8>>::empty());
        Vec::new()
    }
}

/// A text under a key is one path, a list of texts is as many paths in the same order, and
/// anything else is none. Each path is written as its text is.
pub proof fn law_named_paths(meta: RequestMeta, key: Seq<char>)
    ensures
        extra_texts(meta).contains_key(key) ==> extra_paths(meta, key) == seq![
            encode_utf8(extra_texts(meta)[key]),
        ],
        !extra_texts(meta).contains_key(key) && extra_text_lists(meta).contains_key(key) ==> {
            let texts = extra_text_lists(meta)[key];
            &&& extra_paths(meta, key).len() == texts.len()
            &&& forall|i: int|
                0 <= i < texts.len() ==> #[trigger] extra_paths(meta, key)[i] == encode_utf8(
                    texts[i],
                )
        },
        !extra_texts(meta).contains_key(key) && !extra_text_lists(meta).contains_key(key)
            ==> extra_paths(meta, key).len() == 0,
{
}

} // verus!

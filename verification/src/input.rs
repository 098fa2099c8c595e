//! Classification of the raw input reference.

use crate::text::{before_first, chars_of, ends_with, find_first, slice, starts_with};
use vstd::prelude::*;

verus! {

/// What kind of reference the user handed in.
#[derive(Debug, Clone, Copy, PartialEq, Eq, Structural)]
pub enum InputType {
    HlsUrl,
    DashUrl,
    Website,
    HlsLocalFile,
    DashLocalFile,
    LocalFile,
}

impl InputType {
    pub fn is_website(&self) -> (b: bool)
        ensures
            b == (*self == InputType::Website),
    {
        matches!(self, InputType::Website)
    }

    pub fn is_hls(&self) -> (b: bool)
        ensures
            b == (*self == InputType::HlsUrl || *self == InputType::HlsLocalFile),
    {
        matches!(self, InputType::HlsUrl | InputType::HlsLocalFile)
    }

    pub fn is_dash(&self) -> (b: bool)
        ensures
            b == (*self == InputType::DashUrl || *self == InputType::DashLocalFile),
    {
        matches!(self, InputType::DashUrl | InputType::DashLocalFile)
    }
}

/// Whether a name carries a playlist suffix, `.m3u` or `.m3u8`
/// (the compound `.ts.m3u8` is one of the latter).
pub open spec fn is_playlist_name(s: Seq<char>) -> bool {
    ".m3u"@.is_suffix_of(s) || ".m3u8"@.is_suffix_of(s)
}

/// Whether a name carries a manifest suffix, `.mpd` or `.xml`.
pub open spec fn is_manifest_name(s: Seq<char>) -> bool {
    ".mpd"@.is_suffix_of(s) || ".xml"@.is_suffix_of(s)
}

/// The class of an input: the query string is cut off, playlist suffixes
/// are tried before manifest suffixes, and a leading `http` tells a URL
/// from a local file.
pub open spec fn input_type_of(input: Seq<char>) -> InputType {
    let url = before_first(input, '?');
    if "http"@.is_prefix_of(url) {
        if is_playlist_name(url) {
            InputType::HlsUrl
        } else if is_manifest_name(url) {
            InputType::DashUrl
        } else {
            InputType::Website
        }
    } else {
        if is_playlist_name(url) {
            InputType::HlsLocalFile
        } else if is_manifest_name(url) {
            InputType::DashLocalFile
        } else {
            InputType::LocalFile
        }
    }
}

/// Whether the characters of `name` end in a playlist suffix.
pub fn has_playlist_suffix(name: &Vec<char>) -> (b: bool)
    ensures
        b == is_playlist_name(name@),
{
    ends_with(name, ".m3u") || ends_with(name, ".m3u8")
}

/// Whether the characters of `name` end in a manifest suffix.
pub fn has_manifest_suffix(name: &Vec<char>) -> (b: bool)
    ensures
        b == is_manifest_name(name@),
{
    ends_with(name, ".mpd") || ends_with(name, ".xml")
}

/// Classifies the raw input string. Every string has a class.
pub fn classify(input: &str) -> (t: InputType)
    ensures
        t == input_type_of(input@),
{
    let v = chars_of(input);
    let q = find_first(&v, '?');
    let url = slice(&v, 0, q);
    assert(url@ =~= before_first(input@, '?'));
    let playlist = has_playlist_suffix(&url);
    let manifest = has_manifest_suffix(&url);
    if starts_with(&url, "http") {
        if playlist {
            InputType::HlsUrl
        } else if manifest {
            InputType::DashUrl
        } else {
            InputType::Website
        }
    } else {
        if playlist {
            InputType::HlsLocalFile
        } else if manifest {
            InputType::DashLocalFile
        } else {
            InputType::LocalFile
        }
    }
}

/// Classifying is a function of the part in front of the query string:
/// an input and its query-stripped form have the same class.
pub proof fn lemma_query_is_ignored(input: Seq<char>)
    ensures
        input_type_of(before_first(input, '?')) == input_type_of(input),
{
    crate::text::lemma_first_index_bounds(input, '?');
    let url = before_first(input, '?');
    crate::text::lemma_first_index_bounds(url, '?');
    let k = crate::text::first_index(url, '?');
    if k < url.len() {
        assert(url[k] == input[k]);
    }
    assert(url.take(k) =~= url);
}

} // verus!

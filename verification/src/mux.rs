//! Looking for the multiplexer binary on the search path.

use crate::text::{chars_of, first_index, string_of_range, texts};
use vstd::prelude::*;
use vstd::string::*;

verus! {

/// Why an output path was refused.
#[derive(Debug, Clone, Copy, PartialEq, Eq, Structural)]
pub enum OutputError {
    /// No multiplexer binary is on the search path.
    MuxerNotFound,
}

/// The pieces of `s` between the occurrences of `c`.
pub open spec fn split_on(s: Seq<char>, c: char) -> Seq<Seq<char>>
    decreases s.len(),
{
    let i = first_index(s, c);
    if i < 0 || i >= s.len() {
        seq![s]
    } else {
        seq![s.take(i)] + split_on(s.skip(i + 1), c)
    }
}

/// The character that parts the entries of the search path.
pub open spec fn path_separator(windows: bool) -> char {
    if windows {
        ';'
    } else {
        ':'
    }
}

/// The directories of a search path, in order.
pub fn search_path_entries(path: &str, windows: bool) -> (r: Vec<String>)
    ensures
        texts(r@) == split_on(path@, path_separator(windows)),
{
    let c: char = if windows {
        ';'
    } else {
        ':'
    };
    let v = chars_of(path);
    let mut r: Vec<String> = Vec::new();
    let mut start: usize = 0;
    let mut open: bool = true;
    assert(v@.skip(0) =~= v@);
    while open
        invariant
            start <= v.len(),
            c == path_separator(windows),
            open ==> split_on(v@, c) == texts(r@) + split_on(v@.skip(start as int), c),
            !open ==> split_on(v@, c) == texts(r@),
        decreases v.len() - start + (if open { 1int } else { 0int }),
    {
        let ghost rest = v@.skip(start as int);
        let ghost before = texts(r@);
        let mut i: usize = start;
        while i < v.len() && v[i] != c
            invariant
                start <= i <= v.len(),
                rest == v@.skip(start as int),
                first_index(rest, c) == (i - start) + first_index(v@.skip(i as int), c),
            decreases v.len() - i,
        {
            assert(v@.skip(i as int).drop_first() =~= v@.skip(i as int + 1));
            i = i + 1;
        }
        assert(first_index(rest, c) == i - start);
        let piece = string_of_range(&v, start, i);
        assert(v@.subrange(start as int, i as int) =~= rest.take(i - start));
        r.push(piece);
        assert(texts(r@) =~= before.push(piece@));
        if i < v.len() {
            assert(rest.skip(i - start + 1) =~= v@.skip(i as int + 1));
            assert(before + (seq![rest.take(i - start)] + split_on(v@.skip(i as int + 1), c))
                =~= before.push(piece@) + split_on(v@.skip(i as int + 1), c));
            start = i + 1;
        } else {
            assert(rest.take(i - start) =~= rest);
            assert(before + seq![rest] =~= before.push(piece@));
            start = i;
            open = false;
        }
    }
    r
}

/// The name of the multiplexer binary on this family of systems.
pub fn muxer_binary_name(windows: bool) -> (r: &'static str)
    ensures
        windows ==> r@ == "ffmpeg.exe"@,
        !windows ==> r@ == "ffmpeg"@,
{
    if windows {
        "ffmpeg.exe"
    } else {
        "ffmpeg"
    }
}

/// Whether `i` is the first directory that holds the binary.
pub open spec fn is_first_present(present: Seq<bool>, i: int) -> bool {
    0 <= i < present.len() && present[i] && forall|j: int| 0 <= j < i ==> !present[j]
}

/// The first directory of the search path that holds the binary.
/// `present[i]` says whether directory `i` holds it; a directory without
/// such a flag counts as not holding it.
pub fn find_ffmpeg(dirs: &Vec<String>, present: &Vec<bool>) -> (r: Option<String>)
    ensures
        r is Some <==> exists|i: int| 0 <= i < dirs.len() && i < present.len() && present@[i],
        r is Some ==> exists|i: int|
            i < dirs.len() && is_first_present(present@, i) && r->Some_0@ == dirs@[i]@,
{
    let mut i: usize = 0;
    while i < dirs.len() && i < present.len()
        invariant
            i <= dirs.len(),
            i <= present.len(),
            forall|j: int| 0 <= j < i ==> !present@[j],
        decreases dirs.len() - i,
    {
        if present[i] {
            assert(is_first_present(present@, i as int));
            return Some(dirs[i].clone());
        }
        i = i + 1;
    }
    None
}

/// Accepts an output path only when a multiplexer binary was found.
pub fn output_parser(s: &str, ffmpeg: &Option<String>) -> (r: Result<String, OutputError>)
    ensures
        *ffmpeg is Some ==> r is Ok && r->Ok_0@ == s@,
        *ffmpeg is None ==> r == Err::<String, OutputError>(OutputError::MuxerNotFound),
{
    if ffmpeg.is_some() {
        Ok(String::from_str(s))
    } else {
        Err(OutputError::MuxerNotFound)
    }
}

impl OutputError {
    /// The text shown to the user for this failure.
    pub fn message(&self) -> (r: String)
        ensures
            r@
                == "could'nt locate ffmpeg binary in PATH (https://www.ffmpeg.org/download.html)"@,
    {
        String::from_str(
            "could'nt locate ffmpeg binary in PATH (https://www.ffmpeg.org/download.html)",
        )
    }
}

} // verus!

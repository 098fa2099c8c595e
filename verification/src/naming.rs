//! Derivation of the working file name from the input reference.

use crate::input::{has_manifest_suffix, has_playlist_suffix, is_manifest_name, is_playlist_name};
use crate::text::{
    after_last, before_first, chars_of, decimal_digits, ends_with, find_first, find_last,
    contains_text, last_index, lemma_decimal_round_trip, lemma_last_index_bounds, push_decimal,
    slice, string_of, string_of_range, texts,
};
use vstd::prelude::*;
use vstd::string::*;

verus! {

/// The final path segment of the input, its query string cut off.
pub open spec fn last_segment(input: Seq<char>) -> Seq<char> {
    after_last(before_first(input, '?'), '/')
}

/// Names that denote no file: the empty name, `.` and `..`.
pub open spec fn is_special_name(name: Seq<char>) -> bool {
    name.len() == 0 || name == seq!['.'] || name == seq!['.', '.']
}

/// Whether the name has an extension: a dot that is not its first
/// character, in a name that denotes a file.
pub open spec fn has_extension(name: Seq<char>) -> bool {
    !is_special_name(name) && last_index(name, '.') > 1
}

/// The name without its extension and the dot in front of it.
pub open spec fn stem_of(name: Seq<char>) -> Seq<char> {
    if has_extension(name) {
        name.take(last_index(name, '.') - 1)
    } else {
        name
    }
}

/// What stands behind the last dot of a name that has an extension.
pub open spec fn extension_of(name: Seq<char>) -> Seq<char> {
    if has_extension(name) {
        name.skip(last_index(name, '.'))
    } else {
        Seq::empty()
    }
}

/// The name with its extension replaced by `ext`, or with `ext` added
/// where it has none. A name that denotes no file is left as it is.
pub open spec fn with_extension(name: Seq<char>, ext: Seq<char>) -> Seq<char> {
    if is_special_name(name) {
        name
    } else {
        stem_of(name) + seq!['.'] + ext
    }
}

/// Whether a character may not stand in a file name.
pub open spec fn is_reserved(c: char) -> bool {
    c == '<' || c == '>' || c == ':' || c == '"' || c == '/' || c == '\\' || c == '|' || c == '?'
}

/// The name with each reserved character replaced by a hyphen.
pub open spec fn sanitized(name: Seq<char>) -> Seq<char> {
    name.map_values(|c: char| if is_reserved(c) { '-' } else { c })
}

/// The working file name for an input.
pub open spec fn temp_name(input: Seq<char>) -> Seq<char> {
    let name = last_segment(input);
    if is_playlist_name(name) {
        if ".ts.m3u8"@.is_suffix_of(name) {
            name.take(name.len() - ".m3u8"@.len())
        } else {
            with_extension(name, "ts"@)
        }
    } else if is_manifest_name(name) {
        with_extension(name, "m4s"@)
    } else {
        with_extension(sanitized(name), "mp4"@)
    }
}

/// The `n`-th alternative for a name that is taken: the stem, a space,
/// `n` in brackets, and the extension where there is one.
pub open spec fn numbered_name(name: Seq<char>, n: nat) -> Seq<char> {
    let head = stem_of(name) + seq![' ', '('] + decimal_digits(n) + seq![')'];
    if has_extension(name) {
        head + seq!['.'] + extension_of(name)
    } else {
        head
    }
}

fn special_name(name: &Vec<char>) -> (b: bool)
    ensures
        b == is_special_name(name@),
{
    let n: usize = name.len();
    if n == 0 {
        true
    } else if n == 1 {
        assert(name@ =~= seq![name@[0]]);
        name[0] == '.'
    } else if n == 2 {
        assert(name@ =~= seq![name@[0], name@[1]]);
        name[0] == '.' && name[1] == '.'
    } else {
        false
    }
}

/// Position of the dot that starts the extension, if the name has one.
fn extension_dot(name: &Vec<char>) -> (r: Option<usize>)
    ensures
        r is Some <==> has_extension(name@),
        r is Some ==> r->Some_0 + 1 == last_index(name@, '.') && r->Some_0 < name.len(),
{
    if special_name(name) {
        return None;
    }
    let i = find_last(name, '.');
    if i > 1 {
        Some(i - 1)
    } else {
        None
    }
}

fn replace_extension(name: &Vec<char>, ext: &str) -> (r: String)
    ensures
        r@ == with_extension(name@, ext@),
{
    if special_name(name) {
        return string_of(name);
    }
    let end: usize = match extension_dot(name) {
        Some(d) => d,
        None => name.len(),
    };
    let mut r = string_of_range(name, 0, end);
    assert(name@.subrange(0, end as int) =~= stem_of(name@));
    r.push('.');
    r.append(ext);
    assert(r@ =~= stem_of(name@) + seq!['.'] + ext@);
    r
}

fn sanitize(name: &Vec<char>) -> (r: Vec<char>)
    ensures
        r@ == sanitized(name@),
{
    let mut r: Vec<char> = Vec::new();
    let mut i: usize = 0;
    while i < name.len()
        invariant
            i <= name.len(),
            r.len() == i,
            forall|j: int| 0 <= j < i ==> r@[j] == sanitized(name@)[j],
        decreases name.len() - i,
    {
        let c: char = name[i];
        if c == '<' || c == '>' || c == ':' || c == '"' || c == '/' || c == '\\' || c == '|' || c
            == '?' {
            r.push('-');
        } else {
            r.push(c);
        }
        i = i + 1;
    }
    assert(r@ =~= sanitized(name@));
    r
}

/// Derives the working file name from the raw input: the query string
/// and the directories are cut off; a playlist name gets the extension
/// `ts` (the compound `.ts.m3u8` only loses `.m3u8`), a manifest name
/// `m4s`, any other name is sanitized and gets `mp4`.
pub fn tempfile_name(input: &str) -> (r: String)
    ensures
        r@ == temp_name(input@),
{
    let v = chars_of(input);
    let q = find_first(&v, '?');
    let url = slice(&v, 0, q);
    assert(url@ =~= before_first(input@, '?'));
    let l = find_last(&url, '/');
    let name = slice(&url, l, url.len());
    assert(name@ =~= last_segment(input@));
    if has_playlist_suffix(&name) {
        if ends_with(&name, ".ts.m3u8") {
            proof {
                reveal_strlit(".ts.m3u8");
                reveal_strlit(".m3u8");
            }
            let k: usize = name.len() - 5;
            let r = string_of_range(&name, 0, k);
            assert(name@.subrange(0, k as int) =~= name@.take(name@.len() - ".m3u8"@.len()));
            r
        } else {
            replace_extension(&name, "ts")
        }
    } else if has_manifest_suffix(&name) {
        replace_extension(&name, "m4s")
    } else {
        let clean = sanitize(&name);
        replace_extension(&clean, "mp4")
    }
}

/// The `n`-th alternative for the taken name `name`, as `clip (1).mp4`
/// for `clip.mp4`. The caller probes `n` = 1, 2, ... until one is free.
pub fn alternative_name(name: &str, n: u64) -> (r: String)
    ensures
        r@ == numbered_name(name@, n as nat),
{
    let v = chars_of(name);
    let dot = extension_dot(&v);
    let end: usize = match dot {
        Some(d) => d,
        None => v.len(),
    };
    let mut out = slice(&v, 0, end);
    assert(out@ =~= stem_of(v@));
    out.push(' ');
    out.push('(');
    push_decimal(&mut out, n);
    out.push(')');
    match dot {
        Some(d) => {
            out.push('.');
            let ghost head = out@;
            let mut i: usize = d + 1;
            while i < v.len()
                invariant
                    d + 1 <= i <= v.len(),
                    out@ == head + v@.subrange(d + 1, i as int),
                decreases v.len() - i,
            {
                out.push(v[i]);
                assert(head + v@.subrange(d + 1, i as int + 1) =~= (head + v@.subrange(
                    d + 1,
                    i as int,
                )).push(v@[i as int]));
                i = i + 1;
            }
            assert(v@.subrange(d + 1, v@.len() as int) =~= extension_of(v@));
            assert(out@ =~= numbered_name(v@, n as nat));
        },
        None => {
            assert(out@ =~= numbered_name(v@, n as nat));
        },
    }
    string_of(&out)
}

/// The `n`-th name that is tried: the name itself, then its numbered
/// alternatives.
pub open spec fn probe_name(name: Seq<char>, n: nat) -> Seq<char> {
    if n == 0 {
        name
    } else {
        numbered_name(name, n)
    }
}

/// Whether probe `n` is the first that is not among the taken names.
pub open spec fn is_first_free(name: Seq<char>, taken: Seq<Seq<char>>, n: nat) -> bool {
    &&& !taken.contains(probe_name(name, n))
    &&& forall|m: nat| m < n ==> taken.contains(#[trigger] probe_name(name, m))
}

/// At most one probe is the first free one: the names that exist decide
/// the name that is written to.
pub proof fn lemma_first_free_is_unique(name: Seq<char>, taken: Seq<Seq<char>>, n: nat, m: nat)
    requires
        is_first_free(name, taken, n),
        is_first_free(name, taken, m),
    ensures
        n == m,
{
    if n < m {
        assert(taken.contains(probe_name(name, n)));
    } else if m < n {
        assert(taken.contains(probe_name(name, m)));
    }
}

/// Two probes with different numbers are different names.
pub proof fn lemma_probe_names_differ(name: Seq<char>, n: nat, m: nat)
    requires
        n != m,
    ensures
        probe_name(name, n) != probe_name(name, m),
{
    lemma_last_index_bounds(name, '.');
    lemma_decimal_round_trip(n);
    lemma_decimal_round_trip(m);
    let dn = decimal_digits(n);
    let dm = decimal_digits(m);
    if n == 0 {
        assert(numbered_name(name, m).len() > name.len());
    } else if m == 0 {
        assert(numbered_name(name, n).len() > name.len());
    } else if dn.len() != dm.len() {
        assert(numbered_name(name, n).len() != numbered_name(name, m).len());
    } else {
        if forall|i: int| 0 <= i < dn.len() ==> dn[i] == dm[i] {
            assert(dn =~= dm);
            assert(false);
        }
        let i = choose|i: int| 0 <= i < dn.len() && dn[i] != dm[i];
        let k = stem_of(name).len() + 2 + i;
        assert(numbered_name(name, n)[k] == dn[i]);
        assert(numbered_name(name, m)[k] == dm[i]);
    }
}

/// A list of names cannot hold more different probes than it has items:
/// one of the first probes is free.
pub proof fn lemma_some_probe_is_free(name: Seq<char>, taken: Seq<Seq<char>>)
    ensures
        exists|n: nat| n <= taken.len() && !taken.contains(#[trigger] probe_name(name, n)),
    decreases taken.len(),
{
    let top = taken.len();
    if taken.contains(probe_name(name, top)) {
        let k = choose|k: int| 0 <= k < taken.len() && taken[k] == probe_name(name, top);
        let rest = taken.remove(k);
        lemma_some_probe_is_free(name, rest);
        let n = choose|n: nat| n <= rest.len() && !rest.contains(#[trigger] probe_name(name, n));
        if taken.contains(probe_name(name, n)) {
            let j = choose|j: int| 0 <= j < taken.len() && taken[j] == probe_name(name, n);
            lemma_probe_names_differ(name, n, top);
            if j < k {
                assert(rest[j] == taken[j]);
            } else {
                assert(rest[j - 1] == taken[j]);
            }
            assert(false);
        }
        assert(n <= taken.len() && !taken.contains(probe_name(name, n)));
    }
}

/// The name to write to, given the names that exist: the name itself when
/// a session is resumed or the name is free, else its first numbered
/// alternative that is free.
pub fn unused_name(name: &str, taken: &Vec<String>, resume: bool) -> (r: String)
    ensures
        resume ==> r@ == name@,
        !resume ==> exists|n: nat|
            n <= taken.len() && is_first_free(name@, texts(taken@), n) && r@ == probe_name(
                name@,
                n,
            ),
{
    let first = String::from_str(name);
    if resume || !contains_text(taken, &first) {
        assert(first@ == probe_name(name@, 0));
        assert(!resume ==> is_first_free(name@, texts(taken@), 0));
        return first;
    }
    proof {
        lemma_some_probe_is_free(name@, texts(taken@));
    }
    let ghost free = choose|n: nat|
        n <= taken.len() && !texts(taken@).contains(#[trigger] probe_name(name@, n));
    let mut n: u64 = 0;
    loop
        invariant
            !resume,
            n < free <= taken.len(),
            !texts(taken@).contains(probe_name(name@, free)),
            forall|m: nat| m <= n ==> texts(taken@).contains(#[trigger] probe_name(name@, m)),
        decreases free - n,
    {
        n = n + 1;
        let probe = alternative_name(name, n);
        assert(probe@ == probe_name(name@, n as nat));
        if !contains_text(taken, &probe) {
            assert(is_first_free(name@, texts(taken@), n as nat));
            return probe;
        }
    }
}

/// An input without a query string whose last segment is a non-empty stem
/// followed by `.m3u8`, and which does not end in `.ts.m3u8`, gets that
/// same stem followed by `.ts`.
pub proof fn lemma_playlist_keeps_stem(input: Seq<char>)
    requires
        ".m3u8"@.is_suffix_of(input),
        !".ts.m3u8"@.is_suffix_of(input),
        !input.contains('?'),
        input.len() > 5,
        input[input.len() - 6] != '/',
    ensures
        last_segment(input) == stem_of(last_segment(input)) + ".m3u8"@,
        temp_name(input) == stem_of(last_segment(input)) + ".ts"@,
{
    reveal_strlit(".m3u8");
    reveal_strlit(".ts.m3u8");
    reveal_strlit(".ts");
    reveal_strlit("ts");
    let n = input.len() as int;
    let lit = ".m3u8"@;
    assert(input.subrange(n - 5, n) == lit);
    assert forall|i: int| 0 <= i < 5 implies input[n - 5 + i] == lit[i] by {
        assert(input.subrange(n - 5, n)[i] == input[n - 5 + i]);
    }
    assert(input[n - 5] == '.' && input[n - 4] == 'm' && input[n - 3] == '3' && input[n - 2] == 'u'
        && input[n - 1] == '8') by {
        assert(input[n - 5 + 0] == lit[0]);
        assert(input[n - 5 + 1] == lit[1]);
        assert(input[n - 5 + 2] == lit[2]);
        assert(input[n - 5 + 3] == lit[3]);
        assert(input[n - 5 + 4] == lit[4]);
    }
    crate::text::lemma_first_index_bounds(input, '?');
    if crate::text::first_index(input, '?') < n {
        assert(input.contains(input[crate::text::first_index(input, '?')]));
    }
    assert(before_first(input, '?') =~= input);
    lemma_last_index_bounds(input, '/');
    let l = last_index(input, '/');
    assert(l <= n - 6);
    let name = last_segment(input);
    assert(name == input.skip(l));
    let m = name.len() as int;
    assert(m == n - l);
    assert(name.subrange(m - 5, m) =~= lit);
    assert(is_playlist_name(name));
    if ".ts.m3u8"@.is_suffix_of(name) {
        assert(name.subrange(m - 8, m) =~= input.subrange(n - 8, n));
        assert(false);
    }
    lemma_last_index_bounds(name, '.');
    let k = last_index(name, '.');
    assert(name[m - 5] == '.');
    assert(name[m - 4] == 'm' && name[m - 3] == '3' && name[m - 2] == 'u' && name[m - 1] == '8');
    assert(k == m - 4);
    assert(!is_special_name(name));
    assert(has_extension(name));
    assert(name =~= stem_of(name) + lit);
    assert(stem_of(name) + seq!['.'] + "ts"@ =~= stem_of(name) + ".ts"@);
}

} // verus!

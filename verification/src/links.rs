//! Choosing among the playlist links found on a web page.

use crate::input::{classify, input_type_of, InputType};
use crate::text::{
    chars_of, contains_text, decimal_digits, push_decimal, string_of, string_of_range, texts,
};
use vstd::prelude::*;
use vstd::string::*;

verus! {

/// What to do with the links found on a page.
#[derive(Debug, Clone, PartialEq, Eq)]
pub enum Selection {
    /// Nothing was found on the page with this address: the run fails.
    NoPlaylist(String),
    /// One link was found: it is taken without asking.
    Single(String),
    /// Several links were found: the user picks one of these lines.
    Prompt(Vec<String>),
}

/// A number right-aligned in two columns.
pub open spec fn two_columns(n: nat) -> Seq<char> {
    if n < 10 {
        seq![' '] + decimal_digits(n)
    } else {
        decimal_digits(n)
    }
}

/// The line shown for the link with index `i`: its number, counted from
/// one, a bracket, a space, the link.
pub open spec fn entry_line(i: int, link: Seq<char>) -> Seq<char> {
    two_columns((i + 1) as nat) + seq![')', ' '] + link
}

/// The lines shown for a list of links.
pub open spec fn entry_lines(links: Seq<Seq<char>>) -> Seq<Seq<char>> {
    Seq::new(links.len(), |i: int| entry_line(i, links[i]))
}

/// The numbered lines for a list of links.
pub fn enumerate_links(links: &Vec<String>) -> (r: Vec<String>)
    ensures
        texts(r@) == entry_lines(texts(links@)),
{
    let mut r: Vec<String> = Vec::new();
    let mut i: usize = 0;
    while i < links.len()
        invariant
            i <= links.len(),
            r.len() == i,
            forall|j: int| 0 <= j < i ==> (#[trigger] r@[j])@ == entry_line(j, links@[j]@),
        decreases links.len() - i,
    {
        let mut line: Vec<char> = Vec::new();
        if i + 1 < 10 {
            line.push(' ');
        }
        push_decimal(&mut line, (i + 1) as u64);
        assert(line@ =~= two_columns((i + 1) as nat));
        line.push(')');
        line.push(' ');
        let mut text = string_of(&line);
        text.append(links[i].as_str());
        assert(text@ =~= entry_line(i as int, links@[i as int]@));
        r.push(text);
        i = i + 1;
    }
    assert(texts(r@) =~= entry_lines(texts(links@)));
    r
}

/// Decides what to do with the links found on the page `page`: fail on
/// none, take a single one, ask the user about several.
pub fn select_candidate(page: &str, links: &Vec<String>) -> (r: Selection)
    ensures
        links.len() == 0 ==> r is NoPlaylist && r->NoPlaylist_0@ == page@,
        links.len() == 1 ==> r is Single && r->Single_0@ == links@[0]@,
        links.len() >= 2 ==> r is Prompt && texts(r->Prompt_0@) == entry_lines(texts(links@)),
{
    if links.len() == 0 {
        Selection::NoPlaylist(String::from_str(page))
    } else if links.len() == 1 {
        Selection::Single(links[0].clone())
    } else {
        Selection::Prompt(enumerate_links(links))
    }
}

/// The link that the user picked, by its index counted from zero.
pub fn chosen_link(links: &Vec<String>, index: usize) -> (r: Option<String>)
    ensures
        r is Some <==> index < links.len(),
        r is Some ==> r->Some_0@ == links@[index as int]@,
{
    if index < links.len() {
        Some(links[index].clone())
    } else {
        None
    }
}

/// The failure text for a page on which no playlist was found.
pub fn no_playlist_message(page: &str) -> (r: String)
    ensures
        r@ == "No links found on website source: "@ + page@,
{
    let mut r = String::from_str("No links found on website source: ");
    r.append(page);
    r
}

/// Whether a character ends a link in running text: white space, a
/// quote, an angle or round bracket, a backslash.
pub open spec fn is_delimiter(c: char) -> bool {
    c == ' ' || c == '\t' || c == '\n' || c == '\r' || c == '"' || c == '\'' || c == '`' || c
        == '<' || c == '>' || c == '(' || c == ')' || c == '\\'
}

/// Number of characters in front of the first delimiter of `s`.
pub open spec fn first_delimiter(s: Seq<char>) -> int
    decreases s.len(),
{
    if s.len() == 0 {
        0
    } else if is_delimiter(s[0]) {
        0
    } else {
        1 + first_delimiter(s.drop_first())
    }
}

/// The pieces of `s` between its delimiters.
pub open spec fn tokens(s: Seq<char>) -> Seq<Seq<char>>
    decreases s.len(),
{
    let i = first_delimiter(s);
    if i < 0 || i >= s.len() {
        seq![s]
    } else {
        seq![s.take(i)] + tokens(s.skip(i + 1))
    }
}

/// Whether a piece of text looks like the URL of a playlist or manifest:
/// it starts with `http` and, its query string apart, ends in `.m3u`,
/// `.m3u8`, `.mpd` or `.xml`.
pub open spec fn is_link(t: Seq<char>) -> bool {
    input_type_of(t) == InputType::HlsUrl || input_type_of(t) == InputType::DashUrl
}

/// The links among the pieces, each once, in the order of their first
/// occurrence.
pub open spec fn links_in(pieces: Seq<Seq<char>>) -> Seq<Seq<char>>
    decreases pieces.len(),
{
    if pieces.len() == 0 {
        Seq::empty()
    } else {
        let found = links_in(pieces.drop_last());
        if is_link(pieces.last()) && !found.contains(pieces.last()) {
            found.push(pieces.last())
        } else {
            found
        }
    }
}

/// The links that a document holds.
pub open spec fn scraped_links(body: Seq<char>) -> Seq<Seq<char>> {
    links_in(tokens(body))
}

/// What is scraped holds nothing twice, and each item is a piece of the
/// text that looks like a link.
pub proof fn lemma_links_are_distinct(pieces: Seq<Seq<char>>)
    ensures
        links_in(pieces).no_duplicates(),
        forall|i: int|
            0 <= i < links_in(pieces).len() ==> is_link(#[trigger] links_in(pieces)[i])
                && pieces.contains(links_in(pieces)[i]),
    decreases pieces.len(),
{
    if pieces.len() > 0 {
        let rest = pieces.drop_last();
        lemma_links_are_distinct(rest);
        let found = links_in(rest);
        assert forall|i: int| 0 <= i < links_in(pieces).len() implies is_link(
            #[trigger] links_in(pieces)[i],
        ) && pieces.contains(links_in(pieces)[i]) by {
            if i < found.len() {
                let k = choose|k: int| 0 <= k < rest.len() && rest[k] == found[i];
                assert(pieces[k] == found[i]);
            } else {
                assert(pieces[pieces.len() - 1] == pieces.last());
            }
        }
    }
}

/// The pieces of a document between its delimiters.
pub fn split_tokens(body: &str) -> (r: Vec<String>)
    ensures
        texts(r@) == tokens(body@),
{
    let v = chars_of(body);
    let mut r: Vec<String> = Vec::new();
    let mut start: usize = 0;
    let mut open: bool = true;
    assert(v@.skip(0) =~= v@);
    while open
        invariant
            start <= v.len(),
            open ==> tokens(v@) == texts(r@) + tokens(v@.skip(start as int)),
            !open ==> tokens(v@) == texts(r@),
        decreases v.len() - start + (if open { 1int } else { 0int }),
    {
        let ghost rest = v@.skip(start as int);
        let ghost before = texts(r@);
        let mut i: usize = start;
        while i < v.len() && !delimiter(v[i])
            invariant
                start <= i <= v.len(),
                rest == v@.skip(start as int),
                first_delimiter(rest) == (i - start) + first_delimiter(v@.skip(i as int)),
            decreases v.len() - i,
        {
            assert(v@.skip(i as int).drop_first() =~= v@.skip(i as int + 1));
            i = i + 1;
        }
        assert(first_delimiter(rest) == i - start);
        let piece = string_of_range(&v, start, i);
        assert(v@.subrange(start as int, i as int) =~= rest.take(i - start));
        r.push(piece);
        assert(texts(r@) =~= before.push(piece@));
        if i < v.len() {
            assert(rest.skip(i - start + 1) =~= v@.skip(i as int + 1));
            assert(before + (seq![rest.take(i - start)] + tokens(v@.skip(i as int + 1)))
                =~= before.push(piece@) + tokens(v@.skip(i as int + 1)));
            start = i + 1;
        } else {
            assert(rest.take(i - start) =~= rest);
            assert(before + seq![rest] =~= before.push(piece@));
            start = i;
            open = false;
        }
    }
    r
}

fn delimiter(c: char) -> (b: bool)
    ensures
        b == is_delimiter(c),
{
    c == ' ' || c == '\t' || c == '\n' || c == '\r' || c == '"' || c == '\'' || c == '`' || c
        == '<' || c == '>' || c == '(' || c == ')' || c == '\\'
}

/// Whether a piece of text looks like the URL of a playlist or manifest.
pub fn looks_like_link(t: &str) -> (b: bool)
    ensures
        b == is_link(t@),
{
    let c = classify(t);
    c.is_hls() && !matches!(c, InputType::HlsLocalFile) || c.is_dash() && !matches!(
        c,
        InputType::DashLocalFile
    )
}

/// Scans a document for the URLs of playlists and manifests. The text is
/// cut at delimiters; a piece is a link if it looks like one; each link
/// is listed once, in the order of its first occurrence. A document
/// without links gives the empty list.
pub fn find_hls_dash_links(body: &str) -> (r: Vec<String>)
    ensures
        texts(r@) == scraped_links(body@),
{
    let pieces = split_tokens(body);
    let ghost all = texts(pieces@);
    let mut r: Vec<String> = Vec::new();
    let mut i: usize = 0;
    while i < pieces.len()
        invariant
            i <= pieces.len(),
            all == texts(pieces@),
            texts(r@) == links_in(all.take(i as int)),
        decreases pieces.len() - i,
    {
        let ghost before = texts(r@);
        assert(all.take(i as int + 1).drop_last() =~= all.take(i as int));
        assert(all.take(i as int + 1).last() == pieces@[i as int]@);
        if looks_like_link(pieces[i].as_str()) && !contains_text(&r, &pieces[i]) {
            r.push(pieces[i].clone());
            assert(texts(r@) =~= before.push(pieces@[i as int]@));
        }
        i = i + 1;
    }
    assert(all.take(pieces@.len() as int) =~= all);
    r
}

} // verus!

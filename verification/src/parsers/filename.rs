//! Filename recognition.
//!
//! A filename token is whitespace-delimited and must have the shape
//! "leading dots and slashes, then at least one byte that is not a dot,
//! then the expected extension (case-insensitively) ending the token".
//! A hidden file after the last slash (a dot right where the name should
//! start) is rejected.

use vstd::prelude::*;
use crate::parsers::bytes::{
    lemma_run_len, run_len, scan, starts_with_at, starts_with_nocase_at, tag_at, tag_nocase_at,
    ByteClass,
};

verus! {

/// The exact language of one filename token: returns the index the
/// remainder starts at and the matched token.
pub open spec fn recognize_filename_s(ext: Seq<u8>, s: Seq<u8>) -> Option<(int, Seq<u8>)> {
    let tok = run_len(s, 0, ByteClass::NotSpaceTab);
    if tok < 1 {
        None
    } else {
        let rest = tok + run_len(s, tok, ByteClass::Whitespace);
        let m = s.subrange(0, tok);
        let a = run_len(m, 0, ByteClass::DotSlash);
        let b = a + run_len(m, a, ByteClass::NotDot);
        if b <= a {
            None
        } else if b + ext.len() == tok && tag_nocase_at(m, b, ext) {
            Some((rest, m))
        } else {
            None
        }
    }
}

/// Recognises one whitespace-delimited filename with the given extension,
/// returning `(remainder, token)`.
pub fn recognize_filename<'a>(extension: &[u8], input: &'a [u8]) -> (r: Option<(&'a [u8], &'a [u8])>)
    ensures
        r is Some <==> recognize_filename_s(extension@, input@) is Some,
        r is Some ==> (r->0).0@ == input@.subrange(
            (recognize_filename_s(extension@, input@)->0).0,
            input@.len() as int,
        ),
        r is Some ==> (r->0).1@ == (recognize_filename_s(extension@, input@)->0).1,
{
    proof {
        lemma_run_len(input@, 0, ByteClass::NotSpaceTab);
    }
    let tok = scan(input, 0, ByteClass::NotSpaceTab);
    if tok < 1 {
        return None;
    }
    proof {
        lemma_run_len(input@, tok as int, ByteClass::Whitespace);
    }
    let rest = scan(input, tok, ByteClass::Whitespace);
    let m = vstd::slice::slice_subrange(input, 0, tok);
    proof {
        lemma_run_len(m@, 0, ByteClass::DotSlash);
    }
    let a = scan(m, 0, ByteClass::DotSlash);
    proof {
        lemma_run_len(m@, a as int, ByteClass::NotDot);
    }
    let b = scan(m, a, ByteClass::NotDot);
    if b <= a {
        return None;
    }
    if m.len() - b != extension.len() {
        return None;
    }
    if !starts_with_nocase_at(m, b, extension) {
        return None;
    }
    Some((vstd::slice::slice_subrange(input, rest, input.len()), m))
}

/// The exact language of a keyword-introduced single filename line.
pub open spec fn parse_file_name_s(tag: Seq<u8>, ext: Seq<u8>, s: Seq<u8>) -> Option<(
    Seq<u8>,
    Seq<u8>,
)> {
    if !tag_at(s, 0, tag) {
        None
    } else {
        let p = tag.len() + run_len(s, tag.len() as int, ByteClass::Whitespace);
        let l = run_len(s, p, ByteClass::NotCrlf);
        if l < 1 {
            None
        } else {
            let rest = p + l + run_len(s, p + l, ByteClass::Whitespace);
            let line = s.subrange(p, p + l);
            match recognize_filename_s(ext, line) {
                None => None,
                Some((_, name)) => Some((s.subrange(rest, s.len() as int), name)),
            }
        }
    }
}

/// Parses `tag_string` followed by one filename; anything after the
/// filename on the same line is ignored.
pub fn parse_file_name<'a>(tag_string: &[u8], extension: &[u8], input: &'a [u8]) -> (r: Option<
    (&'a [u8], &'a [u8]),
>)
    ensures
        r is Some <==> parse_file_name_s(tag_string@, extension@, input@) is Some,
        r is Some ==> (r->0).0@ == (parse_file_name_s(tag_string@, extension@, input@)->0).0
            && (r->0).1@ == (parse_file_name_s(tag_string@, extension@, input@)->0).1,
{
    if !starts_with_at(input, 0, tag_string) {
        return None;
    }
    proof {
        lemma_run_len(input@, tag_string@.len() as int, ByteClass::Whitespace);
    }
    let p = scan(input, tag_string.len(), ByteClass::Whitespace);
    proof {
        lemma_run_len(input@, p as int, ByteClass::NotCrlf);
    }
    let q = scan(input, p, ByteClass::NotCrlf);
    if q == p {
        return None;
    }
    proof {
        lemma_run_len(input@, q as int, ByteClass::Whitespace);
    }
    let rest = scan(input, q, ByteClass::Whitespace);
    let line = vstd::slice::slice_subrange(input, p, q);
    match recognize_filename(extension, line) {
        None => None,
        Some((_, name)) => Some((vstd::slice::slice_subrange(input, rest, input.len()), name)),
    }
}

/// The filenames recognised one after another from the start of a line,
/// stopping at the first token that is not a well-formed filename.
pub open spec fn filenames_from(ext: Seq<u8>, line: Seq<u8>) -> Seq<Seq<u8>>
    decreases line.len(),
    via filenames_from_decreases
{
    match recognize_filename_s(ext, line) {
        None => Seq::empty(),
        Some((rest, name)) => seq![name] + filenames_from(
            ext,
            line.subrange(rest, line.len() as int),
        ),
    }
}

#[via_fn]
proof fn filenames_from_decreases(ext: Seq<u8>, line: Seq<u8>) {
    lemma_run_len(line, 0, ByteClass::NotSpaceTab);
    let tok = run_len(line, 0, ByteClass::NotSpaceTab);
    if tok >= 1 {
        lemma_run_len(line, tok, ByteClass::Whitespace);
    }
}

/// The exact language of a keyword-introduced list of filenames: at
/// least one filename on the line; trailing unrecognised text on the
/// line is ignored.
pub open spec fn parse_filenames_s(tag: Seq<u8>, ext: Seq<u8>, s: Seq<u8>) -> Option<(
    Seq<u8>,
    Seq<Seq<u8>>,
)> {
    if !tag_at(s, 0, tag) {
        None
    } else {
        let p = tag.len() + run_len(s, tag.len() as int, ByteClass::Whitespace);
        let l = run_len(s, p, ByteClass::NotCrlf);
        if l < 1 {
            None
        } else {
            let rest = p + l + run_len(s, p + l, ByteClass::Whitespace);
            let names = filenames_from(ext, s.subrange(p, p + l));
            if names.len() == 0 {
                None
            } else {
                Some((s.subrange(rest, s.len() as int), names))
            }
        }
    }
}

/// Parses `tag_string` followed by one or more filenames on one line.
pub fn parse_filenames<'a>(tag_string: &[u8], extension: &[u8], input: &'a [u8]) -> (r: Option<
    (&'a [u8], Vec<&'a [u8]>),
>)
    ensures
        r is Some <==> parse_filenames_s(tag_string@, extension@, input@) is Some,
        r is Some ==> (r->0).0@ == (parse_filenames_s(tag_string@, extension@, input@)->0).0
            && (r->0).1.deep_view() == (parse_filenames_s(tag_string@, extension@, input@)->0).1,
{
    if !starts_with_at(input, 0, tag_string) {
        return None;
    }
    proof {
        lemma_run_len(input@, tag_string@.len() as int, ByteClass::Whitespace);
    }
    let p = scan(input, tag_string.len(), ByteClass::Whitespace);
    proof {
        lemma_run_len(input@, p as int, ByteClass::NotCrlf);
    }
    let q = scan(input, p, ByteClass::NotCrlf);
    if q == p {
        return None;
    }
    proof {
        lemma_run_len(input@, q as int, ByteClass::Whitespace);
    }
    let rest_idx = scan(input, q, ByteClass::Whitespace);
    let mut line = vstd::slice::slice_subrange(input, p, q);
    let mut names: Vec<&'a [u8]> = Vec::new();
    proof {
        assert(names.deep_view() =~~= Seq::<Seq<u8>>::empty());
    }
    loop
        invariant
            p <= q <= input@.len(),
            names.deep_view() + filenames_from(extension@, line@) == filenames_from(
                extension@,
                input@.subrange(p as int, q as int),
            ),
        ensures
            names.deep_view() == filenames_from(extension@, input@.subrange(p as int, q as int)),
        decreases line@.len(),
    {
        match recognize_filename(extension, line) {
            None => {
                proof {
                    assert(names.deep_view() + filenames_from(extension@, line@)
                        =~~= names.deep_view());
                }
                break;
            },
            Some((next, name)) => {
                let ghost old_names = names.deep_view();
                names.push(name);
                proof {
                    assert(names.deep_view() =~~= old_names + seq![name@]);
                    assert(old_names + (seq![name@] + filenames_from(extension@, next@))
                        =~~= (old_names + seq![name@]) + filenames_from(extension@, next@));
                    lemma_run_len(line@, 0, ByteClass::NotSpaceTab);
                    let tok = run_len(line@, 0, ByteClass::NotSpaceTab);
                    lemma_run_len(line@, tok, ByteClass::Whitespace);
                }
                line = next;
            },
        }
    }
    if names.len() == 0 {
        return None;
    }
    Some((vstd::slice::slice_subrange(input, rest_idx, input.len()), names))
}

} // verus!

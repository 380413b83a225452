//! The version lister: which versions a release index advertises.
//!
//! A release index is free-form text. A line advertises a version where it
//! holds a path segment of the shape `/<major>.<minor>.<patch>/"`. With
//! pre-releases included, the version may go on with `-` and a tag of
//! letters, digits and hyphens. Each line gives at most one version, the one
//! that starts leftmost.
use crate::args::Args;
use crate::text::{split, split_text, text_of, views};
use vstd::prelude::*;

verus! {

/// A decimal digit: `0` to `9`.
pub open spec fn is_digit(c: char) -> bool {
    '0' <= c <= '9'
}

/// A character that a pre-release tag may hold: a letter from `a` to `z` in
/// either case, a digit or a hyphen.
pub open spec fn is_tag_char(c: char) -> bool {
    is_digit(c) || 'a' <= c <= 'z' || 'A' <= c <= 'Z' || c == '-'
}

/// `s` has the character `c` at position `i`.
pub open spec fn char_at(s: Seq<char>, i: int, c: char) -> bool {
    0 <= i < s.len() && s[i] == c
}

/// Where the longest run of digits that starts at `i` ends.
pub open spec fn digits_end(s: Seq<char>, i: int) -> int
    decreases s.len() - i,
{
    if 0 <= i < s.len() && is_digit(s[i]) {
        digits_end(s, i + 1)
    } else {
        i
    }
}

/// Where the longest run of tag characters that starts at `i` ends.
pub open spec fn tag_end(s: Seq<char>, i: int) -> int
    decreases s.len() - i,
{
    if 0 <= i < s.len() && is_tag_char(s[i]) {
        tag_end(s, i + 1)
    } else {
        i
    }
}

/// Where the release number `<major>.<minor>.<patch>` that starts at `i`
/// ends, if one starts there.
pub open spec fn release_end(s: Seq<char>, i: int) -> Option<int> {
    let major = digits_end(s, i);
    let minor = digits_end(s, major + 1);
    let patch = digits_end(s, minor + 1);
    if i < major && char_at(s, major, '.') && major + 1 < minor && char_at(s, minor, '.') && minor + 1
        < patch {
        Some(patch)
    } else {
        None
    }
}

/// Where the version that starts at `i` ends, if one starts there: a release
/// number and, with `include_prerelease`, the `-<tag>` that follows it.
pub open spec fn version_end(s: Seq<char>, i: int, include_prerelease: bool) -> Option<int> {
    match release_end(s, i) {
        None => None,
        Some(patch) => if include_prerelease && char_at(s, patch, '-') && patch + 1 < tag_end(
            s,
            patch + 1,
        ) {
            Some(tag_end(s, patch + 1))
        } else {
            Some(patch)
        },
    }
}

/// The segment is closed at `i`: a slash stands there, and a quote behind
/// it.
pub open spec fn closes(s: Seq<char>, i: int) -> bool {
    char_at(s, i, '/') && char_at(s, i + 1, '"')
}

/// The version advertised by the segment that starts with the slash at `i`.
pub open spec fn advert_at(s: Seq<char>, i: int, include_prerelease: bool) -> Option<Seq<char>> {
    if char_at(s, i, '/') {
        match version_end(s, i + 1, include_prerelease) {
            Some(end) => if closes(s, end) {
                Some(s.subrange(i + 1, end))
            } else {
                None
            },
            None => None,
        }
    } else {
        None
    }
}

/// The first version advertised at or after position `i` of the line.
pub open spec fn first_advert(s: Seq<char>, i: int, include_prerelease: bool) -> Option<
    Seq<char>,
>
    decreases s.len() - i,
{
    if i < 0 || i >= s.len() {
        None
    } else if advert_at(s, i, include_prerelease) is Some {
        advert_at(s, i, include_prerelease)
    } else {
        first_advert(s, i + 1, include_prerelease)
    }
}

/// The version that a line advertises, if it advertises one.
pub open spec fn advertised(line: Seq<char>, include_prerelease: bool) -> Option<Seq<char>> {
    first_advert(line, 0, include_prerelease)
}

/// The versions advertised by `lines`, in the order of the lines.
pub open spec fn listed(lines: Seq<Seq<char>>, include_prerelease: bool) -> Seq<Seq<char>>
    decreases lines.len(),
{
    if lines.len() == 0 {
        Seq::<Seq<char>>::empty()
    } else {
        let before = listed(lines.drop_last(), include_prerelease);
        match advertised(lines.last(), include_prerelease) {
            Some(version) => before.push(version),
            None => before,
        }
    }
}

/// The versions that the release index `text` advertises, top to bottom.
pub open spec fn listing(text: Seq<char>, include_prerelease: bool) -> Seq<Seq<char>> {
    listed(split(text, '\n'), include_prerelease)
}

fn digit(c: char) -> (yes: bool)
    ensures
        yes == is_digit(c),
{
    '0' <= c && c <= '9'
}

fn tag_char(c: char) -> (yes: bool)
    ensures
        yes == is_tag_char(c),
{
    digit(c) || ('a' <= c && c <= 'z') || ('A' <= c && c <= 'Z') || c == '-'
}

fn holds(line: &Vec<char>, i: usize, c: char) -> (yes: bool)
    ensures
        yes == char_at(line@, i as int, c),
{
    i < line.len() && line[i] == c
}

fn scan_digits(line: &Vec<char>, from: usize) -> (end: usize)
    requires
        from <= line.len(),
    ensures
        end == digits_end(line@, from as int),
        from <= end <= line.len(),
{
    let mut end: usize = from;
    while end < line.len() && digit(line[end])
        invariant
            from <= end <= line.len(),
            digits_end(line@, from as int) == digits_end(line@, end as int),
        decreases line.len() - end,
    {
        end += 1;
    }
    end
}

fn scan_tag(line: &Vec<char>, from: usize) -> (end: usize)
    requires
        from <= line.len(),
    ensures
        end == tag_end(line@, from as int),
        from <= end <= line.len(),
{
    let mut end: usize = from;
    while end < line.len() && tag_char(line[end])
        invariant
            from <= end <= line.len(),
            tag_end(line@, from as int) == tag_end(line@, end as int),
        decreases line.len() - end,
    {
        end += 1;
    }
    end
}

fn scan_release(line: &Vec<char>, from: usize) -> (end: Option<usize>)
    requires
        from <= line.len(),
    ensures
        match end {
            Some(e) => release_end(line@, from as int) == Some(e as int) && from < e
                <= line.len(),
            None => release_end(line@, from as int) is None,
        },
{
    let major = scan_digits(line, from);
    if major == from || !holds(line, major, '.') {
        return None;
    }
    let minor = scan_digits(line, major + 1);
    if minor == major + 1 || !holds(line, minor, '.') {
        return None;
    }
    let patch = scan_digits(line, minor + 1);
    if patch == minor + 1 {
        return None;
    }
    Some(patch)
}

fn scan_version(line: &Vec<char>, from: usize, include_prerelease: bool) -> (end: Option<usize>)
    requires
        from <= line.len(),
    ensures
        match end {
            Some(e) => version_end(line@, from as int, include_prerelease) == Some(e as int)
                && from < e <= line.len(),
            None => version_end(line@, from as int, include_prerelease) is None,
        },
{
    match scan_release(line, from) {
        None => None,
        Some(patch) => {
            if include_prerelease && holds(line, patch, '-') {
                let tag = scan_tag(line, patch + 1);
                if tag > patch + 1 {
                    return Some(tag);
                }
            }
            Some(patch)
        },
    }
}

fn scan_advert(line: &Vec<char>, i: usize, include_prerelease: bool) -> (found: Option<String>)
    ensures
        match found {
            Some(version) => advert_at(line@, i as int, include_prerelease) == Some(version@),
            None => advert_at(line@, i as int, include_prerelease) is None,
        },
{
    if i >= line.len() || line[i] != '/' {
        return None;
    }
    match scan_version(line, i + 1, include_prerelease) {
        None => None,
        Some(end) => {
            if holds(line, end, '/') && holds(line, end + 1, '"') {
                Some(text_of(line, i + 1, end))
            } else {
                None
            }
        },
    }
}

/// The version that `line` advertises: that of the leftmost segment of the
/// line that advertises one.
pub fn find_version(line: &Vec<char>, include_prerelease: bool) -> (found: Option<String>)
    ensures
        match found {
            Some(version) => advertised(line@, include_prerelease) == Some(version@),
            None => advertised(line@, include_prerelease) is None,
        },
{
    let mut i: usize = 0;
    while i < line.len()
        invariant
            i <= line.len(),
            advertised(line@, include_prerelease) == first_advert(
                line@,
                i as int,
                include_prerelease,
            ),
        decreases line.len() - i,
    {
        let found = scan_advert(line, i, include_prerelease);
        if found.is_some() {
            return found;
        }
        i += 1;
    }
    None
}

/// Lists the versions that the release index `contents` advertises, in the
/// order of its lines, repeats included. Lines that advertise nothing are
/// passed over.
pub fn capture_terraform_versions(args: Args, contents: &str) -> (versions: Vec<String>)
    ensures
        views(versions@) == listing(contents@, args.list_all),
{
    let lines = split_text(contents, '\n');
    let mut versions: Vec<String> = Vec::new();
    let mut k: usize = 0;
    while k < lines.len()
        invariant
            k <= lines.len(),
            views(lines@) == split(contents@, '\n'),
            views(versions@) == listed(views(lines@).take(k as int), args.list_all),
        decreases lines.len() - k,
    {
        let ghost done = views(lines@).take(k as int);
        let ghost next = views(lines@).take(k + 1);
        let ghost before = views(versions@);
        proof {
            assert(next.drop_last() =~= done);
            assert(next.last() == lines@[k as int]@);
        }
        match find_version(&lines[k], args.list_all) {
            Some(version) => {
                versions.push(version);
                proof {
                    assert(views(versions@) =~= before.push(version@));
                }
            },
            None => {},
        }
        k += 1;
    }
    proof {
        assert(views(lines@).take(lines@.len() as int) =~= views(lines@));
    }
    versions
}

} // verus!

//! What a version looks like, and what follows for the listings.
//!
//! The lister scans a line from left to right. This module says what the
//! scan finds in terms of the shape of the text alone, and proves the
//! relations between the two listing modes.
use crate::listing::{
    advert_at, advertised, char_at, closes, digits_end, first_advert, is_digit, is_tag_char, listed,
    listing, release_end, tag_end, version_end,
};
use crate::text::split;
use vstd::prelude::*;

verus! {

/// A number: one digit or more.
pub open spec fn is_number(s: Seq<char>) -> bool {
    s.len() > 0 && forall|k: int| 0 <= k < s.len() ==> is_digit(#[trigger] s[k])
}

/// A pre-release tag: one tag character or more.
pub open spec fn is_tag(s: Seq<char>) -> bool {
    s.len() > 0 && forall|k: int| 0 <= k < s.len() ==> is_tag_char(#[trigger] s[k])
}

/// `s` is cut by dots at `p` and `q` into three numbers.
pub open spec fn is_release_cut(s: Seq<char>, p: int, q: int) -> bool {
    &&& 0 <= p < q < s.len()
    &&& is_number(s.subrange(0, p))
    &&& s[p] == '.'
    &&& is_number(s.subrange(p + 1, q))
    &&& s[q] == '.'
    &&& is_number(s.subrange(q + 1, s.len() as int))
}

/// A release version: `<major>.<minor>.<patch>`.
pub open spec fn is_release(s: Seq<char>) -> bool {
    exists|p: int, q: int| is_release_cut(s, p, q)
}

/// `s` is a release up to `d`, a hyphen at `d`, and a tag after it.
pub open spec fn is_prerelease_cut(s: Seq<char>, d: int) -> bool {
    &&& 0 <= d < s.len()
    &&& is_release(s.subrange(0, d))
    &&& s[d] == '-'
    &&& is_tag(s.subrange(d + 1, s.len() as int))
}

/// A pre-release version: a release, a hyphen and a tag.
pub open spec fn is_prerelease(s: Seq<char>) -> bool {
    exists|d: int| is_prerelease_cut(s, d)
}

/// The segment of `line` that starts with the slash at `i` holds the version
/// `line[i + 1..end]` and is closed at `end`.
pub open spec fn is_advert(line: Seq<char>, i: int, end: int, include_prerelease: bool) -> bool {
    &&& char_at(line, i, '/')
    &&& i + 1 <= end <= line.len()
    &&& is_release(line.subrange(i + 1, end)) || (include_prerelease && is_prerelease(
        line.subrange(i + 1, end),
    ))
    &&& closes(line, end)
}

/// A run of digits ends where the text ends or another character stands, and
/// nowhere before.
pub proof fn lemma_digits_end(s: Seq<char>, i: int)
    requires
        0 <= i <= s.len(),
    ensures
        i <= digits_end(s, i) <= s.len(),
        forall|k: int| i <= k < digits_end(s, i) ==> is_digit(#[trigger] s[k]),
        digits_end(s, i) < s.len() ==> !is_digit(s[digits_end(s, i)]),
    decreases s.len() - i,
{
    if i < s.len() && is_digit(s[i]) {
        lemma_digits_end(s, i + 1);
    }
}

/// A stretch of digits that cannot be made longer is the run of digits.
pub proof fn lemma_digits_end_is(s: Seq<char>, i: int, end: int)
    requires
        0 <= i <= end <= s.len(),
        forall|k: int| i <= k < end ==> is_digit(#[trigger] s[k]),
        end < s.len() ==> !is_digit(s[end]),
    ensures
        digits_end(s, i) == end,
    decreases end - i,
{
    if i < end {
        lemma_digits_end_is(s, i + 1, end);
    }
}

/// A run of tag characters ends where the text ends or another character
/// stands, and nowhere before.
pub proof fn lemma_tag_end(s: Seq<char>, i: int)
    requires
        0 <= i <= s.len(),
    ensures
        i <= tag_end(s, i) <= s.len(),
        forall|k: int| i <= k < tag_end(s, i) ==> is_tag_char(#[trigger] s[k]),
        tag_end(s, i) < s.len() ==> !is_tag_char(s[tag_end(s, i)]),
    decreases s.len() - i,
{
    if i < s.len() && is_tag_char(s[i]) {
        lemma_tag_end(s, i + 1);
    }
}

/// A stretch of tag characters that cannot be made longer is the run of tag
/// characters.
pub proof fn lemma_tag_end_is(s: Seq<char>, i: int, end: int)
    requires
        0 <= i <= end <= s.len(),
        forall|k: int| i <= k < end ==> is_tag_char(#[trigger] s[k]),
        end < s.len() ==> !is_tag_char(s[end]),
    ensures
        tag_end(s, i) == end,
    decreases end - i,
{
    if i < end {
        lemma_tag_end_is(s, i + 1, end);
    }
}

/// A release holds digits and dots only.
pub proof fn lemma_release_chars(s: Seq<char>)
    requires
        is_release(s),
    ensures
        s.len() >= 5,
        forall|k: int| 0 <= k < s.len() ==> is_digit(#[trigger] s[k]) || s[k] == '.',
        is_digit(s[0]),
        is_digit(s.last()),
{
    let (p, q) = choose|p: int, q: int| is_release_cut(s, p, q);
    let major = s.subrange(0, p);
    let minor = s.subrange(p + 1, q);
    let patch = s.subrange(q + 1, s.len() as int);
    assert forall|k: int| 0 <= k < s.len() implies is_digit(#[trigger] s[k]) || s[k] == '.' by {
        if k < p {
            assert(s[k] == major[k]);
        } else if p < k < q {
            assert(s[k] == minor[k - (p + 1)]);
        } else if q < k {
            assert(s[k] == patch[k - (q + 1)]);
        }
    }
    assert(s[0] == major[0]);
    assert(s.last() == patch[patch.len() - 1]);
}

/// A release is no pre-release, and a pre-release is no release: only the
/// second holds a hyphen.
pub proof fn lemma_release_or_prerelease(s: Seq<char>)
    ensures
        is_release(s) ==> !s.contains('-'),
        is_prerelease(s) ==> s.contains('-'),
        !(is_release(s) && is_prerelease(s)),
{
    if is_release(s) {
        lemma_release_chars(s);
        if s.contains('-') {
            let k = choose|k: int| 0 <= k < s.len() && s[k] == '-';
            assert(is_digit(s[k]) || s[k] == '.');
        }
    }
    if is_prerelease(s) {
        let d = choose|d: int| is_prerelease_cut(s, d);
        assert(s[d] == '-');
    }
}

/// Where the scan finds a release number, the text it has passed over is a
/// release.
pub proof fn lemma_release_end_sound(s: Seq<char>, i: int)
    requires
        0 <= i <= s.len(),
        release_end(s, i) is Some,
    ensures
        i < release_end(s, i)->0 <= s.len(),
        is_release(s.subrange(i, release_end(s, i)->0)),
        release_end(s, i)->0 < s.len() ==> !is_digit(s[release_end(s, i)->0]),
{
    let major = digits_end(s, i);
    lemma_digits_end(s, i);
    let minor = digits_end(s, major + 1);
    lemma_digits_end(s, major + 1);
    let patch = digits_end(s, minor + 1);
    lemma_digits_end(s, minor + 1);
    let v = s.subrange(i, patch);
    let p = major - i;
    let q = minor - i;
    assert(is_number(v.subrange(0, p))) by {
        assert forall|k: int| 0 <= k < p implies is_digit(#[trigger] v.subrange(0, p)[k]) by {
            assert(v.subrange(0, p)[k] == s[i + k]);
        }
    }
    assert(is_number(v.subrange(p + 1, q))) by {
        assert forall|k: int| 0 <= k < q - (p + 1) implies is_digit(
            #[trigger] v.subrange(p + 1, q)[k],
        ) by {
            assert(v.subrange(p + 1, q)[k] == s[major + 1 + k]);
        }
    }
    assert(is_number(v.subrange(q + 1, v.len() as int))) by {
        assert forall|k: int| 0 <= k < v.len() - (q + 1) implies is_digit(
            #[trigger] v.subrange(q + 1, v.len() as int)[k],
        ) by {
            assert(v.subrange(q + 1, v.len() as int)[k] == s[minor + 1 + k]);
        }
    }
    assert(is_release_cut(v, p, q));
}

/// Where a release stands in the text and no digit follows it, the scan
/// finds it.
pub proof fn lemma_release_end_complete(s: Seq<char>, i: int, end: int)
    requires
        0 <= i <= end <= s.len(),
        is_release(s.subrange(i, end)),
        end < s.len() ==> !is_digit(s[end]),
    ensures
        release_end(s, i) == Some(end),
{
    let v = s.subrange(i, end);
    let (p, q) = choose|p: int, q: int| is_release_cut(v, p, q);
    let major = v.subrange(0, p);
    let minor = v.subrange(p + 1, q);
    let patch = v.subrange(q + 1, v.len() as int);
    assert(s[i + p] == v[p]);
    assert(s[i + q] == v[q]);
    assert forall|k: int| i <= k < i + p implies is_digit(#[trigger] s[k]) by {
        assert(s[k] == major[k - i]);
    }
    lemma_digits_end_is(s, i, i + p);
    assert forall|k: int| i + p + 1 <= k < i + q implies is_digit(#[trigger] s[k]) by {
        assert(s[k] == minor[k - (i + p + 1)]);
    }
    lemma_digits_end_is(s, i + p + 1, i + q);
    assert forall|k: int| i + q + 1 <= k < end implies is_digit(#[trigger] s[k]) by {
        assert(s[k] == patch[k - (i + q + 1)]);
    }
    lemma_digits_end_is(s, i + q + 1, end);
}

/// What the scan reports for the segment at `i` is a version of the mode
/// asked for, it begins behind the slash at `i`, and the segment is closed
/// behind it.
pub proof fn lemma_advert_sound(line: Seq<char>, i: int, include_prerelease: bool)
    requires
        advert_at(line, i, include_prerelease) is Some,
    ensures
        is_advert(
            line,
            i,
            i + 1 + advert_at(line, i, include_prerelease)->0.len(),
            include_prerelease,
        ),
        advert_at(line, i, include_prerelease)->0 == line.subrange(
            i + 1,
            i + 1 + advert_at(line, i, include_prerelease)->0.len(),
        ),
        !include_prerelease ==> is_release(advert_at(line, i, include_prerelease)->0),
{
    let start = i + 1;
    let patch = release_end(line, start)->0;
    lemma_release_end_sound(line, start);
    let end = version_end(line, start, include_prerelease)->0;
    if end != patch {
        lemma_tag_end(line, patch + 1);
        let v = line.subrange(start, end);
        let d = patch - start;
        assert(v.subrange(0, d) =~= line.subrange(start, patch));
        assert(is_tag(v.subrange(d + 1, v.len() as int))) by {
            assert forall|k: int| 0 <= k < v.len() - (d + 1) implies is_tag_char(
                #[trigger] v.subrange(d + 1, v.len() as int)[k],
            ) by {
                assert(v.subrange(d + 1, v.len() as int)[k] == line[patch + 1 + k]);
            }
        }
        assert(is_prerelease_cut(v, d));
    }
}

/// Where a segment holds a version of the mode asked for and is closed behind
/// it, the scan reports that version.
pub proof fn lemma_advert_complete(line: Seq<char>, i: int, end: int, include_prerelease: bool)
    requires
        is_advert(line, i, end, include_prerelease),
    ensures
        advert_at(line, i, include_prerelease) == Some(line.subrange(i + 1, end)),
{
    let start = i + 1;
    let v = line.subrange(start, end);
    if is_release(v) {
        lemma_release_end_complete(line, start, end);
    } else {
        let d = choose|d: int| is_prerelease_cut(v, d);
        let tag = v.subrange(d + 1, v.len() as int);
        assert(v.subrange(0, d) =~= line.subrange(start, start + d));
        assert(line[start + d] == v[d]);
        lemma_release_end_complete(line, start, start + d);
        assert forall|k: int| start + d + 1 <= k < end implies is_tag_char(#[trigger] line[k]) by {
            assert(line[k] == tag[k - (start + d + 1)]);
        }
        lemma_tag_end_is(line, start + d + 1, end);
    }
}

/// A segment that advertises a release advertises the same release when
/// pre-releases are included. One that advertises a version with
/// pre-releases included advertises the same version without them, unless
/// that version is a pre-release: then it advertises nothing without them.
pub proof fn lemma_advert_modes(line: Seq<char>, i: int)
    ensures
        advert_at(line, i, false) is Some ==> advert_at(line, i, true) == advert_at(
            line,
            i,
            false,
        ),
        advert_at(line, i, true) is Some ==> {
            if is_prerelease(advert_at(line, i, true)->0) {
                advert_at(line, i, false) is None
            } else {
                advert_at(line, i, false) == advert_at(line, i, true)
            }
        },
{
    let start = i + 1;
    if advert_at(line, i, false) is Some {
        let patch = release_end(line, start)->0;
        assert(closes(line, patch));
        assert(!char_at(line, patch, '-'));
    }
    if advert_at(line, i, true) is Some {
        lemma_advert_sound(line, i, true);
        let v = advert_at(line, i, true)->0;
        lemma_release_or_prerelease(v);
        let patch = release_end(line, start)->0;
        let end = version_end(line, start, true)->0;
        if end != patch {
            lemma_release_end_sound(line, start);
            lemma_tag_end(line, patch + 1);
            assert(v[patch - start] == '-');
            assert(v.contains('-'));
        }
        if advert_at(line, i, false) is Some {
            lemma_advert_sound(line, i, false);
        }
    }
}

/// The version that a line advertises is the one of its leftmost advertising
/// segment.
pub proof fn lemma_first_advert(line: Seq<char>, from: int, include_prerelease: bool)
    requires
        0 <= from,
    ensures
        match first_advert(line, from, include_prerelease) {
            Some(version) => exists|i: int|
                from <= i < line.len() && #[trigger] advert_at(line, i, include_prerelease)
                    == Some(version) && forall|j: int|
                    from <= j < i ==> #[trigger] advert_at(line, j, include_prerelease) is None,
            None => forall|j: int|
                from <= j < line.len() ==> #[trigger] advert_at(line, j, include_prerelease)
                    is None,
        },
    decreases line.len() - from,
{
    if from < line.len() {
        if advert_at(line, from, include_prerelease) is Some {
        } else {
            lemma_first_advert(line, from + 1, include_prerelease);
            match first_advert(line, from + 1, include_prerelease) {
                Some(version) => {
                    let i = choose|i: int|
                        from + 1 <= i < line.len() && #[trigger] advert_at(
                            line,
                            i,
                            include_prerelease,
                        ) == Some(version) && forall|j: int|
                            from + 1 <= j < i ==> #[trigger] advert_at(
                                line,
                                j,
                                include_prerelease,
                            ) is None;
                    assert forall|j: int| from <= j < i implies #[trigger] advert_at(
                        line,
                        j,
                        include_prerelease,
                    ) is None by {}
                },
                None => {
                    assert forall|j: int| from <= j < line.len() implies #[trigger] advert_at(
                        line,
                        j,
                        include_prerelease,
                    ) is None by {}
                },
            }
        }
    }
}

/// A line advertises `version` exactly where one of its segments holds it
/// and is closed behind it, and no segment further left holds a version:
/// read from the text alone, without the scan.
pub proof fn lemma_advertised_is_leftmost(
    line: Seq<char>,
    version: Seq<char>,
    include_prerelease: bool,
)
    ensures
        advertised(line, include_prerelease) == Some(version) <==> exists|i: int, end: int|
            {
                &&& #[trigger] is_advert(line, i, end, include_prerelease)
                &&& version == line.subrange(i + 1, end)
                &&& forall|j: int, other: int|
                    0 <= j < i ==> !#[trigger] is_advert(line, j, other, include_prerelease)
            },
        advertised(line, include_prerelease) is None <==> forall|i: int, end: int|
            !#[trigger] is_advert(line, i, end, include_prerelease),
{
    lemma_first_advert(line, 0, include_prerelease);
    let found = advertised(line, include_prerelease);
    if found is Some {
        let i = choose|i: int|
            0 <= i < line.len() && #[trigger] advert_at(line, i, include_prerelease) == found
                && forall|j: int|
                0 <= j < i ==> #[trigger] advert_at(line, j, include_prerelease) is None;
        lemma_advert_sound(line, i, include_prerelease);
        let end = i + 1 + found->0.len();
        assert(is_advert(line, i, end, include_prerelease));
        assert forall|j: int, other: int| 0 <= j < i implies !#[trigger] is_advert(
            line,
            j,
            other,
            include_prerelease,
        ) by {
            if is_advert(line, j, other, include_prerelease) {
                lemma_advert_complete(line, j, other, include_prerelease);
            }
        }
    } else {
        assert forall|i: int, end: int| !#[trigger] is_advert(
            line,
            i,
            end,
            include_prerelease,
        ) by {
            if is_advert(line, i, end, include_prerelease) {
                lemma_advert_complete(line, i, end, include_prerelease);
            }
        }
    }
    if exists|i: int, end: int|
        {
            &&& #[trigger] is_advert(line, i, end, include_prerelease)
            &&& version == line.subrange(i + 1, end)
            &&& forall|j: int, other: int|
                0 <= j < i ==> !#[trigger] is_advert(line, j, other, include_prerelease)
        } {
        let (i, end) = choose|i: int, end: int|
            {
                &&& #[trigger] is_advert(line, i, end, include_prerelease)
                &&& version == line.subrange(i + 1, end)
                &&& forall|j: int, other: int|
                    0 <= j < i ==> !#[trigger] is_advert(line, j, other, include_prerelease)
            };
        lemma_advert_complete(line, i, end, include_prerelease);
        assert(found is Some);
        let k = choose|k: int|
            0 <= k < line.len() && #[trigger] advert_at(line, k, include_prerelease) == found
                && forall|j: int|
                0 <= j < k ==> #[trigger] advert_at(line, j, include_prerelease) is None;
        if k < i {
            lemma_advert_sound(line, k, include_prerelease);
            assert(is_advert(line, k, k + 1 + found->0.len(), include_prerelease));
        }
        assert(k == i);
    }
}

/// From any position on, a line that advertises a release without
/// pre-releases advertises something with them: the same release, or a
/// pre-release that stands further left. A line that advertises a release
/// with pre-releases included advertises the same release without them.
pub proof fn lemma_first_advert_modes(line: Seq<char>, from: int)
    ensures
        first_advert(line, from, false) is Some ==> first_advert(line, from, true) is Some && (
        first_advert(line, from, true) == first_advert(line, from, false) || is_prerelease(
            first_advert(line, from, true)->0,
        )),
        first_advert(line, from, true) is Some && !is_prerelease(
            first_advert(line, from, true)->0,
        ) ==> first_advert(line, from, false) == first_advert(line, from, true),
    decreases line.len() - from,
{
    if 0 <= from < line.len() {
        lemma_advert_modes(line, from);
        lemma_first_advert_modes(line, from + 1);
    }
}

/// A listing has at most one entry for each line.
pub proof fn lemma_listed_len(lines: Seq<Seq<char>>, include_prerelease: bool)
    ensures
        listed(lines, include_prerelease).len() <= lines.len(),
    decreases lines.len(),
{
    if lines.len() > 0 {
        lemma_listed_len(lines.drop_last(), include_prerelease);
    }
}

/// Every entry of a listing is a version: a release, or with pre-releases
/// included possibly a pre-release.
pub proof fn lemma_listed_versions(lines: Seq<Seq<char>>, include_prerelease: bool)
    ensures
        forall|k: int|
            0 <= k < listed(lines, include_prerelease).len() ==> is_release(
                #[trigger] listed(lines, include_prerelease)[k],
            ) || (include_prerelease && is_prerelease(listed(lines, include_prerelease)[k])),
    decreases lines.len(),
{
    if lines.len() > 0 {
        lemma_listed_versions(lines.drop_last(), include_prerelease);
        let line = lines.last();
        if advertised(line, include_prerelease) is Some {
            lemma_first_advert(line, 0, include_prerelease);
            let version = advertised(line, include_prerelease)->0;
            let i = choose|i: int|
                0 <= i < line.len() && #[trigger] advert_at(line, i, include_prerelease) == Some(
                    version,
                ) && forall|j: int|
                    0 <= j < i ==> #[trigger] advert_at(line, j, include_prerelease) is None;
            lemma_advert_sound(line, i, include_prerelease);
        }
        let before = listed(lines.drop_last(), include_prerelease);
        let now = listed(lines, include_prerelease);
        assert forall|k: int| 0 <= k < now.len() implies is_release(#[trigger] now[k]) || (
        include_prerelease && is_prerelease(now[k])) by {
            if k < before.len() {
                assert(now[k] == before[k]);
            }
        }
    }
}

/// A listing without pre-releases holds releases only: no entry has a
/// pre-release suffix, nor a hyphen at all.
pub proof fn lemma_strict_listing_has_no_prerelease(text: Seq<char>)
    ensures
        forall|k: int|
            0 <= k < listing(text, false).len() ==> {
                &&& is_release(#[trigger] listing(text, false)[k])
                &&& !is_prerelease(listing(text, false)[k])
                &&& !listing(text, false)[k].contains('-')
            },
{
    lemma_listed_versions(split(text, '\n'), false);
    assert forall|k: int| 0 <= k < listing(text, false).len() implies {
        &&& is_release(#[trigger] listing(text, false)[k])
        &&& !is_prerelease(listing(text, false)[k])
        &&& !listing(text, false)[k].contains('-')
    } by {
        lemma_release_or_prerelease(listing(text, false)[k]);
    }
}

/// Each entry of a listing is what one of the lines advertises, and what a
/// line advertises is an entry of the listing.
pub proof fn lemma_listed_entries(lines: Seq<Seq<char>>, include_prerelease: bool)
    ensures
        forall|v: Seq<char>|
            listed(lines, include_prerelease).contains(v) <==> exists|k: int|
                0 <= k < lines.len() && #[trigger] advertised(lines[k], include_prerelease)
                    == Some(v),
    decreases lines.len(),
{
    let now = listed(lines, include_prerelease);
    if lines.len() == 0 {
        assert forall|v: Seq<char>| !now.contains(v) by {}
    } else {
        let shorter = lines.drop_last();
        let before = listed(shorter, include_prerelease);
        let last = lines.len() - 1;
        lemma_listed_entries(shorter, include_prerelease);
        assert forall|v: Seq<char>| now.contains(v) implies exists|k: int|
            0 <= k < lines.len() && #[trigger] advertised(lines[k], include_prerelease) == Some(
                v,
            ) by {
            let at = choose|at: int| 0 <= at < now.len() && now[at] == v;
            if at < before.len() {
                assert(before[at] == v);
                assert(before.contains(v));
                let k = choose|k: int|
                    0 <= k < shorter.len() && #[trigger] advertised(
                        shorter[k],
                        include_prerelease,
                    ) == Some(v);
                assert(advertised(lines[k], include_prerelease) == Some(v));
            } else {
                assert(advertised(lines[last], include_prerelease) == Some(v));
            }
        }
        assert forall|v: Seq<char>|
            (exists|k: int|
                0 <= k < lines.len() && #[trigger] advertised(lines[k], include_prerelease)
                    == Some(v)) implies now.contains(v) by {
            let k = choose|k: int|
                0 <= k < lines.len() && #[trigger] advertised(lines[k], include_prerelease)
                    == Some(v);
            if k < last {
                assert(advertised(shorter[k], include_prerelease) == Some(v));
                assert(before.contains(v));
                let at = choose|at: int| 0 <= at < before.len() && before[at] == v;
                assert(now[at] == v);
            } else {
                assert(now[now.len() - 1] == v);
            }
        }
    }
}

/// The release that the line advertises without pre-releases is not what it
/// advertises with them.
pub open spec fn is_shadowed(line: Seq<char>) -> bool {
    advertised(line, false) is Some && advertised(line, true) != advertised(line, false)
}

/// A line whose release is not what it advertises with pre-releases included
/// advertises a pre-release then: one that stands further left than the
/// release.
pub proof fn lemma_shadowed_by_prerelease(line: Seq<char>)
    requires
        is_shadowed(line),
    ensures
        advertised(line, true) is Some,
        is_prerelease(advertised(line, true)->0),
{
    lemma_first_advert_modes(line, 0);
}

/// The listing with pre-releases holds every entry of the listing without
/// them.
pub open spec fn covers(lines: Seq<Seq<char>>) -> bool {
    forall|v: Seq<char>| listed(lines, false).contains(v) ==> listed(lines, true).contains(v)
}

/// Every release that a pre-release hides on its own line is advertised
/// with pre-releases included by some other line.
pub open spec fn shadowed_are_listed(lines: Seq<Seq<char>>) -> bool {
    forall|k: int|
        0 <= k < lines.len() && #[trigger] is_shadowed(lines[k]) ==> listed(lines, true).contains(
            advertised(lines[k], false)->0,
        )
}

/// The listing with pre-releases is never the shorter one. It holds every
/// entry of the listing without them exactly where each release that a
/// pre-release hides on its own line is advertised by another line; so it
/// does wherever no line holds a pre-release ahead of a release.
pub proof fn lemma_listed_modes(lines: Seq<Seq<char>>)
    ensures
        listed(lines, false).len() <= listed(lines, true).len(),
        covers(lines) <==> shadowed_are_listed(lines),
        (forall|k: int| 0 <= k < lines.len() ==> !#[trigger] is_shadowed(lines[k])) ==> covers(
            lines,
        ),
{
    lemma_listed_counts(lines);
    lemma_listed_entries(lines, false);
    lemma_listed_entries(lines, true);
    if covers(lines) {
        assert forall|k: int| 0 <= k < lines.len() && #[trigger] is_shadowed(
            lines[k],
        ) implies listed(lines, true).contains(advertised(lines[k], false)->0) by {
            let v = advertised(lines[k], false)->0;
            assert(advertised(lines[k], false) == Some(v));
            assert(listed(lines, false).contains(v));
        }
    }
    if shadowed_are_listed(lines) {
        assert forall|v: Seq<char>| listed(lines, false).contains(v) implies listed(
            lines,
            true,
        ).contains(v) by {
            let k = choose|k: int|
                0 <= k < lines.len() && #[trigger] advertised(lines[k], false) == Some(v);
            if is_shadowed(lines[k]) {
            } else {
                assert(advertised(lines[k], true) == Some(v));
            }
        }
    }
}

/// The listing with pre-releases has an entry for every line that the
/// listing without them has one for.
proof fn lemma_listed_counts(lines: Seq<Seq<char>>)
    ensures
        listed(lines, false).len() <= listed(lines, true).len(),
    decreases lines.len(),
{
    if lines.len() > 0 {
        lemma_listed_counts(lines.drop_last());
        lemma_first_advert_modes(lines.last(), 0);
    }
}

/// The listing of a release index with pre-releases has at least as many
/// entries as the one without. It holds every entry of the one without
/// exactly where each release that a pre-release hides on its own line is
/// advertised by another line.
pub proof fn lemma_inclusive_listing_covers_strict(text: Seq<char>)
    ensures
        listing(text, false).len() <= listing(text, true).len(),
        covers(split(text, '\n')) <==> shadowed_are_listed(split(text, '\n')),
        shadowed_are_listed(split(text, '\n')) ==> forall|v: Seq<char>|
            listing(text, false).contains(v) ==> listing(text, true).contains(v),
{
    lemma_listed_modes(split(text, '\n'));
}

} // verus!

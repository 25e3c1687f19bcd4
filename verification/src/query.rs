//! Interpreting the payload of a query command as album match candidates.
//!
//! Each payload line is classified by its leading code: `200` opens exactly
//! one exact match and ends the scan, `202` means no matches, `211` heads a
//! listing of inexact matches, and any other line is one inexact-match
//! candidate of the form `category discid artist / title`.

use vstd::prelude::*;
use vstd::string::*;

use crate::error::GnuDbError;
use crate::text::{
    find_sub_from, first_line, has_prefix, lemma_find_sub_from_props,
    lemma_split_of_joined, next_line, rest_after_line, split_once_at, split_once_char,
    starts_with_str, trim_spec, trim_str,
};
use crate::{Match, MatchModel};

verus! {

// ---------------------------------------------------------------------------
// Specification
// ---------------------------------------------------------------------------

/// The separator tried first between artist and title: a slash with a space
/// on either side.
pub open spec fn spaced_slash() -> Seq<char> {
    seq![' ', '/', ' ']
}

/// How an `artist / title` remainder divides: at the first `" / "` if one
/// occurs, else at the first `'/'`; both sides are trimmed. No slash at all
/// is a protocol failure.
pub open spec fn split_artist_title_spec(rem: Seq<char>) -> Result<
    (Seq<char>, Seq<char>),
    Seq<char>,
> {
    let k = find_sub_from(rem, spaced_slash(), 0);
    if 0 <= k && k + 3 <= rem.len() {
        Ok(
            (
                trim_spec(rem.subrange(0, k)),
                trim_spec(rem.subrange(k + 3, rem.len() as int)),
            ),
        )
    } else {
        match split_once_at(rem, '/') {
            Some((a, b)) => Ok((trim_spec(a), trim_spec(b))),
            None => Err("failed to parse artist/title"@),
        }
    }
}

/// One inexact-match line: `category`, then `discid`, then the artist/title
/// remainder, separated by single spaces. A line with too few fields or no
/// artist/title separator is a protocol failure.
pub open spec fn candidate_of_line(line: Seq<char>) -> Result<MatchModel, Seq<char>> {
    match split_once_at(line, ' ') {
        None => Err("failed to parse id"@),
        Some((cat, r1)) => match split_once_at(r1, ' ') {
            None => Err("failed to parse remainder"@),
            Some((id, rem)) => match split_artist_title_spec(rem) {
                Ok((artist, title)) => Ok(
                    MatchModel { discid: id, category: cat, artist, title },
                ),
                Err(e) => Err(e),
            },
        },
    }
}

/// An exact-match line: the `200` code, then `category`, `discid` and the
/// artist/title remainder.
pub open spec fn exact_of_line(line: Seq<char>) -> Result<MatchModel, Seq<char>> {
    match split_once_at(line, ' ') {
        None => Err("failed to parse exact match category"@),
        Some((code, r1)) => match split_once_at(r1, ' ') {
            None => Err("failed to parse exact match discid"@),
            Some((cat, r2)) => match split_once_at(r2, ' ') {
                None => Err("failed to parse exact match remainder"@),
                Some((id, rem)) => match split_artist_title_spec(rem) {
                    Ok((artist, title)) => Ok(
                        MatchModel { discid: id, category: cat, artist, title },
                    ),
                    Err(e) => Err(e),
                },
            },
        },
    }
}

/// What scanning a query payload yields: the match candidates in payload
/// order, or the text of the protocol failure on the first bad line.
pub open spec fn query_scan(rest: Seq<char>) -> Result<Seq<MatchModel>, Seq<char>>
    decreases rest.len(),
{
    if rest.len() == 0 {
        Ok(Seq::empty())
    } else {
        let line = first_line(rest);
        let tail = rest_after_line(rest);
        if has_prefix(line, "200"@) {
            match exact_of_line(line) {
                Ok(m) => Ok(seq![m]),
                Err(e) => Err(e),
            }
        } else if has_prefix(line, "202"@) {
            Ok(Seq::empty())
        } else if has_prefix(line, "211"@) {
            query_scan(tail)
        } else {
            match candidate_of_line(line) {
                Ok(m) => match query_scan(tail) {
                    Ok(ms) => Ok(seq![m] + ms),
                    Err(e) => Err(e),
                },
                Err(e) => Err(e),
            }
        }
    }
}

// ---------------------------------------------------------------------------
// Execution
// ---------------------------------------------------------------------------

/// Divides an `artist / title` remainder as [`split_artist_title_spec`]
/// describes, trimming both sides.
pub fn split_artist_title(remainder: &str) -> (r: Result<(String, String), GnuDbError>)
    ensures
        r is Ok <==> split_artist_title_spec(remainder@) is Ok,
        r matches Ok((a, t)) ==> (a@, t@) == split_artist_title_spec(remainder@)->Ok_0,
        r matches Err(e) ==> e matches GnuDbError::ProtocolError(m) && m@
            == split_artist_title_spec(remainder@)->Err_0,
{
    proof {
        reveal_strlit(" / ");
        assert(" / "@ =~= spaced_slash());
    }
    let n = remainder.unicode_len();
    match crate::text::find_str(remainder, " / ") {
        Some(k) => {
            proof {
                lemma_find_sub_from_props(remainder@, spaced_slash(), 0);
            }
            let a = trim_str(remainder.substring_char(0, k));
            let t = trim_str(remainder.substring_char(k + 3, n));
            Ok((String::from_str(a), String::from_str(t)))
        },
        None => match split_once_char(remainder, '/') {
            Some((a, b)) => Ok((String::from_str(trim_str(a)), String::from_str(trim_str(b)))),
            None => Err(
                GnuDbError::ProtocolError(String::from_str("failed to parse artist/title")),
            ),
        },
    }
}

/// Parses one inexact-match candidate line into a [`Match`].
pub fn parse_matches(line: &str) -> (r: Result<Match, GnuDbError>)
    ensures
        r is Ok <==> candidate_of_line(line@) is Ok,
        r matches Ok(m) ==> m@ == candidate_of_line(line@)->Ok_0,
        r matches Err(e) ==> e matches GnuDbError::ProtocolError(m) && m@
            == candidate_of_line(line@)->Err_0,
{
    match split_once_char(line, ' ') {
        None => Err(GnuDbError::ProtocolError(String::from_str("failed to parse id"))),
        Some((cat, r1)) => match split_once_char(r1, ' ') {
            None => Err(
                GnuDbError::ProtocolError(String::from_str("failed to parse remainder")),
            ),
            Some((id, rem)) => match split_artist_title(rem) {
                Ok((artist, title)) => Ok(
                    Match {
                        discid: String::from_str(id),
                        category: String::from_str(cat),
                        artist,
                        title,
                    },
                ),
                Err(e) => Err(e),
            },
        },
    }
}

/// Parses an exact-match line (code `200`) into a [`Match`].
fn parse_exact(line: &str) -> (r: Result<Match, GnuDbError>)
    ensures
        r is Ok <==> exact_of_line(line@) is Ok,
        r matches Ok(m) ==> m@ == exact_of_line(line@)->Ok_0,
        r matches Err(e) ==> e matches GnuDbError::ProtocolError(m) && m@ == exact_of_line(
            line@,
        )->Err_0,
{
    match split_once_char(line, ' ') {
        None => Err(
            GnuDbError::ProtocolError(
                String::from_str("failed to parse exact match category"),
            ),
        ),
        Some((_code, r1)) => match split_once_char(r1, ' ') {
            None => Err(
                GnuDbError::ProtocolError(
                    String::from_str("failed to parse exact match discid"),
                ),
            ),
            Some((cat, r2)) => match split_once_char(r2, ' ') {
                None => Err(
                    GnuDbError::ProtocolError(
                        String::from_str("failed to parse exact match remainder"),
                    ),
                ),
                Some((id, rem)) => match split_artist_title(rem) {
                    Ok((artist, title)) => Ok(
                        Match {
                            discid: String::from_str(id),
                            category: String::from_str(cat),
                            artist,
                            title,
                        },
                    ),
                    Err(e) => Err(e),
                },
            },
        },
    }
}

/// Scans the lines of a query payload from `rest` on.
fn query_rec(rest: &str) -> (r: Result<Vec<Match>, GnuDbError>)
    ensures
        r is Ok <==> query_scan(rest@) is Ok,
        r matches Ok(v) ==> v.deep_view() == query_scan(rest@)->Ok_0,
        r matches Err(e) ==> e matches GnuDbError::ProtocolError(m) && m@ == query_scan(
            rest@,
        )->Err_0,
    decreases rest@.len(),
{
    if rest.unicode_len() == 0 {
        let v: Vec<Match> = Vec::new();
        proof {
            assert(v.deep_view() =~= Seq::<MatchModel>::empty());
        }
        return Ok(v);
    }
    let (line, tail) = next_line(rest);
    if starts_with_str(line, "200") {
        match parse_exact(line) {
            Ok(m) => {
                let mut v: Vec<Match> = Vec::new();
                v.push(m);
                proof {
                    assert(v.deep_view() =~= seq![v@[0].deep_view()]);
                }
                Ok(v)
            },
            Err(e) => Err(e),
        }
    } else if starts_with_str(line, "202") {
        let v: Vec<Match> = Vec::new();
        proof {
            assert(v.deep_view() =~= Seq::<MatchModel>::empty());
        }
        Ok(v)
    } else if starts_with_str(line, "211") {
        query_rec(tail)
    } else {
        match parse_matches(line) {
            Ok(m) => match query_rec(tail) {
                Ok(mut v) => {
                    v.insert(0, m);
                    proof {
                        assert(v.deep_view() =~= seq![candidate_of_line(line@)->Ok_0]
                            + query_scan(tail@)->Ok_0);
                    }
                    Ok(v)
                },
                Err(e) => Err(e),
            },
            Err(e) => Err(e),
        }
    }
}

/// Interprets a framed query payload as its list of match candidates, in
/// payload order, as [`query_scan`] describes.
pub fn parse_query_response(response: &str) -> (r: Result<Vec<Match>, GnuDbError>)
    ensures
        r is Ok <==> query_scan(response@) is Ok,
        r matches Ok(v) ==> v.deep_view() == query_scan(response@)->Ok_0,
        r matches Err(e) ==> e matches GnuDbError::ProtocolError(m) && m@ == query_scan(
            response@,
        )->Err_0,
{
    query_rec(response)
}

// ---------------------------------------------------------------------------
// Laws
// ---------------------------------------------------------------------------

/// The lines of a listing joined with `'\n'` after each.
pub open spec fn join_candidate_lines(ls: Seq<Seq<char>>) -> Seq<char>
    decreases ls.len(),
{
    if ls.len() == 0 {
        Seq::empty()
    } else {
        ls[0] + "\n"@ + join_candidate_lines(ls.drop_first())
    }
}

/// A payload of nothing but well-formed candidate lines scans to exactly
/// those candidates, in order.
proof fn lemma_candidate_lines_scan(ls: Seq<Seq<char>>)
    requires
        forall|i: int| 0 <= i < ls.len() ==> (#[trigger] candidate_of_line(ls[i])) is Ok,
        forall|i: int| 0 <= i < ls.len() ==> !has_prefix(#[trigger] ls[i], "200"@)
            && !has_prefix(ls[i], "202"@) && !has_prefix(ls[i], "211"@),
        forall|i: int| 0 <= i < ls.len() ==> !(#[trigger] ls[i]).contains('\n') && (
        ls[i].len() > 0 ==> ls[i].last() != '\r'),
    ensures
        query_scan(join_candidate_lines(ls)) is Ok,
        query_scan(join_candidate_lines(ls))->Ok_0.len() == ls.len(),
        forall|i: int| 0 <= i < ls.len() ==> query_scan(join_candidate_lines(ls))->Ok_0[i]
            == (#[trigger] candidate_of_line(ls[i]))->Ok_0,
    decreases ls.len(),
{
    if ls.len() > 0 {
        let l = ls[0];
        let rest = join_candidate_lines(ls.drop_first());
        lemma_split_of_joined(l, rest);
        assert(ls[0] + "\n"@ + rest == join_candidate_lines(ls));
        assert(join_candidate_lines(ls).len() > 0);
        assert(forall|i: int| 0 <= i < ls.drop_first().len() ==> ls.drop_first()[i] == ls[i
            + 1]);
        lemma_candidate_lines_scan(ls.drop_first());
        let ms = query_scan(join_candidate_lines(ls))->Ok_0;
        let ms1 = query_scan(rest)->Ok_0;
        assert(ms == seq![candidate_of_line(l)->Ok_0] + ms1);
        assert forall|i: int| 0 <= i < ls.len() implies ms[i] == (#[trigger] candidate_of_line(
            ls[i],
        ))->Ok_0 by {
            if i > 0 {
                assert(ms[i] == ms1[i - 1]);
                assert(ls.drop_first()[i - 1] == ls[i]);
            }
        }
    }
}

/// An inexact-match listing scans to its candidates: a `211` header line
/// followed by N well-formed candidate lines yields exactly N matches, in
/// input order, with the header excluded.
pub proof fn lemma_inexact_listing(header: Seq<char>, ls: Seq<Seq<char>>)
    requires
        has_prefix(header, "211"@),
        !header.contains('\n'),
        header.len() > 0 ==> header.last() != '\r',
        forall|i: int| 0 <= i < ls.len() ==> (#[trigger] candidate_of_line(ls[i])) is Ok,
        forall|i: int| 0 <= i < ls.len() ==> !has_prefix(#[trigger] ls[i], "200"@)
            && !has_prefix(ls[i], "202"@) && !has_prefix(ls[i], "211"@),
        forall|i: int| 0 <= i < ls.len() ==> !(#[trigger] ls[i]).contains('\n') && (
        ls[i].len() > 0 ==> ls[i].last() != '\r'),
    ensures
        query_scan(header + "\n"@ + join_candidate_lines(ls)) is Ok,
        query_scan(header + "\n"@ + join_candidate_lines(ls))->Ok_0.len() == ls.len(),
        forall|i: int| 0 <= i < ls.len() ==> query_scan(
            header + "\n"@ + join_candidate_lines(ls),
        )->Ok_0[i] == (#[trigger] candidate_of_line(ls[i]))->Ok_0,
{
    let s = header + "\n"@ + join_candidate_lines(ls);
    lemma_split_of_joined(header, join_candidate_lines(ls));
    assert(!has_prefix(header, "200"@)) by {
        reveal_strlit("200");
        reveal_strlit("211");
        if has_prefix(header, "200"@) {
            assert("200"@[1] == "211"@[1]);
        }
    }
    assert(!has_prefix(header, "202"@)) by {
        reveal_strlit("202");
        reveal_strlit("211");
        if has_prefix(header, "202"@) {
            assert("202"@[1] == "211"@[1]);
        }
    }
    assert(s.len() > 0) by {
        reveal_strlit("\n");
    }
    lemma_candidate_lines_scan(ls);
}

} // verus!

//! Interpreting the payload of a read command as one disc record.
//!
//! The payload is line-oriented `KEY=VALUE` text. Recognised keys are
//! `DTITLE` (artist / title), `DYEAR`, `DGENRE`, `EXTD` (only as a fallback
//! source for the year) and `TTITLEn` (one track per line, `n` zero-based);
//! every other line is ignored. The record is folded up line by line, so
//! field order only matters where the rules below say it does.

use vstd::prelude::*;
use vstd::string::*;

use crate::error::GnuDbError;
use crate::text::{
    find_sub_from, first_line, first_ws_token, first_ws_token_str, has_prefix,
    lemma_find_sub_from_props, next_line, parse_u16, parse_u32, parse_uint_spec,
    rest_after_line, split_once_at, split_once_char, starts_with_str, trim_spec, trim_str,
};
use crate::{Disc, DiscModel, Track, TrackModel, empty_disc_model};

verus! {

// ---------------------------------------------------------------------------
// Specification
// ---------------------------------------------------------------------------

/// How one payload line changes the record being built, or the text of the
/// protocol failure it causes.
///
/// - `DTITLE=artist / title`: both sides of the first `'/'` are trimmed into
///   `artist` and `title`; with no `'/'` the whole value becomes the title.
/// - `DYEAR=value`: a valid year fills `year` only if no valid year has been
///   seen yet; an empty or malformed value is tolerated and changes nothing.
/// - `DGENRE=value`: a non-empty trimmed value fills `genre`.
/// - `EXTD` lines are only consulted while `year` is unset: if the line
///   contains `"YEAR:"`, the token after it must parse as a year — here a
///   malformed token is a hard failure, since the fallback has no fallback.
/// - `TTITLEn=title`: appends track `n + 1` with the title taken verbatim
///   and the artist copied from the record as known so far. A malformed
///   index, or one too large to number, is a hard failure.
pub open spec fn read_line_step(d: DiscModel, line: Seq<char>) -> Result<
    DiscModel,
    Seq<char>,
> {
    if has_prefix(line, "DTITLE="@) {
        let value = line.subrange(("DTITLE="@).len() as int, line.len() as int);
        match split_once_at(value, '/') {
            Some((a, b)) => Ok(
                DiscModel { artist: trim_spec(a), title: trim_spec(b), ..d },
            ),
            None => Ok(DiscModel { title: trim_spec(value), ..d }),
        }
    } else if has_prefix(line, "DYEAR="@) {
        let t = trim_spec(line.subrange(("DYEAR="@).len() as int, line.len() as int));
        if t.len() == 0 {
            Ok(d)
        } else {
            match parse_uint_spec(t, u16::MAX as nat) {
                Some(y) => if d.year is None {
                    Ok(DiscModel { year: Some(y as u16), ..d })
                } else {
                    Ok(d)
                },
                None => Ok(d),
            }
        }
    } else if has_prefix(line, "DGENRE="@) {
        let t = trim_spec(line.subrange(("DGENRE="@).len() as int, line.len() as int));
        if t.len() == 0 {
            Ok(d)
        } else {
            Ok(DiscModel { genre: Some(t), ..d })
        }
    } else if d.year is None && has_prefix(line, "EXTD"@) && find_sub_from(
        line,
        "YEAR:"@,
        0,
    ) >= 0 {
        let pos = find_sub_from(line, "YEAR:"@, 0);
        let after = line.subrange(pos + ("YEAR:"@).len() as int, line.len() as int);
        match first_ws_token(after) {
            None => Err("failed to parse EXTD YEAR"@),
            Some(tok) => match parse_uint_spec(tok, u16::MAX as nat) {
                Some(y) => Ok(DiscModel { year: Some(y as u16), ..d }),
                None => Err("failed to parse EXTD YEAR"@),
            },
        }
    } else if has_prefix(line, "TTITLE"@) {
        let rest = line.subrange(("TTITLE"@).len() as int, line.len() as int);
        match split_once_at(rest, '=') {
            None => Err("failed to parse TTITLE value"@),
            Some((idx, title)) => match parse_uint_spec(trim_spec(idx), u32::MAX as nat) {
                None => Err("failed to parse TTITLE index"@),
                Some(ix) => if ix == u32::MAX as nat {
                    Err("failed to parse TTITLE index"@)
                } else {
                    Ok(
                        DiscModel {
                            tracks: d.tracks.push(
                                TrackModel {
                                    number: (ix + 1) as u32,
                                    title: title,
                                    artist: d.artist,
                                    duration: 0,
                                    composer: None,
                                },
                            ),
                            ..d
                        },
                    )
                },
            },
        }
    } else {
        Ok(d)
    }
}

/// Folds [`read_line_step`] over the lines of `rest`, starting from `d`.
pub open spec fn read_scan(d: DiscModel, rest: Seq<char>) -> Result<DiscModel, Seq<char>>
    decreases rest.len(),
{
    if rest.len() == 0 {
        Ok(d)
    } else {
        match read_line_step(d, first_line(rest)) {
            Ok(d2) => read_scan(d2, rest_after_line(rest)),
            Err(e) => Err(e),
        }
    }
}

/// What parsing a read payload yields: the record folded up from nothing.
pub open spec fn parse_read_spec(payload: Seq<char>) -> Result<DiscModel, Seq<char>> {
    read_scan(empty_disc_model(), payload)
}

// ---------------------------------------------------------------------------
// Execution
// ---------------------------------------------------------------------------

/// Applies one payload line to the record, as [`read_line_step`] describes.
fn read_step(d: Disc, line: &str) -> (r: Result<Disc, GnuDbError>)
    ensures
        r is Ok <==> read_line_step(d.deep_view(), line@) is Ok,
        r matches Ok(d2) ==> d2.deep_view() == read_line_step(d.deep_view(), line@)->Ok_0,
        r matches Err(e) ==> e matches GnuDbError::ProtocolError(m) && m@ == read_line_step(
            d.deep_view(),
            line@,
        )->Err_0,
{
    let mut d = d;
    let n = line.unicode_len();
    if starts_with_str(line, "DTITLE=") {
        let m = "DTITLE=".unicode_len();
        let value = line.substring_char(m, n);
        match split_once_char(value, '/') {
            Some((a, b)) => {
                d.artist = String::from_str(trim_str(a));
                d.title = String::from_str(trim_str(b));
                Ok(d)
            },
            None => {
                d.title = String::from_str(trim_str(value));
                Ok(d)
            },
        }
    } else if starts_with_str(line, "DYEAR=") {
        let m = "DYEAR=".unicode_len();
        let t = trim_str(line.substring_char(m, n));
        if t.unicode_len() == 0 {
            Ok(d)
        } else {
            match parse_u16(t) {
                Some(y) => {
                    if d.year.is_none() {
                        d.year = Some(y);
                    }
                    Ok(d)
                },
                None => Ok(d),
            }
        }
    } else if starts_with_str(line, "DGENRE=") {
        let m = "DGENRE=".unicode_len();
        let t = trim_str(line.substring_char(m, n));
        if t.unicode_len() == 0 {
            Ok(d)
        } else {
            d.genre = Some(String::from_str(t));
            Ok(d)
        }
    } else if d.year.is_none() && starts_with_str(line, "EXTD") && crate::text::find_str(
        line,
        "YEAR:",
    ).is_some() {
        proof {
            lemma_find_sub_from_props(line@, "YEAR:"@, 0);
        }
        let pos = match crate::text::find_str(line, "YEAR:") {
            Some(p) => p,
            None => 0,
        };
        let pl = "YEAR:".unicode_len();
        let after = line.substring_char(pos + pl, n);
        match first_ws_token_str(after) {
            None => Err(
                GnuDbError::ProtocolError(String::from_str("failed to parse EXTD YEAR")),
            ),
            Some(tok) => match parse_u16(tok) {
                Some(y) => {
                    d.year = Some(y);
                    Ok(d)
                },
                None => Err(
                    GnuDbError::ProtocolError(
                        String::from_str("failed to parse EXTD YEAR"),
                    ),
                ),
            },
        }
    } else if starts_with_str(line, "TTITLE") {
        let m = "TTITLE".unicode_len();
        let rest = line.substring_char(m, n);
        match split_once_char(rest, '=') {
            None => Err(
                GnuDbError::ProtocolError(String::from_str("failed to parse TTITLE value")),
            ),
            Some((idx, title)) => match parse_u32(trim_str(idx)) {
                None => Err(
                    GnuDbError::ProtocolError(
                        String::from_str("failed to parse TTITLE index"),
                    ),
                ),
                Some(ix) => {
                    if ix == u32::MAX {
                        Err(
                            GnuDbError::ProtocolError(
                                String::from_str("failed to parse TTITLE index"),
                            ),
                        )
                    } else {
                        let ghost tracks0 = d.tracks.deep_view();
                        let track = Track {
                            number: ix + 1,
                            title: String::from_str(title),
                            artist: d.artist.clone(),
                            duration: 0,
                            composer: None,
                        };
                        let ghost tm = track.deep_view();
                        d.tracks.push(track);
                        proof {
                            assert(d.tracks.deep_view() =~= tracks0.push(tm));
                        }
                        Ok(d)
                    }
                },
            },
        }
    } else {
        Ok(d)
    }
}

/// Folds the lines of `rest` into the record, as [`read_scan`] describes.
fn read_rec(d: Disc, rest: &str) -> (r: Result<Disc, GnuDbError>)
    ensures
        r is Ok <==> read_scan(d.deep_view(), rest@) is Ok,
        r matches Ok(d2) ==> d2.deep_view() == read_scan(d.deep_view(), rest@)->Ok_0,
        r matches Err(e) ==> e matches GnuDbError::ProtocolError(m) && m@ == read_scan(
            d.deep_view(),
            rest@,
        )->Err_0,
    decreases rest@.len(),
{
    if rest.unicode_len() == 0 {
        return Ok(d);
    }
    let (line, tail) = next_line(rest);
    match read_step(d, line) {
        Ok(d2) => read_rec(d2, tail),
        Err(e) => Err(e),
    }
}

/// Interprets a framed read payload as one disc record, as
/// [`parse_read_spec`] describes: `KEY=VALUE` lines folded into the record,
/// unknown lines ignored, tolerated defects degrading single fields and
/// hard defects failing the parse.
pub fn parse_read_response(data: &str) -> (r: Result<Disc, GnuDbError>)
    ensures
        r is Ok <==> parse_read_spec(data@) is Ok,
        r matches Ok(d) ==> d.deep_view() == parse_read_spec(data@)->Ok_0,
        r matches Err(e) ==> e matches GnuDbError::ProtocolError(m) && m@ == parse_read_spec(
            data@,
        )->Err_0,
{
    read_rec(Disc::default(), data)
}

// ---------------------------------------------------------------------------
// Laws
// ---------------------------------------------------------------------------

/// Parsing is deterministic: the record a payload resolves to is a pure
/// function of the payload's characters, so any two parses of the same
/// payload yield structurally equal records.
pub proof fn lemma_parse_read_deterministic(payload: Seq<char>, d1: DiscModel, d2: DiscModel)
    requires
        parse_read_spec(payload) == Ok::<DiscModel, Seq<char>>(d1),
        parse_read_spec(payload) == Ok::<DiscModel, Seq<char>>(d2),
    ensures
        d1 == d2,
{
}

} // verus!

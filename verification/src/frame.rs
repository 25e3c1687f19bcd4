//! The response framer: turns the raw text of one server reply into its
//! logical payload.
//!
//! A reply opens with a status line whose first character classifies the
//! command (a `'4'` or `'5'` is a rejection) and whose second character says
//! whether a multi-line body follows (`'0'`: none, `'1'` or `'2'`: a body,
//! read until a line of a single `'.'`). Body lines arrive dot-stuffed: a
//! line beginning `".."` stands for one beginning `"."`.

use vstd::prelude::*;
use vstd::string::*;

use crate::error::GnuDbError;
use crate::text::{
    find_from, first_line, has_prefix, lemma_split_of_joined, rest_after_line,
    starts_with_str, str_eq, trim_newlines_end, trim_newlines_end_str, split_status,
    next_line,
};

verus! {

// ---------------------------------------------------------------------------
// Specification
// ---------------------------------------------------------------------------

/// The status line of a raw reply: the text before the first `'\n'`, or all
/// of it if none occurs. A `'\r'` before the `'\n'` stays, as the reply's
/// own text.
pub open spec fn status_line(raw: Seq<char>) -> Seq<char> {
    let p = find_from(raw, '\n', 0);
    if 0 <= p < raw.len() {
        raw.subrange(0, p)
    } else {
        raw
    }
}

/// The text after the status line's `'\n'`, or empty if the reply is the
/// status line alone.
pub open spec fn body_text(raw: Seq<char>) -> Seq<char> {
    let p = find_from(raw, '\n', 0);
    if 0 <= p < raw.len() {
        raw.subrange(p + 1, raw.len() as int)
    } else {
        Seq::empty()
    }
}

/// The server rejected or failed the command: the status line begins with
/// `'4'` or `'5'`.
pub open spec fn is_rejected(raw: Seq<char>) -> bool {
    let st = status_line(raw);
    st.len() > 0 && (st[0] == '4' || st[0] == '5')
}

/// A received body line with the dot-stuffing undone: a line beginning
/// `".."` loses its first character.
pub open spec fn unstuff(l: Seq<char>) -> Seq<char> {
    if has_prefix(l, ".."@) {
        l.drop_first()
    } else {
        l
    }
}

/// The payload of a multi-line body: each line up to (and not including) the
/// `"."` terminator, de-stuffed, with a `'\n'` after each.
pub open spec fn body_payload(rest: Seq<char>) -> Seq<char>
    decreases rest.len(),
{
    if rest.len() == 0 {
        Seq::empty()
    } else {
        let line = first_line(rest);
        let tail = rest_after_line(rest);
        if line == "."@ {
            Seq::empty()
        } else {
            unstuff(line) + "\n"@ + body_payload(tail)
        }
    }
}

/// What framing a raw reply yields: the logical payload, or the text of a
/// protocol failure.
///
/// A rejected status (`'4'`/`'5'`) fails with the status line itself; a
/// status line too short to have a second character fails with a fixed
/// description; second character `'0'` yields the status line (with its
/// `'\n'` if more text followed); `'1'` or `'2'` yield the de-stuffed body;
/// any other second character fails with the status line.
pub open spec fn frame_spec(raw: Seq<char>) -> Result<Seq<char>, Seq<char>> {
    let st = status_line(raw);
    if is_rejected(raw) {
        Err(st)
    } else if st.len() < 2 {
        Err("failed to parse response code"@)
    } else if st[1] == '0' {
        if find_from(raw, '\n', 0) >= 0 {
            Ok(st + "\n"@)
        } else {
            Ok(st)
        }
    } else if st[1] == '1' || st[1] == '2' {
        Ok(body_payload(body_text(raw)))
    } else {
        Err(st)
    }
}

// ---------------------------------------------------------------------------
// Execution
// ---------------------------------------------------------------------------

/// Builds the payload of a multi-line body, line by line.
fn frame_body(rest: &str) -> (out: String)
    ensures
        out@ == body_payload(rest@),
    decreases rest@.len(),
{
    if rest.unicode_len() == 0 {
        return String::new();
    }
    let (line, tail) = next_line(rest);
    if str_eq(line, ".") {
        return String::new();
    }
    let ll = line.unicode_len();
    let mut out: String = if starts_with_str(line, "..") {
        proof {
            reveal_strlit("..");
            assert(line@.drop_first() =~= line@.subrange(1, line@.len() as int));
        }
        String::from_str(line.substring_char(1, ll))
    } else {
        String::from_str(line)
    };
    out.append("\n");
    let more = frame_body(tail);
    out.append(more.as_str());
    proof {
        assert(out@ =~= unstuff(first_line(rest@)) + "\n"@ + body_payload(
            rest_after_line(rest@),
        ));
    }
    out
}

/// Frames one raw reply: resolves the status line, reads a multi-line body
/// if one is announced, undoes the dot-stuffing, and yields the logical
/// payload — or the protocol failure that [`frame_spec`] assigns to the
/// reply.
pub fn parse_raw_response(raw: &str) -> (r: Result<String, GnuDbError>)
    ensures
        r is Ok <==> frame_spec(raw@) is Ok,
        r matches Ok(p) ==> p@ == frame_spec(raw@)->Ok_0,
        r matches Err(e) ==> e matches GnuDbError::ProtocolError(m) && m@ == frame_spec(
            raw@,
        )->Err_0,
{
    proof {
        crate::text::lemma_find_from_props(raw@, '\n', 0);
    }
    let (status, has_nl, rest) = split_status(raw);
    let st_len = status.unicode_len();
    if st_len > 0 {
        let c0 = status.get_char(0);
        if c0 == '4' || c0 == '5' {
            return Err(GnuDbError::ProtocolError(String::from_str(status)));
        }
    }
    if st_len < 2 {
        return Err(
            GnuDbError::ProtocolError(String::from_str("failed to parse response code")),
        );
    }
    let c1 = status.get_char(1);
    if c1 == '0' {
        let mut p = String::from_str(status);
        if has_nl {
            p.append("\n");
        }
        return Ok(p);
    }
    if c1 != '1' && c1 != '2' {
        return Err(GnuDbError::ProtocolError(String::from_str(status)));
    }
    Ok(frame_body(rest))
}

// ---------------------------------------------------------------------------
// Reading a reply line by line
// ---------------------------------------------------------------------------
//
// A transport reads one line at a time. These two decisions — does the
// status line announce a body, and does a line of the body end it — are
// all the logic a reading loop needs.

/// Whether a status line announces a multi-line body: its second character
/// is `'1'` or `'2'`. A status line with fewer than two characters is a
/// protocol failure.
pub fn status_expects_body(status: &str) -> (r: Result<bool, GnuDbError>)
    ensures
        r is Ok <==> status@.len() >= 2,
        r matches Ok(b) ==> b == (status@[1] == '1' || status@[1] == '2'),
        r matches Err(e) ==> e matches GnuDbError::ProtocolError(m) && m@
            == "failed to parse response code"@,
{
    if status.unicode_len() < 2 {
        return Err(
            GnuDbError::ProtocolError(String::from_str("failed to parse response code")),
        );
    }
    let c1 = status.get_char(1);
    Ok(c1 == '1' || c1 == '2')
}

/// Whether a received line, once its trailing `'\r'`/`'\n'` characters are
/// set aside, is the body terminator `"."`.
pub fn is_terminator_line(line: &str) -> (r: bool)
    ensures
        r == (trim_newlines_end(line@) == "."@),
{
    str_eq(trim_newlines_end_str(line), ".")
}

// ---------------------------------------------------------------------------
// Laws
// ---------------------------------------------------------------------------

/// A valid single-line reply round-trips: when the status line's second
/// character is `'0'` and the reply holds no text beyond its own line
/// ending, the logical payload is the reply exactly.
pub proof fn lemma_single_line_round_trip(raw: Seq<char>)
    requires
        frame_spec(raw) is Ok,
        status_line(raw).len() >= 2,
        status_line(raw)[1] == '0',
        find_from(raw, '\n', 0) == -1 || find_from(raw, '\n', 0) == raw.len() - 1,
    ensures
        frame_spec(raw) == Ok::<Seq<char>, Seq<char>>(raw),
{
    let p = find_from(raw, '\n', 0);
    if p >= 0 {
        crate::text::lemma_find_from_props(raw, '\n', 0);
        reveal_strlit("\n");
        assert(status_line(raw) + "\n"@ =~= raw);
    }
}

/// What a sender does to a body line before putting it on the wire: a line
/// beginning `"."` has the `'.'` doubled, so that a line of a single `'.'`
/// can only mean the terminator.
pub open spec fn stuff_line(l: Seq<char>) -> Seq<char> {
    if has_prefix(l, "."@) {
        "."@ + l
    } else {
        l
    }
}

/// The lines of a body joined with `'\n'` after each: the payload a body of
/// exactly those lines should produce.
pub open spec fn join_lines(ls: Seq<Seq<char>>) -> Seq<char>
    decreases ls.len(),
{
    if ls.len() == 0 {
        Seq::empty()
    } else {
        ls[0] + "\n"@ + join_lines(ls.drop_first())
    }
}

/// The wire text a sender produces for a body of the given lines: each line
/// stuffed and terminated by `'\n'`, then the `"."` terminator line.
pub open spec fn stuffed_wire(ls: Seq<Seq<char>>) -> Seq<char>
    decreases ls.len(),
{
    if ls.len() == 0 {
        "."@ + "\n"@
    } else {
        stuff_line(ls[0]) + "\n"@ + stuffed_wire(ls.drop_first())
    }
}

/// Receiving undoes stuffing line by line: a stuffed `"..X"` line yields
/// `".X"`, and an unstuffed line comes through unchanged.
pub proof fn lemma_unstuff_stuffed(l: Seq<char>)
    ensures
        unstuff(stuff_line(l)) == l,
{
    reveal_strlit(".");
    reveal_strlit("..");
    if has_prefix(l, "."@) {
        assert(has_prefix("."@ + l, ".."@)) by {
            assert(l[0] == l.subrange(0, 1)[0]);
            assert(("."@ + l).subrange(0, 2) =~= ".."@);
        }
        assert(("."@ + l).drop_first() =~= l);
    } else {
        if has_prefix(l, ".."@) {
            assert(l.subrange(0, 1) =~= "."@);
        }
    }
}

/// Dot-stuffing round-trips: framing the wire text a sender produces for
/// any body of `'\n'`-free lines (none ending in `'\r'`) yields exactly
/// those lines joined with `'\n'` — stuffing then unstuffing is the
/// identity, and the terminator line never appears in the payload.
pub proof fn lemma_dot_stuffing_round_trip(ls: Seq<Seq<char>>)
    requires
        forall|i: int| 0 <= i < ls.len() ==> !(#[trigger] ls[i]).contains('\n'),
        forall|i: int| 0 <= i < ls.len() ==> ((#[trigger] ls[i]).len() > 0 ==> ls[i].last()
            != '\r'),
    ensures
        body_payload(stuffed_wire(ls)) == join_lines(ls),
    decreases ls.len(),
{
    reveal_strlit(".");
    reveal_strlit("..");
    reveal_strlit("\n");
    if ls.len() == 0 {
        let s = "."@ + "\n"@;
        assert(!("."@).contains('\n')) by {
            assert(forall|i: int| 0 <= i < 1 ==> ("."@)[i] == '.');
        }
        lemma_split_of_joined("."@, Seq::<char>::empty());
        assert(stuffed_wire(ls) =~= "."@ + "\n"@ + Seq::<char>::empty());
        assert(body_payload(stuffed_wire(ls)) =~= Seq::<char>::empty());
    } else {
        let l = ls[0];
        let y = stuff_line(l);
        let rest = stuffed_wire(ls.drop_first());
        assert(!y.contains('\n')) by {
            if has_prefix(l, "."@) {
                assert forall|i: int| 0 <= i < y.len() implies y[i] != '\n' by {
                    if i == 0 {
                        assert(y[0] == '.');
                    } else {
                        assert(y[i] == l[i - 1]);
                        assert(!(exists|k: int| 0 <= k < l.len() && l[k] == '\n'));
                    }
                }
            } else {
                assert(!(exists|k: int| 0 <= k < l.len() && l[k] == '\n'));
                assert(forall|k: int| 0 <= k < y.len() ==> y[k] == l[k]);
            }
        }
        assert(y.len() > 0 ==> y.last() != '\r') by {
            if has_prefix(l, "."@) {
                if l.len() > 0 {
                    assert(y.last() == l.last());
                }
            }
        }
        lemma_split_of_joined(y, rest);
        assert(stuffed_wire(ls).len() > 0);
        assert(y != "."@) by {
            if has_prefix(l, "."@) {
                assert(y.len() >= 2);
            } else {
                if l == "."@ {
                    assert(l.subrange(0, 1) =~= "."@);
                }
            }
        }
        lemma_unstuff_stuffed(l);
        lemma_dot_stuffing_round_trip(ls.drop_first());
        assert(body_payload(stuffed_wire(ls)) == l + "\n"@ + join_lines(ls.drop_first()));
    }
}

/// A rejected reply never yields a payload: a status line beginning with
/// `'4'` or `'5'` is framed as a protocol failure carrying that line.
pub proof fn lemma_rejection_is_protocol_failure(raw: Seq<char>)
    requires
        status_line(raw).len() > 0,
        status_line(raw)[0] == '4' || status_line(raw)[0] == '5',
    ensures
        frame_spec(raw) == Err::<Seq<char>, Seq<char>>(status_line(raw)),
{
}

} // verus!

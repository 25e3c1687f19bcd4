//! Building the outbound command strings of the protocol.
//!
//! A query command carries the disc's signature: its id, the number of
//! tracks, the per-track frame offsets and the total playing time in
//! seconds. A read command names the category and disc id of one match.

use vstd::prelude::*;
use vstd::string::*;

use crate::error::GnuDbError;
use crate::text::{dec_str, split_once_at, split_once_char, u32_dec};
use crate::{Match, MatchModel};

verus! {

/// What the query command is built from: the disc's plain values, as a TOC
/// reader supplies them.
///
/// `toc` is the space-separated TOC string `first last leadout off1 ... offN`;
/// the command keeps only what follows its third space. `sectors` is the
/// disc's total length in frames, 75 of which make a second.
#[derive(Debug, Clone, PartialEq)]
pub struct DiscInfo {
    pub freedb_id: String,
    pub first_track: u32,
    pub last_track: u32,
    pub toc: String,
    pub sectors: u32,
}

impl DiscInfo {
    /// Track numbers as a disc has them: counting starts at one and the
    /// last track is not before the first.
    pub open spec fn wf(&self) -> bool {
        1 <= self.first_track <= self.last_track
    }
}

/// What follows the third space of the TOC string, or `None` if it has
/// fewer than three spaces.
pub open spec fn toc_tail(toc: Seq<char>) -> Option<Seq<char>> {
    match split_once_at(toc, ' ') {
        None => None,
        Some((t1, r1)) => match split_once_at(r1, ' ') {
            None => None,
            Some((t2, r2)) => match split_once_at(r2, ' ') {
                None => None,
                Some((t3, r3)) => Some(r3),
            },
        },
    }
}

/// The text of a query command for the given disc values.
pub open spec fn query_cmd_spec(
    id: Seq<char>,
    count: nat,
    tail: Seq<char>,
    secs: nat,
) -> Seq<char> {
    "cddb query "@ + id + " "@ + dec_str(count) + " "@ + tail + " "@ + dec_str(secs)
        + "\n"@
}

/// Builds the query command for a disc: `cddb query <id> <track count>
/// <offsets> <seconds>`, newline-terminated. A TOC string with fewer than
/// three spaces cannot supply the offsets and is a protocol failure.
pub fn create_query_cmd(info: &DiscInfo) -> (r: Result<String, GnuDbError>)
    requires
        info.wf(),
    ensures
        r is Ok <==> toc_tail(info.toc@) is Some,
        r matches Ok(cmd) ==> cmd@ == query_cmd_spec(
            info.freedb_id@,
            (info.last_track - info.first_track + 1) as nat,
            toc_tail(info.toc@)->Some_0,
            (info.sectors / 75) as nat,
        ),
        r matches Err(e) ==> e matches GnuDbError::ProtocolError(m) && m@
            == "failed to parse toc"@,
{
    let tail = match split_once_char(info.toc.as_str(), ' ') {
        Some((_t1, r1)) => match split_once_char(r1, ' ') {
            Some((_t2, r2)) => match split_once_char(r2, ' ') {
                Some((_t3, r3)) => r3,
                None => {
                    return Err(
                        GnuDbError::ProtocolError(String::from_str("failed to parse toc")),
                    );
                },
            },
            None => {
                return Err(
                    GnuDbError::ProtocolError(String::from_str("failed to parse toc")),
                );
            },
        },
        None => {
            return Err(GnuDbError::ProtocolError(String::from_str("failed to parse toc")));
        },
    };
    let count = info.last_track - info.first_track + 1;
    let secs = info.sectors / 75;
    let mut cmd = String::from_str("cddb query ");
    cmd.append(info.freedb_id.as_str());
    cmd.append(" ");
    let count_s = u32_dec(count);
    cmd.append(count_s.as_str());
    cmd.append(" ");
    cmd.append(tail);
    cmd.append(" ");
    let secs_s = u32_dec(secs);
    cmd.append(secs_s.as_str());
    cmd.append("\n");
    Ok(cmd)
}

/// The text of a read command for one match.
pub open spec fn read_cmd_spec(m: MatchModel) -> Seq<char> {
    "cddb read "@ + m.category + " "@ + m.discid + "\n"@
}

/// Builds the read command for a chosen match: `cddb read <category>
/// <discid>`, newline-terminated.
pub fn create_read_cmd(single_match: &Match) -> (cmd: String)
    ensures
        cmd@ == read_cmd_spec(single_match@),
{
    let mut cmd = String::from_str("cddb read ");
    cmd.append(single_match.category.as_str());
    cmd.append(" ");
    cmd.append(single_match.discid.as_str());
    cmd.append("\n");
    cmd
}

} // verus!

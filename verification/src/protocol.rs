//! The line-oriented request/response protocol: terminator detection,
//! response collection, and the two response scans the client needs
//! (`file: ` result lines and the `playlistlength: ` status line).
//!
//! The byte stream itself is owned by the caller; everything here works
//! on lines already read from it, so a crafted list of lines exercises
//! the same logic a live server does.

use crate::numbers::parse_u64;
use crate::numbers::spec_all_digits;
use crate::numbers::spec_dec_value;
use crate::strutil::has_prefix;
use crate::strutil::is_prefix;
use crate::strutil::last_token;
use crate::strutil::spec_last_token;
use crate::strutil::spec_trim_newline;
use crate::strutil::trim_newline;
use crate::strutil::is_line_ws;
use crate::strutil::is_line_ws_char;
use vstd::prelude::*;

verus! {

/// Failure to establish the session: the greeting line did not start
/// with `OK`, or the stream could not be read at all.
#[derive(Clone, Copy, Debug, PartialEq, Eq, Structural)]
pub enum ConnectError {
    Io,
    BadGreeting,
}

/// Failure of one command round-trip: the stream broke (or ended before
/// a terminator), or the server answered with an `ACK` line carrying a
/// message.
#[derive(Debug)]
pub enum CommandError {
    Io,
    ServerRejected(String),
}

/// A success terminator: the token `OK` alone on its line, allowing
/// trailing blanks.
pub open spec fn spec_is_ok_terminator(s: Seq<char>) -> bool {
    s.len() >= 2 && s[0] == 'O' && s[1] == 'K' && (forall|i: int|
        2 <= i < s.len() ==> is_line_ws(s[i]))
}

/// An error terminator: a line starting with `ACK`.
pub open spec fn spec_is_ack(s: Seq<char>) -> bool {
    is_prefix("ACK"@, s)
}

/// The message carried by an error terminator: the line after its `ACK`
/// prefix, with the trailing newline removed.
pub open spec fn spec_ack_message(s: Seq<char>) -> Seq<char> {
    spec_trim_newline(s).skip(3)
}

/// Either kind of terminator line.
pub open spec fn spec_is_terminator_line(s: Seq<char>) -> bool {
    spec_is_ok_terminator(s) || spec_is_ack(s)
}

/// Whether the line is a success terminator.
pub fn is_ok_terminator(line: &str) -> (r: bool)
    ensures
        r == spec_is_ok_terminator(line@),
{
    proof {
        reveal_strlit("OK");
    }
    if !has_prefix(line, "OK") {
        proof {
            if spec_is_ok_terminator(line@) {
                assert("OK"@ =~= line@.subrange(0, 2));
            }
        }
        return false;
    }
    let n = line.unicode_len();
    proof {
        assert(line@.subrange(0, 2)[0] == line@[0]);
        assert(line@.subrange(0, 2)[1] == line@[1]);
    }
    let mut i: usize = 2;
    while i < n
        invariant
            2 <= i <= n == line@.len(),
            forall|j: int| 2 <= j < i ==> is_line_ws(line@[j]),
        decreases n - i,
    {
        if !is_line_ws_char(line.get_char(i)) {
            return false;
        }
        i += 1;
    }
    true
}

/// What one received line means for the round-trip in progress.
pub enum LineClass {
    OkTerminator,
    AckTerminator(String),
    Data(String),
}

/// Sorts one received line: a success terminator, an error terminator
/// with its message, or a data line with its trailing newline removed.
pub fn classify_line(line: &str) -> (r: LineClass)
    ensures
        match r {
            LineClass::OkTerminator => spec_is_ok_terminator(line@),
            LineClass::AckTerminator(m) => !spec_is_ok_terminator(line@) && spec_is_ack(line@)
                && m@ == spec_ack_message(line@),
            LineClass::Data(d) => !spec_is_terminator_line(line@) && d@ == spec_trim_newline(
                line@,
            ),
        },
{
    if is_ok_terminator(line) {
        return LineClass::OkTerminator;
    }
    if has_prefix(line, "ACK") {
        proof {
            reveal_strlit("ACK");
            assert(line@.subrange(0, 3)[0] == line@[0]);
            assert(line@.subrange(0, 3)[1] == line@[1]);
            assert(line@.subrange(0, 3)[2] == line@[2]);
        }
        let t = trim_newline(line);
        let tn = t.as_str().unicode_len();
        proof {
            assert(tn >= 3);
        }
        let m = t.as_str().substring_char(3, tn);
        proof {
            assert(m@ =~= spec_ack_message(line@));
        }
        return LineClass::AckTerminator(String::from_str(m));
    }
    proof {
        if spec_is_ack(line@) {
            assert("ACK"@ =~= line@.subrange(0, 3));
        }
    }
    LineClass::Data(trim_newline(line))
}

/// The position of the first terminator line, or the sequence's length
/// when no line is one.
pub open spec fn spec_term_index(lines: Seq<Seq<char>>) -> int
    decreases lines.len(),
{
    if lines.len() == 0 {
        0
    } else if spec_is_terminator_line(lines.first()) {
        0
    } else {
        1 + spec_term_index(lines.drop_first())
    }
}

/// Each line up to a given position is no terminator, and the line there
/// is one (or the position is the end): then that position is exactly
/// where the first terminator stands.
proof fn lemma_term_index_at(lines: Seq<Seq<char>>, i: int)
    requires
        0 <= i <= lines.len(),
        forall|j: int| 0 <= j < i ==> !spec_is_terminator_line(lines[j]),
        i < lines.len() ==> spec_is_terminator_line(lines[i]),
    ensures
        spec_term_index(lines) == i,
    decreases i,
{
    if i == 0 {
    } else {
        assert(!spec_is_terminator_line(lines.first()));
        lemma_term_index_at(lines.drop_first(), i - 1);
    }
}

/// Every line with its trailing newline removed.
pub open spec fn spec_trimmed(lines: Seq<Seq<char>>) -> Seq<Seq<char>> {
    lines.map_values(|l: Seq<char>| spec_trim_newline(l))
}

/// Collects one command's response from the lines received in order: on
/// a success terminator, every prior line, trimmed of its newline, in
/// receipt order; on an error terminator, the rejection and no partial
/// data; `Io` when the lines end before any terminator, as a broken
/// stream does.
pub fn parse_response(lines: &Vec<String>) -> (r: Result<Vec<String>, CommandError>)
    ensures
        ({
            let lv = lines.deep_view();
            let k = spec_term_index(lv);
            &&& (k == lv.len() ==> r matches Err(CommandError::Io))
            &&& (k < lv.len() && spec_is_ok_terminator(lv[k]) ==> (r matches Ok(data)
                && data.deep_view() == spec_trimmed(lv.take(k))))
            &&& (k < lv.len() && !spec_is_ok_terminator(lv[k]) ==> (r matches Err(
                CommandError::ServerRejected(m),
            ) && m@ == spec_ack_message(lv[k])))
        }),
{
    let ghost lv = lines.deep_view();
    let mut out: Vec<String> = Vec::new();
    let n = lines.len();
    let mut i: usize = 0;
    proof {
        assert(out.deep_view() =~= spec_trimmed(lv.take(0)));
    }
    while i < n
        invariant
            i <= n == lines@.len(),
            lv == lines.deep_view(),
            forall|j: int| 0 <= j < i ==> !spec_is_terminator_line(lv[j]),
            out.deep_view() == spec_trimmed(lv.take(i as int)),
        decreases n - i,
    {
        let ghost out_before = out.deep_view();
        proof {
            assert(lv[i as int] == lines@[i as int]@);
        }
        match classify_line(lines[i].as_str()) {
            LineClass::OkTerminator => {
                proof {
                    lemma_term_index_at(lv, i as int);
                }
                return Ok(out);
            },
            LineClass::AckTerminator(m) => {
                proof {
                    lemma_term_index_at(lv, i as int);
                }
                return Err(CommandError::ServerRejected(m));
            },
            LineClass::Data(d) => {
                let ghost dv = d@;
                out.push(d);
                proof {
                    assert(lv.take(i + 1) =~= lv.take(i as int).push(lv[i as int]));
                    assert(spec_trimmed(lv.take(i + 1)) =~= spec_trimmed(lv.take(i as int)).push(
                        spec_trim_newline(lv[i as int]),
                    ));
                    assert(out.deep_view() =~= out_before.push(dv));
                }
            },
        }
        i += 1;
    }
    proof {
        lemma_term_index_at(lv, n as int);
    }
    Err(CommandError::Io)
}

/// The file identifiers among a search response's lines: each line
/// starting with `file: `, with that prefix stripped, in receipt order.
pub open spec fn spec_extract_files(lines: Seq<Seq<char>>) -> Seq<Seq<char>>
    decreases lines.len(),
{
    if lines.len() == 0 {
        Seq::<Seq<char>>::empty()
    } else if is_prefix("file: "@, lines.last()) {
        spec_extract_files(lines.drop_last()).push(lines.last().skip(6))
    } else {
        spec_extract_files(lines.drop_last())
    }
}

/// Picks the file identifiers out of a response: every line beginning
/// with `file: `, the prefix stripped, in order.
pub fn extract_files(lines: &Vec<String>) -> (r: Vec<String>)
    ensures
        r.deep_view() == spec_extract_files(lines.deep_view()),
{
    let ghost lv = lines.deep_view();
    let mut out: Vec<String> = Vec::new();
    let n = lines.len();
    let mut i: usize = 0;
    proof {
        assert(lv.take(0) =~= Seq::<Seq<char>>::empty());
        assert(out.deep_view() =~= spec_extract_files(lv.take(0)));
    }
    while i < n
        invariant
            i <= n == lines@.len(),
            lv == lines.deep_view(),
            out.deep_view() == spec_extract_files(lv.take(i as int)),
        decreases n - i,
    {
        proof {
            reveal_strlit("file: ");
            assert(lv[i as int] == lines@[i as int]@);
            assert(lv.take(i + 1).drop_last() =~= lv.take(i as int));
            assert(lv.take(i + 1).last() == lv[i as int]);
        }
        let line = &lines[i];
        if has_prefix(line.as_str(), "file: ") {
            let ln = line.as_str().unicode_len();
            let ident = line.as_str().substring_char(6, ln);
            proof {
                assert(ident@ =~= lv[i as int].skip(6));
            }
            out.push(String::from_str(ident));
            proof {
                assert(out.deep_view() =~= spec_extract_files(lv.take(i + 1)));
            }
        }
        i += 1;
    }
    proof {
        assert(lv.take(n as int) =~= lv);
    }
    out
}

/// Judges the server's greeting line: the session may open only when it
/// starts with `OK`; any other first line is a fatal connect error.
pub fn check_greeting(line: &str) -> (r: Result<(), ConnectError>)
    ensures
        r is Ok <==> is_prefix("OK"@, line@),
        r is Err ==> r == Result::<(), ConnectError>::Err(ConnectError::BadGreeting),
{
    if has_prefix(line, "OK") {
        Ok(())
    } else {
        Err(ConnectError::BadGreeting)
    }
}

/// The status line the commit step needs.
pub open spec fn spec_is_pl_line(l: Seq<char>) -> bool {
    is_prefix("playlistlength: "@, l)
}

/// The position of the first `playlistlength: ` line, or the sequence's
/// length when there is none.
pub open spec fn spec_pl_index(lines: Seq<Seq<char>>) -> int
    decreases lines.len(),
{
    if lines.len() == 0 {
        0
    } else if spec_is_pl_line(lines.first()) {
        0
    } else {
        1 + spec_pl_index(lines.drop_first())
    }
}

proof fn lemma_pl_index_at(lines: Seq<Seq<char>>, i: int)
    requires
        0 <= i <= lines.len(),
        forall|j: int| 0 <= j < i ==> !spec_is_pl_line(lines[j]),
        i < lines.len() ==> spec_is_pl_line(lines[i]),
    ensures
        spec_pl_index(lines) == i,
    decreases i,
{
    if i == 0 {
    } else {
        assert(!spec_is_pl_line(lines.first()));
        lemma_pl_index_at(lines.drop_first(), i - 1);
    }
}

/// The playback-queue length a status response reports: the trailing
/// token of its first `playlistlength: ` line read as a decimal number.
/// `None` when no such line is present, the token is empty or not all
/// digits, or the value does not fit in 64 bits.
pub open spec fn spec_playlist_length(lines: Seq<Seq<char>>) -> Option<int> {
    let k = spec_pl_index(lines);
    if k == lines.len() {
        None
    } else {
        let tok = spec_last_token(lines[k]);
        if tok.len() > 0 && spec_all_digits(tok) && spec_dec_value(tok) <= u64::MAX {
            Some(spec_dec_value(tok))
        } else {
            None
        }
    }
}

/// Reads the insertion index out of a status response, as
/// `spec_playlist_length` defines it.
pub fn parse_playlist_length(lines: &Vec<String>) -> (r: Option<u64>)
    ensures
        r is Some <==> spec_playlist_length(lines.deep_view()) is Some,
        r matches Some(v) ==> spec_playlist_length(lines.deep_view()) == Some(v as int),
{
    let ghost lv = lines.deep_view();
    let n = lines.len();
    let mut i: usize = 0;
    while i < n
        invariant
            i <= n == lines@.len(),
            lv == lines.deep_view(),
            forall|j: int| 0 <= j < i ==> !spec_is_pl_line(lv[j]),
        decreases n - i,
    {
        proof {
            assert(lv[i as int] == lines@[i as int]@);
        }
        let line = &lines[i];
        if has_prefix(line.as_str(), "playlistlength: ") {
            proof {
                lemma_pl_index_at(lv, i as int);
            }
            let tok = last_token(line.as_str());
            return parse_u64(tok.as_str());
        }
        i += 1;
    }
    proof {
        lemma_pl_index_at(lv, n as int);
    }
    None
}

} // verus!

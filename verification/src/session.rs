//! The session's query and commit policy: which command each loop
//! iteration sends, what the commit sequence sends, and which rows a
//! frame draws. The caller owns the stream and the screen; everything
//! here turns plain values into plain values.

use crate::model::spec_display;
use crate::model::spec_fragments;
use crate::model::ConstraintModel;
use crate::model::FilterType;
use crate::numbers::spec_dec_string;
use crate::numbers::u64_to_string;
use crate::protocol::parse_playlist_length;
use crate::protocol::spec_playlist_length;
use vstd::prelude::*;

verus! {

/// The live-search command for a model: `search ` followed by one
/// fragment per constraint.
pub open spec fn spec_search_command(m: Seq<(FilterType, Seq<char>)>) -> Seq<char> {
    "search "@ + spec_fragments(m)
}

/// The commit's append command: `searchadd ` with the same fragment
/// grammar as the live search.
pub open spec fn spec_searchadd_command(m: Seq<(FilterType, Seq<char>)>) -> Seq<char> {
    "searchadd "@ + spec_fragments(m)
}

/// The commit's playback command: `play ` with the insertion index.
pub open spec fn spec_play_command(n: nat) -> Seq<char> {
    "play "@ + spec_dec_string(n)
}

/// The command one loop iteration sends: a query is issued only when
/// the model is non-empty; an empty model never triggers a round-trip
/// and the displayed match set is cleared instead.
pub fn search_command(model: &ConstraintModel) -> (r: Option<String>)
    ensures
        model@.len() == 0 ==> r is None,
        model@.len() > 0 ==> (r matches Some(c) && c@ == spec_search_command(model@)),
{
    if model.is_empty() {
        None
    } else {
        let mut c = String::from_str("search ");
        c.append(model.to_search_fragment().as_str());
        Some(c)
    }
}

/// A commit whose status response lacks a usable `playlistlength: `
/// line is malformed and aborts the session.
#[derive(Clone, Copy, Debug, PartialEq, Eq, Structural)]
pub enum CommitError {
    MalformedStatus,
}

/// The first command of the commit sequence: `status`, to learn the
/// insertion index. A commit with an empty model is a defined no-op and
/// is short-circuited before any network call, so not even `status` is
/// sent for it.
pub fn commit_first_command(model: &ConstraintModel) -> (r: Option<String>)
    ensures
        model@.len() == 0 ==> r is None,
        model@.len() > 0 ==> (r matches Some(c) && c@ == "status"@),
{
    if model.is_empty() {
        None
    } else {
        Some(String::from_str("status"))
    }
}

/// The rest of the commit sequence, given the `status` response: the
/// `searchadd` command with the model's fragments, then `play` with the
/// index the response reported. An empty model commits nothing; a
/// status response without a parseable `playlistlength: ` line is a
/// fatal protocol error.
pub fn commit_followup_commands(model: &ConstraintModel, status_lines: &Vec<String>) -> (r: Result<
    Vec<String>,
    CommitError,
>)
    ensures
        model@.len() == 0 ==> (r matches Ok(cmds) && cmds.deep_view() == Seq::<
            Seq<char>,
        >::empty()),
        model@.len() > 0 && spec_playlist_length(status_lines.deep_view()) is None ==> r matches Err(
            CommitError::MalformedStatus,
        ),
        model@.len() > 0 ==> (spec_playlist_length(status_lines.deep_view()) matches Some(idx)
            ==> (r matches Ok(cmds) && cmds.deep_view() == seq![
            spec_searchadd_command(model@),
            spec_play_command(idx as nat),
        ])),
{
    if model.is_empty() {
        let cmds: Vec<String> = Vec::new();
        proof {
            assert(cmds.deep_view() =~= Seq::<Seq<char>>::empty());
        }
        return Ok(cmds);
    }
    match parse_playlist_length(status_lines) {
        None => Err(CommitError::MalformedStatus),
        Some(idx) => {
            let mut add = String::from_str("searchadd ");
            add.append(model.to_search_fragment().as_str());
            let mut play = String::from_str("play ");
            play.append(u64_to_string(idx).as_str());
            let mut cmds: Vec<String> = Vec::new();
            let ghost addv = add@;
            let ghost playv = play@;
            cmds.push(add);
            cmds.push(play);
            proof {
                assert(cmds.deep_view() =~= seq![addv, playv]);
            }
            Ok(cmds)
        },
    }
}

/// The rows one frame draws, top to bottom: a `Filters:` header, the
/// constraints' display lines in creation order, then the match set's
/// file identifiers in receipt order.
pub open spec fn spec_display_rows(
    m: Seq<(FilterType, Seq<char>)>,
    files: Seq<Seq<char>>,
) -> Seq<Seq<char>> {
    seq!["Filters:"@] + m.map_values(|c: (FilterType, Seq<char>)| spec_display(c)) + files
}

/// How many rows a screen of the given height may hold: drawing stops
/// before row `height - 1`.
pub open spec fn spec_row_limit(height: int) -> int {
    if height <= 0 {
        0
    } else {
        height - 1
    }
}

/// Plans one frame: the rows to draw at `0, 1, 2, ...`, cut off so that
/// nothing is drawn at or past row `height - 1`. Constraints are drawn
/// before match results; if they alone fill the visible area, no match
/// line appears at all.
pub fn screen_lines(model: &ConstraintModel, files: &Vec<String>, height: usize) -> (r: Vec<
    String,
>)
    ensures
        ({
            let full = spec_display_rows(model@, files.deep_view());
            let limit = spec_row_limit(height as int);
            r.deep_view() == full.take(
                if full.len() <= limit {
                    full.len() as int
                } else {
                    limit
                },
            )
        }),
{
    let ghost full = spec_display_rows(model@, files.deep_view());
    let limit: usize = if height == 0 {
        0
    } else {
        height - 1
    };
    let mut rows: Vec<String> = Vec::new();
    if limit == 0 {
        proof {
            assert(rows.deep_view() =~= full.take(0));
        }
        return rows;
    }
    let ghost header = "Filters:"@;
    rows.push(String::from_str("Filters:"));
    proof {
        assert(full[0] == header);
        assert(rows.deep_view() =~= full.take(1));
    }
    let nc = model.len();
    let mut i: usize = 0;
    while i < nc && rows.len() < limit
        invariant
            i <= nc == model@.len(),
            limit == spec_row_limit(height as int),
            full == spec_display_rows(model@, files.deep_view()),
            rows@.len() == i + 1,
            rows@.len() <= limit,
            rows.deep_view() == full.take(i + 1),
        decreases nc - i,
    {
        let ghost before = rows.deep_view();
        let line = model.get(i).to_display_string();
        let ghost linev = line@;
        rows.push(line);
        proof {
            assert(full[i + 1] == spec_display(model@[i as int]));
            assert(full.take(i + 2) =~= full.take(i + 1).push(full[i + 1]));
            assert(rows.deep_view() =~= before.push(linev));
        }
        i += 1;
    }
    if rows.len() < limit {
        let nf = files.len();
        let mut j: usize = 0;
        while j < nf && rows.len() < limit
            invariant
                j <= nf == files@.len(),
                i == model@.len(),
                limit == spec_row_limit(height as int),
                full == spec_display_rows(model@, files.deep_view()),
                rows@.len() == 1 + model@.len() + j,
                rows@.len() <= limit,
                rows.deep_view() == full.take(rows@.len() as int),
            decreases nf - j,
        {
            let ghost before = rows.deep_view();
            let ghost k = rows@.len() as int;
            let line = files[j].clone();
            let ghost linev = line@;
            rows.push(line);
            proof {
                assert(full[k] == files.deep_view()[j as int]);
                assert(linev == files.deep_view()[j as int]);
                assert(full.take(k + 1) =~= full.take(k).push(full[k]));
                assert(rows.deep_view() =~= before.push(linev));
            }
            j += 1;
        }
        proof {
            assert(j == files@.len() || rows@.len() == limit);
            if rows@.len() < limit {
                assert(rows@.len() == full.len());
                assert(full.take(full.len() as int) =~= full);
            }
        }
    }
    rows
}

} // verus!

//! String and character operations the library builds on: contracts for
//! the few `std` functions it calls that `vstd` leaves unspecified, and
//! small verified helpers over them.

use vstd::prelude::*;

verus! {

/// Relies on `String::push`: appends exactly the given character.
pub assume_specification[ String::push ](s: &mut String, ch: char)
    ensures
        final(s)@ == old(s)@.push(ch),
;

/// Relies on `String::pop`: removes and returns the last character, or
/// returns `None` and leaves the string unchanged when it is empty.
pub assume_specification[ String::pop ](s: &mut String) -> (r: Option<char>)
    ensures
        old(s)@.len() == 0 ==> r is None && final(s)@ == old(s)@,
        old(s)@.len() > 0 ==> r == Some(old(s)@.last()) && final(s)@ == old(s)@.drop_last(),
;

/// Whether `char::is_alphanumeric` accepts the character. The result
/// depends on the character alone; the Unicode table behind it is not
/// restated here.
pub uninterp spec fn spec_char_is_alphanumeric(c: char) -> bool;

/// Whether `char::is_whitespace` accepts the character. The result
/// depends on the character alone; the Unicode table behind it is not
/// restated here.
pub uninterp spec fn spec_char_is_whitespace(c: char) -> bool;

/// Relies on `char::is_alphanumeric`: a fixed classification of the
/// character.
pub assume_specification[ char::is_alphanumeric ](c: char) -> (r: bool)
    ensures
        r == spec_char_is_alphanumeric(c),
;

/// Relies on `char::is_whitespace`: a fixed classification of the
/// character.
pub assume_specification[ char::is_whitespace ](c: char) -> (r: bool)
    ensures
        r == spec_char_is_whitespace(c),
;

/// `p` is a prefix of `s`.
pub open spec fn is_prefix(p: Seq<char>, s: Seq<char>) -> bool {
    p.len() <= s.len() && p == s.subrange(0, p.len() as int)
}

/// Whether `s` starts with `p`, decided character by character.
pub fn has_prefix(s: &str, p: &str) -> (r: bool)
    ensures
        r == is_prefix(p@, s@),
{
    let sl = s.unicode_len();
    let pl = p.unicode_len();
    if pl > sl {
        return false;
    }
    let mut i: usize = 0;
    while i < pl
        invariant
            i <= pl <= sl,
            pl == p@.len(),
            sl == s@.len(),
            forall|j: int| 0 <= j < i ==> p@[j] == s@[j],
        decreases pl - i,
    {
        if s.get_char(i) != p.get_char(i) {
            proof {
                assert(s@.subrange(0, pl as int)[i as int] == s@[i as int]);
            }
            return false;
        }
        i += 1;
    }
    proof {
        assert(p@ =~= s@.subrange(0, pl as int));
    }
    true
}

/// The line with one trailing newline removed: a final `'\n'` is
/// dropped, together with a `'\r'` just before it.
pub open spec fn spec_trim_newline(s: Seq<char>) -> Seq<char> {
    if s.len() > 0 && s.last() == '\n' {
        if s.len() > 1 && s[s.len() - 2] == '\r' {
            s.take(s.len() - 2)
        } else {
            s.take(s.len() - 1)
        }
    } else {
        s
    }
}

/// A copy of the line with its trailing newline (and a carriage return
/// before it) removed.
pub fn trim_newline(s: &str) -> (r: String)
    ensures
        r@ == spec_trim_newline(s@),
{
    let n = s.unicode_len();
    if n > 0 && s.get_char(n - 1) == '\n' {
        if n > 1 && s.get_char(n - 2) == '\r' {
            let t = s.substring_char(0, n - 2);
            proof {
                assert(t@ =~= spec_trim_newline(s@));
            }
            String::from_str(t)
        } else {
            let t = s.substring_char(0, n - 1);
            proof {
                assert(t@ =~= spec_trim_newline(s@));
            }
            String::from_str(t)
        }
    } else {
        String::from_str(s)
    }
}

/// A blank character for the purpose of splitting a protocol line into
/// tokens: space, tab, carriage return or newline.
pub open spec fn is_line_ws(c: char) -> bool {
    c == ' ' || c == '\t' || c == '\r' || c == '\n'
}

/// Whether the character is blank in the sense of `is_line_ws`.
pub fn is_line_ws_char(c: char) -> (r: bool)
    ensures
        r == is_line_ws(c),
{
    c == ' ' || c == '\t' || c == '\r' || c == '\n'
}

/// The longest run of non-blank characters at the end of the sequence.
pub open spec fn spec_nonws_suffix(s: Seq<char>) -> Seq<char>
    decreases s.len(),
{
    if s.len() == 0 || is_line_ws(s.last()) {
        Seq::<char>::empty()
    } else {
        spec_nonws_suffix(s.drop_last()).push(s.last())
    }
}

/// The trailing token of a line: the last run of non-blank characters,
/// with any blanks after it ignored. Empty when the line holds no
/// non-blank character.
pub open spec fn spec_last_token(s: Seq<char>) -> Seq<char>
    decreases s.len(),
{
    if s.len() == 0 {
        s
    } else if is_line_ws(s.last()) {
        spec_last_token(s.drop_last())
    } else {
        spec_nonws_suffix(s)
    }
}

/// The trailing token of the line, as an owned string.
pub fn last_token(s: &str) -> (r: String)
    ensures
        r@ == spec_last_token(s@),
{
    let n = s.unicode_len();
    let mut end: usize = n;
    proof {
        assert(s@.take(n as int) =~= s@);
    }
    while end > 0 && is_line_ws_char(s.get_char(end - 1))
        invariant
            end <= n == s@.len(),
            spec_last_token(s@) == spec_last_token(s@.take(end as int)),
        decreases end,
    {
        proof {
            assert(s@.take(end as int).drop_last() =~= s@.take(end - 1));
        }
        end -= 1;
    }
    if end == 0 {
        proof {
            assert(s@.take(0) =~= Seq::<char>::empty());
        }
        return String::new();
    }
    let mut start: usize = end;
    while start > 0 && !is_line_ws_char(s.get_char(start - 1))
        invariant
            start <= end <= n == s@.len(),
            end > 0,
            !is_line_ws(s@[end - 1]),
            forall|j: int| start <= j < end ==> !is_line_ws(s@[j]),
            spec_nonws_suffix(s@.take(end as int)) == spec_nonws_suffix(s@.take(start as int))
                + s@.subrange(start as int, end as int),
        decreases start,
    {
        proof {
            assert(s@.take(start as int).drop_last() =~= s@.take(start - 1));
            assert(s@.take(start as int).last() == s@[start - 1]);
            assert(spec_nonws_suffix(s@.take(start as int)) == spec_nonws_suffix(
                s@.take(start - 1),
            ).push(s@[start - 1]));
            assert(spec_nonws_suffix(s@.take(start - 1)).push(s@[start - 1]) + s@.subrange(
                start as int,
                end as int,
            ) =~= spec_nonws_suffix(s@.take(start - 1)) + s@.subrange(start - 1, end as int));
        }
        start -= 1;
    }
    proof {
        if start == 0 {
            assert(s@.take(0) =~= Seq::<char>::empty());
            assert(spec_nonws_suffix(s@.take(0)) == Seq::<char>::empty());
        } else {
            assert(s@.take(start as int).last() == s@[start - 1]);
            assert(spec_nonws_suffix(s@.take(start as int)) == Seq::<char>::empty());
        }
        assert(spec_nonws_suffix(s@.take(end as int)) =~= s@.subrange(start as int, end as int));
        assert(s@.take(end as int).last() == s@[end - 1]);
        assert(spec_last_token(s@.take(end as int)) == spec_nonws_suffix(s@.take(end as int)));
    }
    let t = s.substring_char(start, end);
    String::from_str(t)
}

} // verus!

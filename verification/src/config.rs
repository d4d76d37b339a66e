//! Parsing of the two plain-text configuration lists: the traced procedure
//! names and the type blacklist. Both are newline-delimited; a `#` starts a
//! comment that runs to the end of its line; blank lines and surrounding
//! blanks are ignored.

use vstd::prelude::*;

use vstd::string::StrSliceExecFns;

verus! {

/// A blank: space, tab, or a carriage return left by a Windows line end.
pub open spec fn is_blank_v(c: char) -> bool {
    c == ' ' || c == '\t' || c == '\r'
}

/// A line with its comment removed: everything before the first `#`.
pub open spec fn strip_comment_v(line: Seq<char>) -> Seq<char>
    decreases line.len(),
{
    if line.len() == 0 {
        Seq::empty()
    } else if line[0] == '#' {
        Seq::empty()
    } else {
        seq![line[0]] + strip_comment_v(line.drop_first())
    }
}

/// A sequence with its leading blanks removed.
pub open spec fn trim_start_v(s: Seq<char>) -> Seq<char>
    decreases s.len(),
{
    if s.len() > 0 && is_blank_v(s[0]) {
        trim_start_v(s.drop_first())
    } else {
        s
    }
}

/// A sequence with its trailing blanks removed.
pub open spec fn trim_end_v(s: Seq<char>) -> Seq<char>
    decreases s.len(),
{
    if s.len() > 0 && is_blank_v(s.last()) {
        trim_end_v(s.drop_last())
    } else {
        s
    }
}

/// A line cleaned for reading: comment stripped, blanks trimmed both ends.
pub open spec fn clean_line_v(line: Seq<char>) -> Seq<char> {
    trim_end_v(trim_start_v(strip_comment_v(line)))
}

/// The names a text denotes, scanned line by line: `cur` is the line being
/// read, `acc` the names already read; a cleaned line is kept when
/// something is left of it.
pub open spec fn scan_names_v(s: Seq<char>, cur: Seq<char>, acc: Seq<Seq<char>>) -> Seq<Seq<char>>
    decreases s.len(),
{
    if s.len() == 0 {
        if clean_line_v(cur).len() > 0 {
            acc.push(clean_line_v(cur))
        } else {
            acc
        }
    } else if s[0] == '\n' {
        scan_names_v(
            s.drop_first(),
            Seq::empty(),
            if clean_line_v(cur).len() > 0 {
                acc.push(clean_line_v(cur))
            } else {
                acc
            },
        )
    } else {
        scan_names_v(s.drop_first(), cur.push(s[0]), acc)
    }
}

/// The names a configuration text denotes.
pub open spec fn parse_names_v(s: Seq<char>) -> Seq<Seq<char>> {
    scan_names_v(s, Seq::empty(), Seq::empty())
}

/// If no `#` occurs before position `i`, and `i` is the end or a `#`, the
/// stripped line is the prefix of length `i`.
proof fn lemma_strip_comment_at(line: Seq<char>, i: int)
    requires
        0 <= i <= line.len(),
        forall|j: int| 0 <= j < i ==> line[j] != '#',
        i == line.len() || line[i] == '#',
    ensures
        strip_comment_v(line) == line.take(i),
    decreases line.len(),
{
    if line.len() == 0 {
        assert(line.take(i) =~= Seq::<char>::empty());
    } else if i == 0 {
        assert(line.take(0) =~= Seq::<char>::empty());
    } else {
        lemma_strip_comment_at(line.drop_first(), i - 1);
        assert(line.drop_first().take(i - 1) =~= line.take(i).drop_first());
        assert(seq![line[0]] + line.take(i).drop_first() =~= line.take(i));
    }
}

/// If every character before position `i` is blank and `i` is the end or a
/// non-blank, trimming the start drops exactly `i` characters.
proof fn lemma_trim_start_at(s: Seq<char>, i: int)
    requires
        0 <= i <= s.len(),
        forall|j: int| 0 <= j < i ==> is_blank_v(s[j]),
        i == s.len() || !is_blank_v(s[i]),
    ensures
        trim_start_v(s) == s.skip(i),
    decreases s.len(),
{
    if i == 0 {
        assert(s.skip(0) =~= s);
    } else {
        lemma_trim_start_at(s.drop_first(), i - 1);
        assert(s.drop_first().skip(i - 1) =~= s.skip(i));
    }
}

/// If every character at or after position `i` is blank and `i` is the
/// start or preceded by a non-blank, trimming the end keeps exactly the
/// prefix of length `i`.
proof fn lemma_trim_end_at(s: Seq<char>, i: int)
    requires
        0 <= i <= s.len(),
        forall|j: int| i <= j < s.len() ==> is_blank_v(s[j]),
        i == 0 || !is_blank_v(s[i - 1]),
    ensures
        trim_end_v(s) == s.take(i),
    decreases s.len(),
{
    if i == s.len() {
        if i == 0 {
            assert(s.take(0) =~= s);
        } else {
            assert(s.take(i) =~= s);
        }
    } else {
        lemma_trim_end_at(s.drop_last(), i);
        assert(s.drop_last().take(i) =~= s.take(i));
    }
}

/// Whether the character at `i` is a blank.
fn blank_at(s: &str, i: usize) -> (r: bool)
    requires
        i < s@.len(),
    ensures
        r == is_blank_v(s@[i as int]),
{
    let c = s.get_char(i);
    c == ' ' || c == '\t' || c == '\r'
}

/// Whether the character at `i` opens a comment.
fn hash_at(s: &str, i: usize) -> (r: bool)
    requires
        i < s@.len(),
    ensures
        r == (s@[i as int] == '#'),
{
    s.get_char(i) == '#'
}

/// Cleans one collected line: strips the comment and trims both ends.
fn clean_line(line: &String) -> (r: String)
    ensures
        r@ == clean_line_v(line@),
{
    let lv = line.as_str();
    let n = lv.unicode_len();
    let mut end: usize = 0;
    while end < n && !hash_at(lv, end)
        invariant
            lv@ == line@,
            0 <= end <= n,
            n == line@.len(),
            forall|j: int| 0 <= j < end ==> line@[j] != '#',
        decreases n - end,
    {
        end += 1;
    }
    proof {
        lemma_strip_comment_at(line@, end as int);
    }
    let ghost stripped = line@.take(end as int);
    let mut start: usize = 0;
    while start < end && blank_at(lv, start)
        invariant
            lv@ == line@,
            0 <= start <= end <= n,
            n == line@.len(),
            stripped == line@.take(end as int),
            forall|j: int| 0 <= j < start ==> is_blank_v(stripped[j]),
        decreases end - start,
    {
        start += 1;
    }
    proof {
        lemma_trim_start_at(stripped, start as int);
    }
    let ghost started = stripped.skip(start as int);
    let mut stop: usize = end;
    while stop > start && blank_at(lv, stop - 1)
        invariant
            lv@ == line@,
            start <= stop <= end <= n,
            n == line@.len(),
            stripped == line@.take(end as int),
            started == stripped.skip(start as int),
            forall|j: int| stop - start <= j < started.len() ==> is_blank_v(started[j]),
        decreases stop,
    {
        stop -= 1;
    }
    proof {
        lemma_trim_end_at(started, stop - start);
    }
    let mut r = String::new();
    let mut i: usize = start;
    while i < stop
        invariant
            lv@ == line@,
            start <= i <= stop <= end <= n,
            n == line@.len(),
            r@ == line@.subrange(start as int, i as int),
        decreases stop - i,
    {
        r.push(lv.get_char(i));
        proof {
            assert(r@ =~= line@.subrange(start as int, i + 1 as int));
        }
        i += 1;
    }
    proof {
        assert(started.take(stop - start) =~= line@.subrange(start as int, stop as int));
        assert(clean_line_v(line@) == line@.subrange(start as int, stop as int));
    }
    r
}

/// Reads a newline-delimited, `#`-comment-supporting list of names from a
/// configuration text.
pub fn parse_name_list(text: &str) -> (r: Vec<String>)
    ensures
        r.deep_view() == parse_names_v(text@),
{
    let n = text.unicode_len();
    let mut names: Vec<String> = Vec::new();
    let mut cur = String::new();
    let mut i: usize = 0;
    proof {
        assert(text@.skip(0) =~= text@);
        assert(names.deep_view() =~= Seq::<Seq<char>>::empty());
    }
    while i < n
        invariant
            0 <= i <= n,
            n == text@.len(),
            scan_names_v(text@, Seq::empty(), Seq::empty()) == scan_names_v(
                text@.skip(i as int),
                cur@,
                names.deep_view(),
            ),
        decreases n - i,
    {
        let c = text.get_char(i);
        proof {
            assert(text@.skip(i as int)[0] == text@[i as int]);
            assert(text@.skip(i as int).drop_first() =~= text@.skip(i + 1 as int));
        }
        if c == '\n' {
            let finished = clean_line(&cur);
            if finished.as_str().unicode_len() > 0 {
                let ghost pre = names.deep_view();
                names.push(finished);
                proof {
                    assert(names.deep_view() =~= pre.push(clean_line_v(cur@)));
                }
            }
            cur = String::new();
        } else {
            cur.push(c);
        }
        i += 1;
    }
    proof {
        assert(text@.skip(n as int) =~= Seq::<char>::empty());
    }
    let finished = clean_line(&cur);
    if finished.as_str().unicode_len() > 0 {
        let ghost pre = names.deep_view();
        names.push(finished);
        proof {
            assert(names.deep_view() =~= pre.push(clean_line_v(cur@)));
        }
    }
    names
}

} // verus!

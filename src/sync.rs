use vstd::prelude::*;
use crate::numbers::{parse_i32, parse_i32_spec};
use crate::text::{
    chars_of, contains, contains_in, occurs_at, find, find_in, is_whitespace, is_ws, skip_ws_from, string_of,
};
use crate::types::{SyncProgress, SyncProgressView};

verus! {

/// The first index at or after `i` that holds white space, or the end of `s`.
pub open spec fn token_end(s: Seq<char>, i: int) -> int
    decreases s.len() - i,
{
    if 0 <= i < s.len() && !is_ws(s[i]) {
        token_end(s, i + 1)
    } else {
        i
    }
}

/// The first run of characters in `s` that holds no white space, if there is one.
pub open spec fn first_token(s: Seq<char>) -> Option<Seq<char>> {
    let a = skip_ws_from(s, 0);
    if a < s.len() {
        Some(s.subrange(a, token_end(s, a)))
    } else {
        None
    }
}

pub proof fn lemma_skip_ws_bounds(s: Seq<char>, i: int)
    requires
        0 <= i <= s.len(),
    ensures
        i <= skip_ws_from(s, i) <= s.len(),
    decreases s.len() - i,
{
    if i < s.len() && is_ws(s[i]) {
        lemma_skip_ws_bounds(s, i + 1);
    }
}

pub proof fn lemma_token_end_bounds(s: Seq<char>, i: int)
    requires
        0 <= i <= s.len(),
    ensures
        i <= token_end(s, i) <= s.len(),
    decreases s.len() - i,
{
    if i < s.len() && !is_ws(s[i]) {
        lemma_token_end_bounds(s, i + 1);
    }
}

/// The first word of `s[from..]`, as `split_whitespace().next()` gives it.
fn first_word(s: &Vec<char>, from: usize) -> (r: Option<String>)
    requires
        from <= s@.len(),
    ensures
        r.deep_view() == first_token(s@.skip(from as int)),
{
    let ghost t = s@.skip(from as int);
    let mut a = from;
    while a < s.len() && is_whitespace(s[a])
        invariant
            from <= a <= s@.len(),
            t == s@.skip(from as int),
            skip_ws_from(t, 0) == skip_ws_from(t, a - from),
        decreases s@.len() - a,
    {
        a = a + 1;
    }
    proof {
        lemma_skip_ws_bounds(t, a - from);
    }
    if a == s.len() {
        return None;
    }
    let mut b = a;
    while b < s.len() && !is_whitespace(s[b])
        invariant
            from <= a <= b <= s@.len(),
            t == s@.skip(from as int),
            token_end(t, a - from) == token_end(t, b - from),
        decreases s@.len() - b,
    {
        assert(t[b - from] == s@[b as int]);
        b = b + 1;
    }
    let w = string_of(s, a, b);
    assert(w@ =~= t.subrange(a - from, b - from));
    Some(w)
}

/// How a line of `sync` output reads: the depot path before the first `#`, the number
/// that starts what follows it (0 where there is none), and the action named in the line.
pub open spec fn sync_line_of(line: Seq<char>) -> Option<SyncProgressView> {
    match find(line, "#"@) {
        None => None,
        Some(h) => {
            let revision = match first_token(line.skip(h + 1)) {
                Some(t) => match parse_i32_spec(t) {
                    Some(v) => v,
                    None => 0,
                },
                None => 0,
            };
            let is_conflict = contains(line, "can't clobber"@);
            let action = if contains(line, " - updating "@) {
                "updating"@
            } else if contains(line, " - adding "@) {
                "adding"@
            } else if contains(line, " - deleting "@) {
                "deleting"@
            } else if is_conflict {
                "can't clobber"@
            } else {
                "unknown"@
            };
            Some(SyncProgressView { depot_path: line.take(h), action, revision, is_conflict })
        },
    }
}

/// Classifies one line that `sync` wrote to its standard output; a line with no `#`
/// gives nothing.
pub fn parse_sync_line(line: &str) -> (r: Option<SyncProgress>)
    ensures
        match r {
            Some(p) => sync_line_of(line@) == Some(p@),
            None => sync_line_of(line@) is None,
        },
{
    let cs = chars_of(line);
    let hash = chars_of("#");
    proof {
        reveal_strlit("#");
    }
    let h = match find_in(&cs, &hash) {
        Some(h) => h,
        None => {
            return None;
        },
    };
    let total = cs.len();
    assert(hash@.len() == 1);
    assert(occurs_at(cs@, hash@, h as int));
    assert(h < total);
    let revision = match first_word(&cs, h + 1) {
        Some(t) => match parse_i32(t.as_str()) {
            Some(v) => v,
            None => 0,
        },
        None => 0,
    };
    let is_conflict = contains_in(&cs, "can't clobber");
    let action = if contains_in(&cs, " - updating ") {
        "updating".to_owned()
    } else if contains_in(&cs, " - adding ") {
        "adding".to_owned()
    } else if contains_in(&cs, " - deleting ") {
        "deleting".to_owned()
    } else if is_conflict {
        "can't clobber".to_owned()
    } else {
        "unknown".to_owned()
    };
    let depot_path = string_of(&cs, 0, h);
    assert(depot_path@ =~= line@.take(h as int));
    Some(SyncProgress { depot_path, action, revision, is_conflict })
}

/// How a line that `sync` wrote to its standard error reads: a note that files are up to
/// date gives nothing; any other line is a conflict where it says a file cannot be
/// clobbered or overwritten, and an error otherwise.
pub open spec fn sync_error_of(line: Seq<char>) -> Option<SyncProgressView> {
    if contains(line, "file(s) up-to-date"@) {
        None
    } else {
        let is_conflict = contains(line, "can't clobber"@) || contains(line, "can't overwrite"@);
        Some(
            SyncProgressView {
                depot_path: line,
                action: if is_conflict {
                    "conflict"@
                } else {
                    "error"@
                },
                revision: 0,
                is_conflict,
            },
        )
    }
}

/// Classifies one line that `sync` wrote to its standard error.
pub fn classify_sync_error_line(line: &str) -> (r: Option<SyncProgress>)
    ensures
        match r {
            Some(p) => sync_error_of(line@) == Some(p@),
            None => sync_error_of(line@) is None,
        },
{
    let cs = chars_of(line);
    if contains_in(&cs, "file(s) up-to-date") {
        return None;
    }
    let is_conflict = contains_in(&cs, "can't clobber") || contains_in(&cs, "can't overwrite");
    let action = if is_conflict {
        "conflict".to_owned()
    } else {
        "error".to_owned()
    };
    Some(SyncProgress { depot_path: line.to_owned(), action, revision: 0, is_conflict })
}

} // verus!

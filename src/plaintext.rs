use vstd::prelude::*;
use crate::indexed::{int_text, push_int};
use crate::numbers::{parse_i32, parse_i32_spec};
use crate::record::{lower_of, lowercase};
use crate::sync::{first_token, token_end};
use crate::text::{
    chars_of, contains, contains_in, find, find_in, lines, lines_of, occurs_at, rfind, rfind_in,
    skip_ws_from, slice_of, string_of, trim, trimmed, is_whitespace, push_char,
};
use crate::types::{ReconcilePreview, ReconcilePreviewView};

verus! {

/// The preview that one line of `reconcile -n` output gives: `<path> - opened for
/// <action>`, the path trimmed and cut before its last `#`, the action trimmed.
pub open spec fn reconcile_line_of(line: Seq<char>) -> Option<ReconcilePreviewView> {
    let t = trim(line);
    match find(t, " - opened for "@) {
        None => None,
        Some(d) => {
            let raw = trim(t.take(d));
            let path = match rfind(raw, '#') {
                Some(h) => raw.take(h),
                None => raw,
            };
            Some(
                ReconcilePreviewView {
                    depot_path: path,
                    local_path: Seq::empty(),
                    action: trim(t.skip(d + 14)),
                },
            )
        },
    }
}

/// The previews of all lines, in order.
pub open spec fn reconcile_previews_of(ls: Seq<Seq<char>>) -> Seq<ReconcilePreviewView>
    decreases ls.len(),
{
    if ls.len() == 0 {
        Seq::empty()
    } else {
        match reconcile_line_of(ls.last()) {
            Some(p) => reconcile_previews_of(ls.drop_last()).push(p),
            None => reconcile_previews_of(ls.drop_last()),
        }
    }
}

/// The characters `s[from..to]`.
fn reconcile_line(line: &Vec<char>) -> (r: Option<ReconcilePreview>)
    ensures
        match r {
            Some(p) => reconcile_line_of(line@) == Some(p@),
            None => reconcile_line_of(line@) is None,
        },
{
    let t = trimmed(line);
    let marker = chars_of(" - opened for ");
    proof {
        reveal_strlit(" - opened for ");
    }
    let d = match find_in(&t, &marker) {
        Some(d) => d,
        None => {
            return None;
        },
    };
    let total = t.len();
    assert(occurs_at(t@, marker@, d as int));
    let head = slice_of(&t, 0, d);
    assert(head@ =~= t@.take(d as int));
    let raw = trimmed(&head);
    let depot_path = match rfind_in(&raw, '#') {
        Some(h) => {
            let p = string_of(&raw, 0, h);
            assert(p@ =~= trim(t@.take(d as int)).take(h as int));
            p
        },
        None => string_of(&raw, 0, raw.len()),
    };
    assert(raw@.subrange(0, raw@.len() as int) =~= raw@);
    let tail = slice_of(&t, d + 14, total);
    assert(tail@ =~= t@.skip(d + 14));
    let act = trimmed(&tail);
    let action = string_of(&act, 0, act.len());
    assert(act@.subrange(0, act@.len() as int) =~= act@);
    Some(ReconcilePreview { depot_path, local_path: String::new(), action })
}

/// Parses `reconcile -n` output into the files it would open.
pub fn parse_reconcile_output(output: &str) -> (r: Result<Vec<ReconcilePreview>, String>)
    ensures
        match r {
            Ok(v) => v@.map_values(|p: ReconcilePreview| p@) == reconcile_previews_of(
                lines_of(output@),
            ),
            Err(_) => false,
        },
{
    let cs = chars_of(output);
    let ls = lines(&cs);
    let ghost lv = ls@.map_values(|l: Vec<char>| l@);
    let mut out: Vec<ReconcilePreview> = Vec::new();
    let mut i: usize = 0;
    while i < ls.len()
        invariant
            i <= ls@.len(),
            lv == ls@.map_values(|l: Vec<char>| l@),
            out@.map_values(|p: ReconcilePreview| p@) == reconcile_previews_of(lv.take(i as int)),
        decreases ls@.len() - i,
    {
        assert(lv.take(i + 1).drop_last() =~= lv.take(i as int));
        assert(lv.take(i + 1).last() == ls@[i as int]@);
        match reconcile_line(&ls[i]) {
            Some(p) => {
                let ghost before = out@.map_values(|p: ReconcilePreview| p@);
                out.push(p);
                assert(out@.map_values(|p: ReconcilePreview| p@) =~= before.push(p@));
            },
            None => {},
        }
        i = i + 1;
    }
    assert(lv.take(ls@.len() as int) =~= lv);
    Ok(out)
}


/// Which confirmation a line of output gives.
#[derive(Clone, Copy, Debug, PartialEq, Eq, Structural)]
pub enum Confirmation {
    /// `edit`: `<path>#<rev> - opened for edit`, or `- reopened` for a file already open.
    Edit,
    /// `revert`: `<path>#<rev> - was <action>, reverted`.
    Revert,
    /// `reopen`: `<path>#<rev> - reopened; change <n>`.
    Reopen,
}

pub open spec fn confirms(kind: Confirmation, line: Seq<char>) -> bool {
    match kind {
        Confirmation::Edit => contains(line, " - opened for edit"@) || contains(line, " - reopened"@),
        Confirmation::Revert => contains(line, " - was "@) && contains(line, ", reverted"@),
        Confirmation::Reopen => contains(line, " - reopened"@),
    }
}

/// `line` up to its first `#`.
pub open spec fn before_hash(line: Seq<char>) -> Seq<char> {
    match find(line, "#"@) {
        Some(h) => line.take(h),
        None => line,
    }
}

/// The paths that the lines confirm, in order.
pub open spec fn confirmed_of(kind: Confirmation, ls: Seq<Seq<char>>) -> Seq<Seq<char>>
    decreases ls.len(),
{
    if ls.len() == 0 {
        Seq::empty()
    } else if confirms(kind, ls.last()) {
        confirmed_of(kind, ls.drop_last()).push(before_hash(ls.last()))
    } else {
        confirmed_of(kind, ls.drop_last())
    }
}

fn line_confirms(kind: Confirmation, line: &Vec<char>) -> (r: bool)
    ensures
        r == confirms(kind, line@),
{
    match kind {
        Confirmation::Edit => contains_in(line, " - opened for edit") || contains_in(line, " - reopened"),
        Confirmation::Revert => contains_in(line, " - was ") && contains_in(line, ", reverted"),
        Confirmation::Reopen => contains_in(line, " - reopened"),
    }
}

fn path_before_hash(line: &Vec<char>) -> (r: String)
    ensures
        r@ == before_hash(line@),
{
    let hash = chars_of("#");
    match find_in(line, &hash) {
        Some(h) => {
            proof {
                reveal_strlit("#");
            }
            assert(occurs_at(line@, hash@, h as int));
            string_of(line, 0, h)
        },
        None => {
            let r = string_of(line, 0, line.len());
            assert(r@ =~= line@);
            r
        },
    }
}

/// The paths that the output of `edit`, `revert` or `reopen` confirms, each cut before
/// its `#`.
pub fn confirmed_paths(output: &str, kind: Confirmation) -> (r: Vec<String>)
    ensures
        r@.map_values(|s: String| s@) == confirmed_of(kind, lines_of(output@)),
{
    let cs = chars_of(output);
    let ls = lines(&cs);
    let ghost lv = ls@.map_values(|l: Vec<char>| l@);
    let mut out: Vec<String> = Vec::new();
    let mut i: usize = 0;
    while i < ls.len()
        invariant
            i <= ls@.len(),
            lv == ls@.map_values(|l: Vec<char>| l@),
            out@.map_values(|s: String| s@) == confirmed_of(kind, lv.take(i as int)),
        decreases ls@.len() - i,
    {
        assert(lv.take(i + 1).drop_last() =~= lv.take(i as int));
        assert(lv.take(i + 1).last() == ls@[i as int]@);
        if line_confirms(kind, &ls[i]) {
            let p = path_before_hash(&ls[i]);
            let ghost before = out@.map_values(|s: String| s@);
            out.push(p);
            assert(out@.map_values(|s: String| s@) =~= before.push(p@));
        }
        i = i + 1;
    }
    assert(lv.take(ls@.len() as int) =~= lv);
    out
}

/// The outcome of a command that may succeed for some files and fail for others: what
/// was confirmed, unless nothing was and the tool wrote to standard error, whose text
/// is then the error.
pub fn confirmed_or_error<T>(confirmed: Vec<T>, stderr: &str) -> (r: Result<Vec<T>, String>)
    ensures
        r is Err <==> (confirmed@.len() == 0 && stderr@.len() > 0),
        match r {
            Ok(v) => v@ == confirmed@,
            Err(e) => e@ == stderr@,
        },
{
    if !stderr.is_empty() && confirmed.len() == 0 {
        Err(stderr.to_owned())
    } else {
        Ok(confirmed)
    }
}

/// The second run of non-white-space characters of `s`.
pub open spec fn second_token(s: Seq<char>) -> Option<Seq<char>> {
    if first_token(s) is None {
        None
    } else {
        first_token(s.skip(token_end(s, skip_ws_from(s, 0))))
    }
}

/// The first of `ls[i..]` that names a change and `word`.
pub open spec fn first_announcing(ls: Seq<Seq<char>>, word: Seq<char>, i: int) -> Option<Seq<char>>
    decreases ls.len() - i,
{
    if i < 0 || i >= ls.len() {
        None
    } else if contains(ls[i], "Change"@) && contains(ls[i], word) {
        Some(ls[i])
    } else {
        first_announcing(ls, word, i + 1)
    }
}

/// The change number in the first line of `text` that names a change and `word`
/// (`Change 123 submitted.`): its second word, read as a number.
pub open spec fn change_number_of(text: Seq<char>, word: Seq<char>) -> Option<i32> {
    match first_announcing(lines_of(text), word, 0) {
        Some(l) => match second_token(l) {
            Some(t) => parse_i32_spec(t),
            None => None,
        },
        None => None,
    }
}

fn second_word(s: &Vec<char>) -> (r: Option<String>)
    ensures
        r.deep_view() == second_token(s@),
{
    let mut a: usize = 0;
    while a < s.len() && is_whitespace(s[a])
        invariant
            a <= s@.len(),
            skip_ws_from(s@, 0) == skip_ws_from(s@, a as int),
        decreases s@.len() - a,
    {
        a = a + 1;
    }
    if a == s.len() {
        return None;
    }
    let mut b = a;
    while b < s.len() && !is_whitespace(s[b])
        invariant
            a <= b <= s@.len(),
            token_end(s@, a as int) == token_end(s@, b as int),
        decreases s@.len() - b,
    {
        b = b + 1;
    }
    let rest = slice_of(s, b, s.len());
    assert(rest@ =~= s@.skip(b as int));
    let mut c: usize = 0;
    while c < rest.len() && is_whitespace(rest[c])
        invariant
            c <= rest@.len(),
            skip_ws_from(rest@, 0) == skip_ws_from(rest@, c as int),
        decreases rest@.len() - c,
    {
        c = c + 1;
    }
    if c == rest.len() {
        return None;
    }
    let mut d = c;
    while d < rest.len() && !is_whitespace(rest[d])
        invariant
            c <= d <= rest@.len(),
            token_end(rest@, c as int) == token_end(rest@, d as int),
        decreases rest@.len() - d,
    {
        d = d + 1;
    }
    Some(string_of(&rest, c, d))
}

fn change_number(text: &str, word: &str) -> (r: Option<i32>)
    ensures
        r == change_number_of(text@, word@),
{
    let cs = chars_of(text);
    let ls = lines(&cs);
    let ghost lv = ls@.map_values(|l: Vec<char>| l@);
    let mut i: usize = 0;
    while i < ls.len()
        invariant
            i <= ls@.len(),
            lv == ls@.map_values(|l: Vec<char>| l@),
            lv == lines_of(text@),
            first_announcing(lv, word@, 0) == first_announcing(lv, word@, i as int),
        decreases ls@.len() - i,
    {
        assert(lv[i as int] == ls@[i as int]@);
        if contains_in(&ls[i], "Change") && contains_in(&ls[i], word) {
            return match second_word(&ls[i]) {
                Some(t) => parse_i32(t.as_str()),
                None => None,
            };
        }
        i = i + 1;
    }
    None
}

/// The number of the submitted changelist in `submit` output, or `fallback` where none
/// can be read.
pub fn submitted_change(stdout: &str, fallback: i32) -> (r: i32)
    ensures
        r == match change_number_of(stdout@, "submitted"@) {
            Some(n) => n,
            None => fallback,
        },
{
    match change_number(stdout, "submitted") {
        Some(n) => n,
        None => fallback,
    }
}

/// The number of the changelist that `change -i` output says was created.
pub fn created_change(stdout: &str) -> (r: Result<i32, String>)
    ensures
        match r {
            Ok(n) => change_number_of(stdout@, "created"@) == Some(n),
            Err(e) => change_number_of(stdout@, "created"@) is None && e@
                == "Failed to parse changelist ID from: "@ + stdout@,
        },
{
    match change_number(stdout, "created") {
        Some(n) => Ok(n),
        None => {
            let mut e = "Failed to parse changelist ID from: ".to_owned();
            e.append(stdout);
            Err(e)
        },
    }
}


/// The path a line of `resolve -n` output names: what comes before its first ` - `,
/// trimmed.
pub open spec fn resolve_path_of(line: Seq<char>) -> Seq<char> {
    trim(
        match find(line, " - "@) {
            Some(i) => line.take(i),
            None => line,
        },
    )
}

/// The paths of the non-empty lines, in order.
pub open spec fn resolve_paths_of(ls: Seq<Seq<char>>) -> Seq<Seq<char>>
    decreases ls.len(),
{
    if ls.len() == 0 {
        Seq::empty()
    } else if ls.last().len() == 0 {
        resolve_paths_of(ls.drop_last())
    } else {
        resolve_paths_of(ls.drop_last()).push(resolve_path_of(ls.last()))
    }
}

/// The files that `resolve -n` output says need resolving.
pub fn parse_resolve_preview(output: &str) -> (r: Vec<String>)
    ensures
        r@.map_values(|s: String| s@) == resolve_paths_of(lines_of(output@)),
{
    let cs = chars_of(output);
    let ls = lines(&cs);
    let ghost lv = ls@.map_values(|l: Vec<char>| l@);
    let sep = chars_of(" - ");
    let mut out: Vec<String> = Vec::new();
    let mut i: usize = 0;
    while i < ls.len()
        invariant
            i <= ls@.len(),
            lv == ls@.map_values(|l: Vec<char>| l@),
            sep@ == " - "@,
            out@.map_values(|s: String| s@) == resolve_paths_of(lv.take(i as int)),
        decreases ls@.len() - i,
    {
        assert(lv.take(i + 1).drop_last() =~= lv.take(i as int));
        assert(lv.take(i + 1).last() == ls@[i as int]@);
        let line = &ls[i];
        if line.len() > 0 {
            let head = match find_in(line, &sep) {
                Some(k) => slice_of(line, 0, k),
                None => slice_of(line, 0, line.len()),
            };
            assert(line@.subrange(0, line@.len() as int) =~= line@);
            let t = trimmed(&head);
            let p = string_of(&t, 0, t.len());
            assert(t@.subrange(0, t@.len() as int) =~= t@);
            let ghost before = out@.map_values(|s: String| s@);
            out.push(p);
            assert(out@.map_values(|s: String| s@) =~= before.push(resolve_path_of(line@)));
        }
        i = i + 1;
    }
    assert(lv.take(ls@.len() as int) =~= lv);
    out
}

/// `path` cut before its last `#`, where it has one.
pub open spec fn without_revision(path: Seq<char>) -> Seq<char> {
    match rfind(path, '#') {
        Some(h) => path.take(h),
        None => path,
    }
}

/// `path` without a revision specifier.
pub fn strip_revision(path: &str) -> (r: String)
    ensures
        r@ == without_revision(path@),
{
    let cs = chars_of(path);
    match rfind_in(&cs, '#') {
        Some(h) => string_of(&cs, 0, h),
        None => path.to_owned(),
    }
}

/// The flag of a quick resolve mode.
pub open spec fn resolve_flag_of(mode: Seq<char>) -> Option<Seq<char>> {
    if mode == "theirs"@ {
        Some("-at"@)
    } else if mode == "yours"@ {
        Some("-ay"@)
    } else if mode == "merge"@ {
        Some("-am"@)
    } else {
        None
    }
}

/// The `resolve` flag of `mode` (`theirs`, `yours` or `merge`); any other mode is refused.
pub fn resolve_flag(mode: &str) -> (r: Result<String, String>)
    ensures
        match r {
            Ok(f) => resolve_flag_of(mode@) == Some(f@),
            Err(e) => resolve_flag_of(mode@) is None && e@ == "Invalid mode: "@ + mode@
                + ". Must be 'theirs', 'yours', or 'merge'"@,
        },
{
    if crate::fields::same_text(mode, "theirs") {
        Ok("-at".to_owned())
    } else if crate::fields::same_text(mode, "yours") {
        Ok("-ay".to_owned())
    } else if crate::fields::same_text(mode, "merge") {
        Ok("-am".to_owned())
    } else {
        let mut e = "Invalid mode: ".to_owned();
        e.append(mode);
        e.append(". Must be 'theirs', 'yours', or 'merge'");
        Err(e)
    }
}

/// The extension that a temporary copy of `path` gets: a dot and what follows the last
/// dot, or `.txt` where that holds a `/`.
pub open spec fn extension_of(path: Seq<char>) -> Seq<char> {
    let e = match rfind(path, '.') {
        Some(i) => path.skip(i + 1),
        None => path,
    };
    if e.contains('/') {
        ".txt"@
    } else {
        seq!['.'] + e
    }
}

/// The extension for a temporary copy of `path`.
pub fn temp_extension(path: &str) -> (r: String)
    ensures
        r@ == extension_of(path@),
{
    let cs = chars_of(path);
    let total = cs.len();
    let e = match rfind_in(&cs, '.') {
        Some(i) => {
            let e = slice_of(&cs, i + 1, total);
            assert(e@ =~= cs@.skip(i + 1));
            e
        },
        None => {
            let e = slice_of(&cs, 0, total);
            assert(e@ =~= cs@);
            e
        },
    };
    let ghost ee = match rfind(path@, '.') {
        Some(i) => path@.skip(i + 1),
        None => path@,
    };
    assert(e@ == ee);
    let mut k: usize = 0;
    while k < e.len()
        invariant
            k <= e@.len(),
            e@ == ee,
            ee == match rfind(path@, '.') {
                Some(i) => path@.skip(i + 1),
                None => path@,
            },
            forall|j: int| 0 <= j < k ==> e@[j] != '/',
        decreases e@.len() - k,
    {
        if e[k] == '/' {
            assert(e@[k as int] == '/');
            assert(e@.contains('/'));
            return ".txt".to_owned();
        }
        k = k + 1;
    }
    let mut r = String::new();
    push_char(&mut r, '.');
    let tail = string_of(&e, 0, e.len());
    r.append(tail.as_str());
    assert(e@.subrange(0, e@.len() as int) =~= e@);
    assert(r@ =~= seq!['.'] + e@);
    r
}

/// The text the tool's failure is reported with: its standard error, or where that is
/// empty, its exit code.
pub open spec fn failure_text(stderr: Seq<char>, code: Option<i32>) -> Seq<char> {
    if stderr.len() > 0 {
        stderr
    } else {
        "p4 exited with code: "@ + match code {
            Some(c) => "Some("@ + int_text(c as int) + ")"@,
            None => "None"@,
        }
    }
}

/// How a failed run of the tool is reported.
pub fn failure_message(stderr: &str, code: Option<i32>) -> (r: String)
    ensures
        r@ == failure_text(stderr@, code),
{
    if !stderr.is_empty() {
        return stderr.to_owned();
    }
    let mut m = "p4 exited with code: ".to_owned();
    match code {
        Some(c) => {
            m.append("Some(");
            push_int(&mut m, c as i64);
            m.append(")");
        },
        None => {
            m.append("None");
        },
    }
    m
}

/// A listing command whose "nothing matched" comes as an error.
#[derive(Clone, Copy, Debug, PartialEq, Eq, Structural)]
pub enum Listing {
    DescribeShelved,
    ReconcilePreview,
    Files,
    Dirs,
    FstatUnresolved,
}

/// What to make of a listing command's run.
#[derive(Clone, Copy, Debug, PartialEq, Eq, Structural)]
pub enum ListingOutcome {
    /// A valid, empty result.
    NothingMatched,
    /// The standard error is the error.
    Failed,
    /// The standard output holds the result.
    Parse,
}

/// The standard-error phrases by which each listing says that nothing matched.
pub open spec fn nothing_matched_phrases(l: Listing) -> Seq<Seq<char>> {
    match l {
        Listing::DescribeShelved => seq!["no shelved files"@, "not shelved"@, "no shelf"@],
        Listing::ReconcilePreview => seq!["no file(s) to reconcile"@],
        Listing::Files => seq!["no such file(s)"@],
        Listing::Dirs => seq!["no such file(s)"@, "must refer to client"@],
        Listing::FstatUnresolved => seq!["no such file(s)"@],
    }
}

/// Whether the standard error says that nothing matched; for `describe -S` in any case,
/// or by saying nothing at all where the output is empty too.
pub open spec fn says_nothing_matched(l: Listing, stdout: Seq<char>, stderr: Seq<char>) -> bool {
    let text = if l == Listing::DescribeShelved {
        lower_of(stderr)
    } else {
        stderr
    };
    (exists|i: int| 0 <= i < nothing_matched_phrases(l).len() && contains(text, nothing_matched_phrases(l)[i]))
        || (l == Listing::DescribeShelved && trim(stdout).len() == 0 && trim(stderr).len() == 0)
}

/// The treatment table: describe -S and dirs fail on a failed exit unless nothing
/// matched; files fails on a failed exit unless nothing matched and then parses what
/// there is; reconcile -n and fstat -Ru ignore the exit status.
pub open spec fn listing_outcome_of(l: Listing, exit_ok: bool, stdout: Seq<char>, stderr: Seq<char>) -> ListingOutcome {
    let none = says_nothing_matched(l, stdout, stderr);
    match l {
        Listing::DescribeShelved => if exit_ok {
            ListingOutcome::Parse
        } else if none {
            ListingOutcome::NothingMatched
        } else {
            ListingOutcome::Failed
        },
        Listing::ReconcilePreview => if none {
            ListingOutcome::NothingMatched
        } else {
            ListingOutcome::Parse
        },
        Listing::Files => if !exit_ok && !none {
            ListingOutcome::Failed
        } else {
            ListingOutcome::Parse
        },
        Listing::Dirs => if none {
            ListingOutcome::NothingMatched
        } else if !exit_ok {
            ListingOutcome::Failed
        } else {
            ListingOutcome::Parse
        },
        Listing::FstatUnresolved => if none {
            ListingOutcome::NothingMatched
        } else {
            ListingOutcome::Parse
        },
    }
}

fn says_nothing(l: Listing, stdout: &str, stderr: &str) -> (r: bool)
    ensures
        r == says_nothing_matched(l, stdout@, stderr@),
{
    let text = match l {
        Listing::DescribeShelved => lowercase(stderr),
        _ => stderr.to_owned(),
    };
    let tc = chars_of(text.as_str());
    let phrases: Vec<&str> = match l {
        Listing::DescribeShelved => vec!["no shelved files", "not shelved", "no shelf"],
        Listing::ReconcilePreview => vec!["no file(s) to reconcile"],
        Listing::Files => vec!["no such file(s)"],
        Listing::Dirs => vec!["no such file(s)", "must refer to client"],
        Listing::FstatUnresolved => vec!["no such file(s)"],
    };
    let ghost ps = nothing_matched_phrases(l);
    assert(phrases@.map_values(|p: &str| p@) =~= ps);
    let mut i: usize = 0;
    while i < phrases.len()
        invariant
            i <= phrases@.len(),
            ps == nothing_matched_phrases(l),
            phrases@.map_values(|p: &str| p@) == ps,
            tc@ == (if l == Listing::DescribeShelved { lower_of(stderr@) } else { stderr@ }),
            forall|j: int| 0 <= j < i ==> !contains(tc@, ps[j]),
        decreases phrases@.len() - i,
    {
        assert(phrases@[i as int]@ == ps[i as int]);
        if contains_in(&tc, phrases[i]) {
            return true;
        }
        i = i + 1;
    }
    if l == Listing::DescribeShelved {
        let o = chars_of(stdout);
        let e = chars_of(stderr);
        let to = trimmed(&o);
        let te = trimmed(&e);
        to.len() == 0 && te.len() == 0
    } else {
        false
    }
}

/// What to make of a run of a listing command.
pub fn listing_outcome(l: Listing, exit_ok: bool, stdout: &str, stderr: &str) -> (r: ListingOutcome)
    ensures
        r == listing_outcome_of(l, exit_ok, stdout@, stderr@),
{
    let none = says_nothing(l, stdout, stderr);
    match l {
        Listing::DescribeShelved => if exit_ok {
            ListingOutcome::Parse
        } else if none {
            ListingOutcome::NothingMatched
        } else {
            ListingOutcome::Failed
        },
        Listing::ReconcilePreview => if none {
            ListingOutcome::NothingMatched
        } else {
            ListingOutcome::Parse
        },
        Listing::Files => if !exit_ok && !none {
            ListingOutcome::Failed
        } else {
            ListingOutcome::Parse
        },
        Listing::Dirs => if none {
            ListingOutcome::NothingMatched
        } else if !exit_ok {
            ListingOutcome::Failed
        } else {
            ListingOutcome::Parse
        },
        Listing::FstatUnresolved => if none {
            ListingOutcome::NothingMatched
        } else {
            ListingOutcome::Parse
        },
    }
}

/// What `unshelve` reports: its standard output, and after a line feed its standard
/// error where there is any.
pub fn combined_output(stdout: &str, stderr: &str) -> (r: String)
    ensures
        r@ == (if stderr@.len() == 0 {
            stdout@
        } else {
            stdout@ + seq!['\n'] + stderr@
        }),
{
    let mut r = stdout.to_owned();
    if !stderr.is_empty() {
        push_char(&mut r, '\n');
        r.append(stderr);
    }
    r
}

/// The outcome of `reconcile` on chosen files: a failed exit is an error with the
/// standard error (or, where that is empty, the standard output); output that is blank
/// once trimmed means nothing was reconciled; otherwise the output.
pub fn reconcile_apply_outcome(exit_ok: bool, stdout: &str, stderr: &str) -> (r: Result<String, String>)
    ensures
        match r {
            Ok(o) => exit_ok && trim(stdout@).len() > 0 && o@ == stdout@,
            Err(e) => if !exit_ok {
                e@ == (if stderr@.len() == 0 {
                    stdout@
                } else {
                    stderr@
                })
            } else {
                trim(stdout@).len() == 0 && e@
                    == "No files were reconciled. The files may already be open or unchanged."@
            },
        },
{
    if !exit_ok {
        return Err(
            if stderr.is_empty() {
                stdout.to_owned()
            } else {
                stderr.to_owned()
            },
        );
    }
    let cs = chars_of(stdout);
    let t = trimmed(&cs);
    if t.len() == 0 {
        return Err("No files were reconciled. The files may already be open or unchanged.".to_owned());
    }
    Ok(stdout.to_owned())
}

} // verus!

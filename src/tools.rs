use vstd::prelude::*;
use crate::fields::{field, get_text};
use crate::numbers::{parse_u64, parse_u64_spec};
use crate::parsing::{first_or_empty, first_record};
use crate::record::{Fields, ZtagRecord, views_of};
use crate::text::{
    chars_of, contains, contains_in, find, find_in, occurs_at, push_char, slice_of, string_of,
};
use crate::files::{words, words_from};

verus! {

/// The largest file, in bytes, shown or annotated in the application.
pub const MAX_CONTENT_SIZE: u64 = 10 * 1024 * 1024;

/// Why a file's content is not shown.
#[derive(Debug, Clone)]
pub enum ContentRefusal {
    /// `fstat` gave no record.
    NotFound,
    /// The head type, which names a binary type.
    Binary(String),
    /// The size in bytes, over [`MAX_CONTENT_SIZE`].
    TooLarge(u64),
}

pub open spec fn is_binary(m: Fields) -> bool {
    m.contains_key("headType"@) && contains(m["headType"@], "binary"@)
}

pub open spec fn size_of(m: Fields) -> Option<u64> {
    match field(m, "fileSize"@) {
        Some(s) => parse_u64_spec(s),
        None => None,
    }
}

pub open spec fn too_large(m: Fields) -> bool {
    size_of(m) matches Some(n) && n > MAX_CONTENT_SIZE
}

/// Whether the file that `fstat` output describes may be shown: it must be found, not
/// be binary, and not be larger than [`MAX_CONTENT_SIZE`] where its size is given.
pub fn content_guard(records: &Vec<ZtagRecord>) -> (r: Result<(), ContentRefusal>)
    ensures
        match r {
            Ok(_) => records@.len() > 0 && !is_binary(records@[0]@) && !too_large(records@[0]@),
            Err(ContentRefusal::NotFound) => records@.len() == 0,
            Err(ContentRefusal::Binary(t)) => records@.len() > 0 && is_binary(records@[0]@) && t@
                == records@[0]@["headType"@],
            Err(ContentRefusal::TooLarge(n)) => records@.len() > 0 && !is_binary(records@[0]@)
                && size_of(records@[0]@) == Some(n) && too_large(records@[0]@),
        },
{
    if records.len() == 0 {
        return Err(ContentRefusal::NotFound);
    }
    let info = &records[0];
    match get_text(info, "headType") {
        Some(t) => {
            let tc = chars_of(t.as_str());
            if contains_in(&tc, "binary") {
                return Err(ContentRefusal::Binary(t));
            }
        },
        None => {},
    }
    match info.get("fileSize") {
        Some(s) => match parse_u64(s.as_str()) {
            Some(n) => if n > MAX_CONTENT_SIZE {
                return Err(ContentRefusal::TooLarge(n));
            },
            None => {},
        },
        None => {},
    }
    Ok(())
}

/// The two revisions that a merge of a file needing resolution starts from.
#[derive(Debug, Clone)]
pub struct MergeSources {
    pub base_file: String,
    pub base_rev: String,
    pub theirs_file: String,
    pub theirs_rev: String,
}

/// Base file, base revision, "theirs" file and "theirs" revision.
pub type SourcesView = (Seq<char>, Seq<char>, Seq<char>, Seq<char>);

/// Where the merge sources of the file that `fstat` output (its first record) describes
/// are missing, the message for the first missing one.
pub open spec fn merge_sources_of(m: Fields) -> Result<SourcesView, Seq<char>> {
    if !m.contains_key("resolveBaseFile"@) {
        Err("No resolveBaseFile found - file may not need resolution"@)
    } else if !m.contains_key("resolveBaseRev"@) {
        Err("No resolveBaseRev found"@)
    } else if !m.contains_key("resolveFromFile0"@) {
        Err("No resolveFromFile0 found"@)
    } else if !m.contains_key("resolveEndFromRev0"@) {
        Err("No resolveEndFromRev0 found"@)
    } else {
        Ok(
            (
                m["resolveBaseFile"@],
                m["resolveBaseRev"@],
                m["resolveFromFile0"@],
                m["resolveEndFromRev0"@],
            ),
        )
    }
}

fn required(fields: &ZtagRecord, key: &str, missing: &str) -> (r: Result<String, String>)
    ensures
        match r {
            Ok(v) => fields@.contains_key(key@) && v@ == fields@[key@],
            Err(e) => !fields@.contains_key(key@) && e@ == missing@,
        },
{
    match get_text(fields, key) {
        Some(v) => Ok(v),
        None => Err(missing.to_owned()),
    }
}

/// The base and "theirs" revisions of the file that `fstat` output describes.
pub fn merge_sources(records: &Vec<ZtagRecord>) -> (r: Result<MergeSources, String>)
    requires
        forall|k: int| 0 <= k < records@.len() ==> (#[trigger] records@[k]).wf(),
    ensures
        match r {
            Ok(s) => merge_sources_of(first_record(views_of(records@))) == Ok::<SourcesView, Seq<char>>(
                (s.base_file@, s.base_rev@, s.theirs_file@, s.theirs_rev@),
            ),
            Err(e) => merge_sources_of(first_record(views_of(records@))) == Err::<
                SourcesView,
                Seq<char>,
            >(e@),
        },
{
    let fields = first_or_empty(records);
    let base_missing = "No resolveBaseFile found - file may not need resolution";
    let base_file = match required(&fields, "resolveBaseFile", base_missing) {
        Ok(v) => v,
        Err(e) => {
            return Err(e);
        },
    };
    let base_rev = match required(&fields, "resolveBaseRev", "No resolveBaseRev found") {
        Ok(v) => v,
        Err(e) => {
            return Err(e);
        },
    };
    let theirs_file = match required(&fields, "resolveFromFile0", "No resolveFromFile0 found") {
        Ok(v) => v,
        Err(e) => {
            return Err(e);
        },
    };
    let theirs_rev = match required(&fields, "resolveEndFromRev0", "No resolveEndFromRev0 found") {
        Ok(v) => v,
        Err(e) => {
            return Err(e);
        },
    };
    Ok(MergeSources { base_file, base_rev, theirs_file, theirs_rev })
}

/// `path` with each `/` and `\` turned into `_`, fit for a file name.
pub open spec fn flattened(path: Seq<char>) -> Seq<char> {
    path.map_values(|c: char| if c == '/' || c == '\\' { '_' } else { c })
}

/// `path` made fit for a file name.
pub fn flatten_path(path: &str) -> (r: String)
    ensures
        r@ == flattened(path@),
{
    let cs = chars_of(path);
    let mut out = String::new();
    let mut i: usize = 0;
    while i < cs.len()
        invariant
            i <= cs@.len(),
            out@ == flattened(cs@.take(i as int)),
        decreases cs@.len() - i,
    {
        let c = cs[i];
        let d = if c == '/' || c == '\\' {
            '_'
        } else {
            c
        };
        push_char(&mut out, d);
        assert(flattened(cs@.take(i + 1)) =~= flattened(cs@.take(i as int)).push(d));
        i = i + 1;
    }
    assert(cs@.take(cs@.len() as int) =~= cs@);
    out
}

/// `s` with each occurrence of `pat` (not empty), left to right, replaced by `rep`.
pub open spec fn replace_all(s: Seq<char>, pat: Seq<char>, rep: Seq<char>) -> Seq<char>
    decreases s.len(),
{
    if pat.len() == 0 {
        s
    } else {
        match find(s, pat) {
            Some(i) => if 0 <= i && i + pat.len() <= s.len() {
                s.take(i) + rep + replace_all(s.skip(i + pat.len()), pat, rep)
            } else {
                s
            },
            None => s,
        }
    }
}

/// `s` with each occurrence of `pat` replaced by `rep`, as `str::replace` does it.
pub fn replace_text(s: &str, pat: &str, rep: &str) -> (r: String)
    requires
        pat@.len() > 0,
    ensures
        r@ == replace_all(s@, pat@, rep@),
{
    let p = chars_of(pat);
    let mut rest = chars_of(s);
    let mut out = String::new();
    loop
        invariant
            p@ == pat@,
            p@.len() > 0,
            out@ + replace_all(rest@, p@, rep@) == replace_all(s@, pat@, rep@),
        decreases rest@.len(),
    {
        match find_in(&rest, &p) {
            Some(i) => {
                assert(occurs_at(rest@, p@, i as int));
                let head = string_of(&rest, 0, i);
                out.append(head.as_str());
                out.append(rep);
                let n = rest.len();
                let next = slice_of(&rest, i + p.len(), n);
                assert(next@ =~= rest@.skip(i + p@.len()));
                rest = next;
            },
            None => {
                let tail = string_of(&rest, 0, rest.len());
                assert(tail@ =~= rest@);
                out.append(tail.as_str());
                return out;
            },
        }
    }
}

/// Whether diff tool arguments name where the two files go.
pub open spec fn has_placeholder(a: Seq<char>) -> bool {
    contains(a, "{left}"@) || contains(a, "{right}"@) || contains(a, "$LOCAL"@) || contains(a, "$REMOTE"@)
}

/// An argument with `{left}` and `$LOCAL` replaced by `left`, `{right}` and `$REMOTE` by
/// `right`, in that order.
pub open spec fn substituted(w: Seq<char>, left: Seq<char>, right: Seq<char>) -> Seq<char> {
    replace_all(
        replace_all(replace_all(replace_all(w, "{left}"@, left), "{right}"@, right), "$LOCAL"@, left),
        "$REMOTE"@,
        right,
    )
}

/// The arguments a diff tool is launched with: the configured ones split at white space,
/// with the two paths put in where placeholders say, or after them where none does.
pub open spec fn diff_args_of(left: Seq<char>, right: Seq<char>, args: Option<Seq<char>>) -> Seq<Seq<char>> {
    match args {
        Some(a) => if a.len() == 0 {
            seq![left, right]
        } else if has_placeholder(a) {
            words_from(a, 0).map_values(|w: Seq<char>| substituted(w, left, right))
        } else {
            words_from(a, 0) + seq![left, right]
        },
        None => seq![left, right],
    }
}

fn substitute(w: &str, left: &str, right: &str) -> (r: String)
    ensures
        r@ == substituted(w@, left@, right@),
{
    proof {
        reveal_strlit("{left}");
        reveal_strlit("{right}");
        reveal_strlit("$LOCAL");
        reveal_strlit("$REMOTE");
    }
    let a = replace_text(w, "{left}", left);
    let b = replace_text(a.as_str(), "{right}", right);
    let c = replace_text(b.as_str(), "$LOCAL", left);
    replace_text(c.as_str(), "$REMOTE", right)
}

/// The arguments to launch a diff tool with on `left` and `right`.
pub fn diff_tool_args(left: &str, right: &str, args: &Option<String>) -> (r: Vec<String>)
    ensures
        r@.map_values(|s: String| s@) == diff_args_of(left@, right@, args.deep_view()),
{
    let mut out: Vec<String> = Vec::new();
    match args {
        Some(a) if !a.as_str().is_empty() => {
            let ac = chars_of(a.as_str());
            let ws = words(&ac);
            let placeholders = contains_in(&ac, "{left}") || contains_in(&ac, "{right}")
                || contains_in(&ac, "$LOCAL") || contains_in(&ac, "$REMOTE");
            let ghost wv = ws@.map_values(|s: String| s@);
            let mut i: usize = 0;
            while i < ws.len()
                invariant
                    i <= ws@.len(),
                    wv == ws@.map_values(|s: String| s@),
                    out@.map_values(|s: String| s@) == (if placeholders {
                        wv.take(i as int).map_values(|w: Seq<char>| substituted(w, left@, right@))
                    } else {
                        wv.take(i as int)
                    }),
                decreases ws@.len() - i,
            {
                let item = if placeholders {
                    substitute(ws[i].as_str(), left, right)
                } else {
                    ws[i].clone()
                };
                let ghost before = out@.map_values(|s: String| s@);
                out.push(item);
                assert(out@.map_values(|s: String| s@) =~= before.push(item@));
                assert(wv.take(i + 1) =~= wv.take(i as int).push(wv[i as int]));
                assert(wv.take(i + 1).map_values(|w: Seq<char>| substituted(w, left@, right@))
                    =~= wv.take(i as int).map_values(|w: Seq<char>| substituted(w, left@, right@)).push(
                    substituted(wv[i as int], left@, right@),
                ));
                i = i + 1;
            }
            assert(wv.take(ws@.len() as int) =~= wv);
            if !placeholders {
                let ghost before = out@.map_values(|s: String| s@);
                out.push(left.to_owned());
                out.push(right.to_owned());
                assert(out@.map_values(|s: String| s@) =~= before + seq![left@, right@]);
            }
        },
        _ => {
            out.push(left.to_owned());
            out.push(right.to_owned());
            assert(out@.map_values(|s: String| s@) =~= seq![left@, right@]);
        },
    }
    out
}

} // verus!

use vstd::prelude::*;
use crate::text::{chars_of, lines, lines_of, push_char, starts_with, starts_with_str, string_of};

verus! {

/// The block that a form's description becomes: the heading, then the text on one
/// tab-indented line.
pub open spec fn description_block(description: Seq<char>) -> Seq<char> {
    "Description:\n"@ + seq!['\t'] + description + seq!['\n']
}

pub open spec fn tab_led(line: Seq<char>) -> bool {
    line.len() > 0 && line[0] == '\t'
}

/// One line of a changelist form read, while the old description's lines are skipped.
pub open spec fn describe_step(st: (Seq<char>, bool), line: Seq<char>, description: Seq<char>) -> (Seq<char>, bool) {
    let (out, in_desc) = st;
    if starts_with(line, "Description:"@) {
        (out + description_block(description), true)
    } else if in_desc && tab_led(line) {
        st
    } else {
        (out + line + seq!['\n'], false)
    }
}

pub open spec fn describe_fold(ls: Seq<Seq<char>>, description: Seq<char>) -> (Seq<char>, bool)
    decreases ls.len(),
{
    if ls.len() == 0 {
        (Seq::empty(), false)
    } else {
        describe_step(describe_fold(ls.drop_last(), description), ls.last(), description)
    }
}

/// A changelist form with its description replaced by `description`.
pub open spec fn with_description(form: Seq<char>, description: Seq<char>) -> Seq<char> {
    describe_fold(lines_of(form), description).0
}

fn append_line(out: &mut String, line: &Vec<char>)
    ensures
        final(out)@ == old(out)@ + line@ + seq!['\n'],
{
    let s = string_of(line, 0, line.len());
    assert(line@.subrange(0, line@.len() as int) =~= line@);
    out.append(s.as_str());
    push_char(out, '\n');
}

fn append_description(out: &mut String, description: &str)
    ensures
        final(out)@ == old(out)@ + description_block(description@),
{
    out.append("Description:\n");
    push_char(out, '\t');
    out.append(description);
    push_char(out, '\n');
    assert(final(out)@ =~= old(out)@ + description_block(description@));
}

fn tab_first(line: &Vec<char>) -> (r: bool)
    ensures
        r == tab_led(line@),
{
    line.len() > 0 && line[0] == '\t'
}

/// A changelist form (`change -o` output) with its description replaced.
pub fn replace_description(form: &str, description: &str) -> (r: String)
    ensures
        r@ == with_description(form@, description@),
{
    let cs = chars_of(form);
    let ls = lines(&cs);
    let ghost lv = ls@.map_values(|l: Vec<char>| l@);
    let mut out = String::new();
    let mut in_desc = false;
    let mut i: usize = 0;
    while i < ls.len()
        invariant
            i <= ls@.len(),
            lv == ls@.map_values(|l: Vec<char>| l@),
            (out@, in_desc) == describe_fold(lv.take(i as int), description@),
        decreases ls@.len() - i,
    {
        assert(lv.take(i + 1).drop_last() =~= lv.take(i as int));
        assert(lv.take(i + 1).last() == ls@[i as int]@);
        let line = &ls[i];
        if starts_with_str(line, "Description:") {
            append_description(&mut out, description);
            in_desc = true;
        } else if in_desc && tab_first(line) {
        } else {
            append_line(&mut out, line);
            in_desc = false;
        }
        i = i + 1;
    }
    assert(lv.take(ls@.len() as int) =~= lv);
    out
}

/// One line of the template read for a new changelist: the description replaced as
/// above, and the `Files:` section left out, with the first untabbed line after it.
pub open spec fn new_change_step(
    st: (Seq<char>, bool, bool),
    line: Seq<char>,
    description: Seq<char>,
) -> (Seq<char>, bool, bool) {
    let (out, in_desc, in_files) = st;
    if starts_with(line, "Description:"@) {
        (out + description_block(description), true, in_files)
    } else if in_desc && tab_led(line) {
        st
    } else if starts_with(line, "Files:"@) {
        (out, in_desc, true)
    } else if in_files && tab_led(line) {
        st
    } else if in_files {
        (out, in_desc, false)
    } else if in_desc {
        (out + line + seq!['\n'], false, in_files)
    } else {
        (out + line + seq!['\n'], in_desc, in_files)
    }
}

pub open spec fn new_change_fold(ls: Seq<Seq<char>>, description: Seq<char>) -> (Seq<char>, bool, bool)
    decreases ls.len(),
{
    if ls.len() == 0 {
        (Seq::empty(), false, false)
    } else {
        new_change_step(new_change_fold(ls.drop_last(), description), ls.last(), description)
    }
}

/// The form for a new changelist made from the template `form`.
pub open spec fn new_change_form_of(form: Seq<char>, description: Seq<char>) -> Seq<char> {
    new_change_fold(lines_of(form), description).0
}

/// The form for a new changelist: the template (`change -o` output) with `description`
/// and without its files.
pub fn new_change_form(form: &str, description: &str) -> (r: String)
    ensures
        r@ == new_change_form_of(form@, description@),
{
    let cs = chars_of(form);
    let ls = lines(&cs);
    let ghost lv = ls@.map_values(|l: Vec<char>| l@);
    let mut out = String::new();
    let mut in_desc = false;
    let mut in_files = false;
    let mut i: usize = 0;
    while i < ls.len()
        invariant
            i <= ls@.len(),
            lv == ls@.map_values(|l: Vec<char>| l@),
            (out@, in_desc, in_files) == new_change_fold(lv.take(i as int), description@),
        decreases ls@.len() - i,
    {
        assert(lv.take(i + 1).drop_last() =~= lv.take(i as int));
        assert(lv.take(i + 1).last() == ls@[i as int]@);
        let line = &ls[i];
        let tab = tab_first(line);
        if starts_with_str(line, "Description:") {
            append_description(&mut out, description);
            in_desc = true;
        } else if in_desc && tab {
        } else if starts_with_str(line, "Files:") {
            in_files = true;
        } else if in_files && tab {
        } else if in_files {
            in_files = false;
        } else if in_desc {
            append_line(&mut out, line);
            in_desc = false;
        } else {
            append_line(&mut out, line);
        }
        i = i + 1;
    }
    assert(lv.take(ls@.len() as int) =~= lv);
    out
}

/// One line of a client form read: the `Stream:` line names `stream`.
pub open spec fn stream_line(line: Seq<char>, stream: Seq<char>) -> Seq<char> {
    if starts_with(line, "Stream:"@) {
        "Stream:"@ + seq!['\t'] + stream + seq!['\n']
    } else {
        line + seq!['\n']
    }
}

pub open spec fn stream_fold(ls: Seq<Seq<char>>, stream: Seq<char>) -> Seq<char>
    decreases ls.len(),
{
    if ls.len() == 0 {
        Seq::empty()
    } else {
        stream_fold(ls.drop_last(), stream) + stream_line(ls.last(), stream)
    }
}

/// A client form (`client -o` output) switched to `stream`.
pub fn replace_stream(form: &str, stream: &str) -> (r: String)
    ensures
        r@ == stream_fold(lines_of(form@), stream@),
{
    let cs = chars_of(form);
    let ls = lines(&cs);
    let ghost lv = ls@.map_values(|l: Vec<char>| l@);
    let mut out = String::new();
    let mut i: usize = 0;
    while i < ls.len()
        invariant
            i <= ls@.len(),
            lv == ls@.map_values(|l: Vec<char>| l@),
            out@ == stream_fold(lv.take(i as int), stream@),
        decreases ls@.len() - i,
    {
        assert(lv.take(i + 1).drop_last() =~= lv.take(i as int));
        assert(lv.take(i + 1).last() == ls@[i as int]@);
        let line = &ls[i];
        let ghost before = out@;
        if starts_with_str(line, "Stream:") {
            out.append("Stream:");
            push_char(&mut out, '\t');
            out.append(stream);
            push_char(&mut out, '\n');
        } else {
            append_line(&mut out, line);
        }
        assert(out@ =~= before + stream_line(line@, stream@));
        i = i + 1;
    }
    assert(lv.take(ls@.len() as int) =~= lv);
    out
}

} // verus!

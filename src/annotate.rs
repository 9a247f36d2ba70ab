use vstd::prelude::*;
use crate::numbers::{parse_i32, parse_i32_spec};
use crate::text::{chars_of, lines, lines_of, string_of};
use crate::types::{P4AnnotationLine, P4AnnotationLineView};

verus! {

/// Change number, user, date and content.
pub type Groups = (Seq<char>, Seq<char>, Seq<char>, Seq<char>);

/// The groups of a line of `annotate -u -c` output: change number, user, date and
/// content, where the line has that shape.
pub uninterp spec fn annotation_groups(line: Seq<char>) -> Option<(Seq<char>, Seq<char>, Seq<char>, Seq<char>)>;

/// The pattern of a line of `annotate -u -c` output: `<change>: <user> <yyyy/mm/dd> <content>`.
pub const ANNOTATION_PATTERN: &'static str = r"^(\d+):\s+(\S+)\s+(\d{4}/\d{2}/\d{2})\s+(.*)$";

/// Relies on regex's `Regex::new` and `Regex::captures` with [`ANNOTATION_PATTERN`]:
/// the pattern is a fixed, valid one well under the size limits, so it compiles; for
/// each line its four groups where it matches, which depend on the line alone.
#[verifier::external_body]
fn annotation_captures(lines: &Vec<String>) -> (r: Result<Vec<Option<(String, String, String, String)>>, String>)
    ensures
        match r {
            Ok(v) => v@.len() == lines@.len() && forall|i: int|
                0 <= i < v@.len() ==> (#[trigger] v@[i]).deep_view() == annotation_groups(lines@[i]@),
            Err(_) => false,
        },
{
    let re = regex::Regex::new(ANNOTATION_PATTERN).map_err(|e| e.to_string())?;
    let mut out = Vec::with_capacity(lines.len());
    for l in lines.iter() {
        out.push(re.captures(l).map(|c| (c[1].to_string(), c[2].to_string(), c[3].to_string(), c[4].to_string())));
    }
    Ok(out)
}

/// The text of the error that `str::parse::<i32>` gives for `s`.
pub uninterp spec fn int_error_text(s: Seq<char>) -> Seq<char>;

/// Relies on `str::parse::<i32>` and the `Display` of its `ParseIntError`: the text of
/// the error for `s`, which fails to read as an `i32`.
#[verifier::external_body]
fn int_error(s: &str) -> (r: String)
    requires
        parse_i32_spec(s@) is None,
    ensures
        r@ == int_error_text(s@),
{
    match s.parse::<i32>() {
        Err(e) => e.to_string(),
        Ok(_) => String::new(),
    }
}

/// The annotated lines of the captures `caps`, numbered from 1 in order; the first
/// change number that does not read as a number is the error.
pub open spec fn annotations_of(caps: Seq<Option<Groups>>) -> Result<Seq<P4AnnotationLineView>, Seq<char>>
    decreases caps.len(),
{
    if caps.len() == 0 {
        Ok(Seq::empty())
    } else {
        match annotations_of(caps.drop_last()) {
            Err(e) => Err(e),
            Ok(prev) => match caps.last() {
                None => Ok(prev),
                Some((cl, user, date, content)) => match parse_i32_spec(cl) {
                    None => Err("Failed to parse changelist ID: "@ + int_error_text(cl)),
                    Some(id) => Ok(
                        prev.push(
                            P4AnnotationLineView {
                                line_number: (prev.len() + 1) as i32,
                                changelist_id: id,
                                user,
                                date,
                                line_content: content,
                            },
                        ),
                    ),
                },
            },
        }
    }
}

proof fn lemma_annotations_len(caps: Seq<Option<Groups>>)
    ensures
        annotations_of(caps) matches Ok(v) ==> v.len() <= caps.len(),
    decreases caps.len(),
{
    if caps.len() > 0 {
        lemma_annotations_len(caps.drop_last());
    }
}

proof fn lemma_error_sticks(caps: Seq<Option<Groups>>, j: int, k: int)
    requires
        0 <= j <= k <= caps.len(),
        annotations_of(caps.take(j)) is Err,
    ensures
        annotations_of(caps.take(k)) == annotations_of(caps.take(j)),
    decreases k - j,
{
    if k > j {
        lemma_error_sticks(caps, j, k - 1);
        assert(caps.take(k).drop_last() =~= caps.take(k - 1));
    }
}

pub open spec fn view_of_captures(v: Seq<Option<(String, String, String, String)>>) -> Seq<Option<Groups>> {
    v.map_values(|c: Option<(String, String, String, String)>| c.deep_view())
}

/// Parses `annotate -u -c` output: each line of the shape `<change>: <user> <date>
/// <content>` in order, numbered from 1; other lines are skipped.
pub fn parse_annotate_output(output: &str) -> (r: Result<Vec<P4AnnotationLine>, String>)
    requires
        lines_of(output@).len() < 0x7fff_ffff,
    ensures
        r matches Ok(v) ==> annotations_of(
            lines_of(output@).map_values(|l: Seq<char>| annotation_groups(l)),
        ) == Ok::<Seq<P4AnnotationLineView>, Seq<char>>(v@.map_values(|a: P4AnnotationLine| a@)),
        r matches Err(e) ==> annotations_of(
            lines_of(output@).map_values(|l: Seq<char>| annotation_groups(l)),
        ) == Err::<Seq<P4AnnotationLineView>, Seq<char>>(e@),
{
    let cs = chars_of(output);
    let ls = lines(&cs);
    let mut texts: Vec<String> = Vec::new();
    let mut k: usize = 0;
    while k < ls.len()
        invariant
            k <= ls@.len(),
            texts@.len() == k,
            forall|j: int| 0 <= j < k ==> (#[trigger] texts@[j])@ == ls@[j]@,
        decreases ls@.len() - k,
    {
        let t = string_of(&ls[k], 0, ls[k].len());
        assert(ls@[k as int]@.subrange(0, ls@[k as int]@.len() as int) =~= ls@[k as int]@);
        texts.push(t);
        k = k + 1;
    }
    let caps = match annotation_captures(&texts) {
        Ok(c) => c,
        Err(e) => {
            assert(false);
            return Err(e);
        },
    };
    let ghost cv = view_of_captures(caps@);
    assert(cv =~= lines_of(output@).map_values(|l: Seq<char>| annotation_groups(l)));
    let mut out: Vec<P4AnnotationLine> = Vec::new();
    let mut i: usize = 0;
    assert(cv.take(0) =~= Seq::<Option<Groups>>::empty());
    assert(out@.map_values(|a: P4AnnotationLine| a@) =~= Seq::<P4AnnotationLineView>::empty());
    while i < caps.len()
        invariant
            i <= caps@.len(),
            caps@.len() < 0x7fff_ffff,
            cv == view_of_captures(caps@),
            cv == lines_of(output@).map_values(|l: Seq<char>| annotation_groups(l)),
            annotations_of(cv.take(i as int)) == Ok::<Seq<P4AnnotationLineView>, Seq<char>>(
                out@.map_values(|a: P4AnnotationLine| a@),
            ),
        decreases caps@.len() - i,
    {
        assert(cv.take(i + 1).drop_last() =~= cv.take(i as int));
        assert(cv.take(i + 1).last() == caps@[i as int].deep_view());
        proof {
            lemma_annotations_len(cv.take(i as int));
        }
        match &caps[i] {
            None => {},
            Some((cl, user, date, content)) => {
                match parse_i32(cl.as_str()) {
                    None => {
                        let mut m = "Failed to parse changelist ID: ".to_owned();
                        let t = int_error(cl.as_str());
                        m.append(t.as_str());
                        proof {
                            assert(annotations_of(cv.take(i + 1)) == Err::<Seq<P4AnnotationLineView>, Seq<char>>(m@));
                            lemma_error_sticks(cv, i + 1, cv.len() as int);
                            assert(cv.take(cv.len() as int) =~= cv);
                        }
                        return Err(m);
                    },
                    Some(id) => {
                        let n = out.len();
                        let a = P4AnnotationLine {
                            line_number: (n + 1) as i32,
                            changelist_id: id,
                            user: user.clone(),
                            date: date.clone(),
                            line_content: content.clone(),
                        };
                        let ghost before = out@.map_values(|a: P4AnnotationLine| a@);
                        out.push(a);
                        assert(out@.map_values(|a: P4AnnotationLine| a@) =~= before.push(a@));
                    },
                }
            },
        }
        i = i + 1;
    }
    assert(cv.take(caps@.len() as int) =~= cv);
    Ok(out)
}

} // verus!

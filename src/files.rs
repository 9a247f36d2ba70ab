use vstd::prelude::*;
use crate::numbers::{parse_i32, parse_i32_spec};
use crate::text::{
    chars_of, find, find_in, is_whitespace, lines, lines_of, occurs_at, rfind, rfind_in, skip_ws_from,
    slice_of, string_of, trim, trimmed,
};
use crate::sync::token_end;
use crate::types::{P4FileResult, P4FileResultView};

verus! {

/// The words of `s[i..]`, as `split_whitespace` gives them.
pub open spec fn words_from(s: Seq<char>, i: int) -> Seq<Seq<char>>
    decreases s.len() - i,
{
    let a = skip_ws_from(s, i);
    if i < 0 || a >= s.len() || a < i {
        Seq::empty()
    } else {
        let b = token_end(s, a);
        if b <= a || b > s.len() {
            Seq::empty()
        } else {
            seq![s.subrange(a, b)] + words_from(s, b)
        }
    }
}

/// The number after the first word `change`, where there is one and it reads as a number.
pub open spec fn change_after(words: Seq<Seq<char>>) -> i32 {
    if exists|k: int| 0 <= k < words.len() && words[k] == "change"@ {
        let k = choose|k: int|
            0 <= k < words.len() && words[k] == "change"@ && forall|j: int|
                0 <= j < k ==> words[j] != "change"@;
        if k + 1 < words.len() {
            match parse_i32_spec(words[k + 1]) {
                Some(v) => v,
                None => 0,
            }
        } else {
            0
        }
    } else {
        0
    }
}

/// The file type at the end of `rest`: what follows its last `(` up to a final `)`;
/// `text` where that is missing.
pub open spec fn type_of(rest: Seq<char>) -> Seq<char> {
    match rfind(rest, '(') {
        Some(p) => {
            let t = rest.skip(p + 1);
            if t.len() > 0 && t.last() == ')' {
                t.drop_last()
            } else {
                "text"@
            }
        },
        None => "text"@,
    }
}

/// The file that a line of `files` output names: `<path>#<rev> - <action> change <n>
/// (<type>)`, the line trimmed first.
pub open spec fn file_result_of(line: Seq<char>) -> Option<P4FileResultView> {
    let t = trim(line);
    match find(t, " - "@) {
        None => None,
        Some(d) => {
            let path_rev = t.take(d);
            let rest = t.skip(d + 3);
            match rfind(path_rev, '#') {
                None => None,
                Some(h) => {
                    let words = words_from(rest, 0);
                    Some(
                        P4FileResultView {
                            depot_path: path_rev.take(h),
                            revision: match parse_i32_spec(path_rev.skip(h + 1)) {
                                Some(v) => v,
                                None => 0,
                            },
                            action: if words.len() > 0 {
                                words[0]
                            } else {
                                Seq::empty()
                            },
                            change: change_after(words),
                            file_type: type_of(rest),
                        },
                    )
                },
            }
        },
    }
}

/// The files of the lines `ls`, in order, stopping once `max` are found.
pub open spec fn file_results_of(ls: Seq<Seq<char>>, max: nat) -> Seq<P4FileResultView>
    decreases ls.len(),
{
    if ls.len() == 0 {
        Seq::empty()
    } else {
        let before = file_results_of(ls.drop_last(), max);
        if before.len() >= max {
            before
        } else {
            match file_result_of(ls.last()) {
                Some(f) => before.push(f),
                None => before,
            }
        }
    }
}

/// The words of `s`, as `split_whitespace` gives them.
pub(crate) fn words(s: &Vec<char>) -> (r: Vec<String>)
    ensures
        r@.map_values(|w: String| w@) == words_from(s@, 0),
{
    let mut out: Vec<String> = Vec::new();
    let mut i: usize = 0;
    while i < s.len()
        invariant
            i <= s@.len(),
            out@.map_values(|w: String| w@) + words_from(s@, i as int) == words_from(s@, 0),
        decreases s@.len() - i,
    {
        let mut a = i;
        while a < s.len() && is_whitespace(s[a])
            invariant
                i <= a <= s@.len(),
                skip_ws_from(s@, i as int) == skip_ws_from(s@, a as int),
            decreases s@.len() - a,
        {
            a = a + 1;
        }
        proof {
            crate::sync::lemma_skip_ws_bounds(s@, a as int);
        }
        if a == s.len() {
            assert(words_from(s@, i as int) =~= Seq::<Seq<char>>::empty());
            i = a;
            assert(words_from(s@, i as int) =~= Seq::<Seq<char>>::empty()) by {
                assert(skip_ws_from(s@, i as int) == i);
            }
        } else {
            let mut b = a;
            while b < s.len() && !is_whitespace(s[b])
                invariant
                    a <= b <= s@.len(),
                    token_end(s@, a as int) == token_end(s@, b as int),
                decreases s@.len() - b,
            {
                b = b + 1;
            }
            proof {
                crate::sync::lemma_token_end_bounds(s@, a as int);
            }
            let w = string_of(s, a, b);
            let ghost before = out@.map_values(|w: String| w@);
            out.push(w);
            assert(out@.map_values(|w: String| w@) =~= before.push(w@));
            assert(words_from(s@, i as int) =~= seq![w@] + words_from(s@, b as int));
            assert(before.push(w@) + words_from(s@, b as int) =~= before + (seq![w@] + words_from(s@, b as int)));
            i = b;
        }
    }
    assert(words_from(s@, i as int) =~= Seq::<Seq<char>>::empty());
    assert(out@.map_values(|w: String| w@) + Seq::<Seq<char>>::empty() =~= out@.map_values(|w: String| w@));
    out
}

fn change_number_after(ws: &Vec<String>) -> (r: i32)
    ensures
        r == change_after(ws@.map_values(|w: String| w@)),
{
    let ghost wv = ws@.map_values(|w: String| w@);
    let mut k: usize = 0;
    while k < ws.len()
        invariant
            k <= ws@.len(),
            wv == ws@.map_values(|w: String| w@),
            forall|j: int| 0 <= j < k ==> wv[j] != "change"@,
        decreases ws@.len() - k,
    {
        if crate::fields::same_text(ws[k].as_str(), "change") {
            assert(wv[k as int] == "change"@);
            proof {
                let c = choose|c: int|
                    0 <= c < wv.len() && wv[c] == "change"@ && forall|j: int|
                        0 <= j < c ==> wv[j] != "change"@;
                assert(0 <= c < wv.len() && wv[c] == "change"@ && forall|j: int| 0 <= j < c ==> wv[j] != "change"@);
                if c < k {
                } else if k < c {
                }
                assert(c == k);
            }
            if k + 1 < ws.len() {
                return match parse_i32(ws[k + 1].as_str()) {
                    Some(v) => v,
                    None => 0,
                };
            } else {
                return 0;
            }
        }
        k = k + 1;
    }
    0
}

fn file_type_in(rest: &Vec<char>) -> (r: String)
    ensures
        r@ == type_of(rest@),
{
    let total = rest.len();
    match rfind_in(rest, '(') {
        Some(p) => {
            let t = slice_of(rest, p + 1, total);
            assert(t@ =~= rest@.skip(p + 1));
            if t.len() > 0 && t[t.len() - 1] == ')' {
                let r = string_of(&t, 0, t.len() - 1);
                assert(r@ =~= t@.drop_last());
                r
            } else {
                "text".to_owned()
            }
        },
        None => "text".to_owned(),
    }
}

fn file_result(line: &Vec<char>) -> (r: Option<P4FileResult>)
    ensures
        match r {
            Some(f) => file_result_of(line@) == Some(f@),
            None => file_result_of(line@) is None,
        },
{
    let t = trimmed(line);
    let sep = chars_of(" - ");
    proof {
        reveal_strlit(" - ");
    }
    let total = t.len();
    let d = match find_in(&t, &sep) {
        Some(d) => d,
        None => {
            return None;
        },
    };
    assert(occurs_at(t@, sep@, d as int));
    let path_rev = slice_of(&t, 0, d);
    assert(path_rev@ =~= t@.take(d as int));
    let rest = slice_of(&t, d + 3, total);
    assert(rest@ =~= t@.skip(d + 3));
    let prl = path_rev.len();
    let h = match rfind_in(&path_rev, '#') {
        Some(h) => h,
        None => {
            return None;
        },
    };
    let depot_path = string_of(&path_rev, 0, h);
    assert(depot_path@ =~= path_rev@.take(h as int));
    let rev_text = string_of(&path_rev, h + 1, prl);
    assert(rev_text@ =~= path_rev@.skip(h + 1));
    let revision = match parse_i32(rev_text.as_str()) {
        Some(v) => v,
        None => 0,
    };
    let ws = words(&rest);
    let action = if ws.len() > 0 {
        ws[0].clone()
    } else {
        String::new()
    };
    let change = change_number_after(&ws);
    let file_type = file_type_in(&rest);
    Some(P4FileResult { depot_path, revision, action, change, file_type })
}

/// Parses `files` output, keeping at most `max_results` files.
pub fn parse_files_output(output: &str, max_results: u32) -> (r: Vec<P4FileResult>)
    ensures
        r@.map_values(|f: P4FileResult| f@) == file_results_of(lines_of(output@), max_results as nat),
{
    let cs = chars_of(output);
    let ls = lines(&cs);
    let ghost lv = ls@.map_values(|l: Vec<char>| l@);
    let mut out: Vec<P4FileResult> = Vec::new();
    let mut i: usize = 0;
    while i < ls.len()
        invariant
            i <= ls@.len(),
            lv == ls@.map_values(|l: Vec<char>| l@),
            out@.map_values(|f: P4FileResult| f@) == file_results_of(lv.take(i as int), max_results as nat),
        decreases ls@.len() - i,
    {
        assert(lv.take(i + 1).drop_last() =~= lv.take(i as int));
        assert(lv.take(i + 1).last() == ls@[i as int]@);
        if out.len() < max_results as usize {
            match file_result(&ls[i]) {
                Some(f) => {
                    let ghost before = out@.map_values(|f: P4FileResult| f@);
                    out.push(f);
                    assert(out@.map_values(|f: P4FileResult| f@) =~= before.push(f@));
                },
                None => {},
            }
        }
        i = i + 1;
    }
    assert(lv.take(ls@.len() as int) =~= lv);
    out
}

} // verus!

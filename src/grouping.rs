use vstd::prelude::*;
use crate::record::{Fields, line_field, ztag_fold, ztag_records};
use crate::text::{
    find, first_at, is_ws, lemma_find_is, lines_acc, lines_of, occurs_at, skip_ws_from, starts_with,
    strip_cr, trim, trim_end_from,
};

verus! {

/// A field as the tagged output mode writes it: `... key value`, or `... key` for an
/// empty value.
pub open spec fn field_line(kv: (Seq<char>, Seq<char>)) -> Seq<char> {
    if kv.1.len() == 0 {
        "... "@ + kv.0
    } else {
        "... "@ + kv.0 + " "@ + kv.1
    }
}

/// A key with no white space, and a value on one line that does not end in white space.
pub open spec fn well_formed_field(kv: (Seq<char>, Seq<char>)) -> bool {
    &&& kv.0.len() > 0
    &&& forall|i: int| 0 <= i < kv.0.len() ==> !is_ws(#[trigger] kv.0[i])
    &&& forall|i: int| 0 <= i < kv.1.len() ==> #[trigger] kv.1[i] != '\n'
    &&& kv.1.len() > 0 ==> !is_ws(kv.1.last())
}

/// A group of fields: at least one, each well formed.
pub open spec fn well_formed_group(g: Seq<(Seq<char>, Seq<char>)>) -> bool {
    g.len() > 0 && forall|i: int| 0 <= i < g.len() ==> well_formed_field(#[trigger] g[i])
}

/// The field map of a group; a later field overrides an earlier one with its key.
pub open spec fn fields_of(g: Seq<(Seq<char>, Seq<char>)>) -> Fields
    decreases g.len(),
{
    if g.len() == 0 {
        Fields::empty()
    } else {
        fields_of(g.drop_last()).insert(g.last().0, g.last().1)
    }
}

/// The field map of each group, in order.
pub open spec fn records_of_groups(groups: Seq<Seq<(Seq<char>, Seq<char>)>>) -> Seq<Fields> {
    groups.map_values(|g: Seq<(Seq<char>, Seq<char>)>| fields_of(g))
}

pub open spec fn group_lines(g: Seq<(Seq<char>, Seq<char>)>) -> Seq<Seq<char>> {
    g.map_values(|kv: (Seq<char>, Seq<char>)| field_line(kv))
}

/// The lines of the first `k` groups, each group followed by a blank line.
pub open spec fn blocks(groups: Seq<Seq<(Seq<char>, Seq<char>)>>, k: int) -> Seq<Seq<char>>
    decreases k,
{
    if k <= 0 || k > groups.len() {
        Seq::empty()
    } else {
        blocks(groups, k - 1) + group_lines(groups[k - 1]) + seq![Seq::<char>::empty()]
    }
}

/// The lines of all groups with blank lines between them, and after the last one only
/// where `trailing_blank`.
pub open spec fn all_lines(
    groups: Seq<Seq<(Seq<char>, Seq<char>)>>,
    trailing_blank: bool,
) -> Seq<Seq<char>> {
    if groups.len() == 0 {
        Seq::empty()
    } else if trailing_blank {
        blocks(groups, groups.len() as int)
    } else {
        blocks(groups, groups.len() - 1) + group_lines(groups.last())
    }
}

/// The lines `ls`, each ended by a line feed.
pub open spec fn join_lines(ls: Seq<Seq<char>>) -> Seq<char>
    decreases ls.len(),
{
    if ls.len() == 0 {
        Seq::empty()
    } else {
        join_lines(ls.drop_last()) + ls.last() + seq!['\n']
    }
}

/// The tagged text that writes `groups`.
pub open spec fn render_groups(
    groups: Seq<Seq<(Seq<char>, Seq<char>)>>,
    trailing_blank: bool,
) -> Seq<char> {
    join_lines(all_lines(groups, trailing_blank))
}

proof fn lemma_lines_acc_prefix(x: Seq<char>, y: Seq<char>, i: int)
    requires
        0 <= i <= x.len(),
        i <= y.len(),
        x.take(i) == y.take(i),
    ensures
        lines_acc(x, i) == lines_acc(y, i),
    decreases i,
{
    if i > 0 {
        assert(x.take(i - 1) =~= x.take(i).take(i - 1));
        assert(y.take(i - 1) =~= y.take(i).take(i - 1));
        lemma_lines_acc_prefix(x, y, i - 1);
        assert(x[i - 1] == x.take(i)[i - 1]);
        assert(y[i - 1] == y.take(i)[i - 1]);
    }
}

proof fn lemma_lines_acc_extend(s: Seq<char>, t: Seq<char>, k: int)
    requires
        lines_acc(s, s.len() as int).1.len() == 0,
        0 <= k <= t.len(),
        forall|j: int| 0 <= j < k ==> t[j] != '\n',
    ensures
        lines_acc(s + t, s.len() + k) == (lines_acc(s, s.len() as int).0, t.take(k)),
    decreases k,
{
    if k == 0 {
        assert((s + t).take(s.len() as int) =~= s.take(s.len() as int));
        lemma_lines_acc_prefix(s + t, s, s.len() as int);
        assert(t.take(0) =~= Seq::<char>::empty());
        assert(lines_acc(s, s.len() as int).1 =~= Seq::<char>::empty());
    } else {
        lemma_lines_acc_extend(s, t, k - 1);
        assert((s + t)[s.len() + k - 1] == t[k - 1]);
        assert(t.take(k - 1).push(t[k - 1]) =~= t.take(k));
    }
}

pub open spec fn plain_line(l: Seq<char>) -> bool {
    (forall|j: int| 0 <= j < l.len() ==> #[trigger] l[j] != '\n') && !(l.len() > 0 && l.last() == '\r')
}

proof fn lemma_join_acc(ls: Seq<Seq<char>>)
    requires
        forall|i: int| 0 <= i < ls.len() ==> plain_line(#[trigger] ls[i]),
    ensures
        lines_acc(join_lines(ls), join_lines(ls).len() as int) == (ls, Seq::<char>::empty()),
    decreases ls.len(),
{
    if ls.len() == 0 {
    } else {
        let p = ls.drop_last();
        let l = ls.last();
        assert forall|i: int| 0 <= i < p.len() implies plain_line(#[trigger] p[i]) by {
            assert(p[i] == ls[i]);
        }
        lemma_join_acc(p);
        let s = join_lines(p);
        let t = l + seq!['\n'];
        assert(join_lines(ls) == s + t);
        assert(plain_line(ls[ls.len() - 1]));
        assert forall|j: int| 0 <= j < l.len() implies t[j] != '\n' by {
            assert(t[j] == l[j]);
        }
        lemma_lines_acc_extend(s, t, l.len() as int);
        assert(t.take(l.len() as int) =~= l);
        assert((s + t)[s.len() + l.len() as int] == '\n');
        assert(strip_cr(l) == l);
        assert(p.push(l) =~= ls);
    }
}

/// The lines of text written as lines, each ended by a line feed, are those lines.
pub proof fn lemma_lines_of_join(ls: Seq<Seq<char>>)
    requires
        forall|i: int| 0 <= i < ls.len() ==> plain_line(#[trigger] ls[i]),
    ensures
        lines_of(join_lines(ls)) == ls,
{
    lemma_join_acc(ls);
}

proof fn lemma_field_line(kv: (Seq<char>, Seq<char>))
    requires
        well_formed_field(kv),
    ensures
        trim(field_line(kv)) == field_line(kv),
        line_field(field_line(kv)) == Some(kv),
        plain_line(field_line(kv)),
        field_line(kv).len() > 0,
{
    reveal_strlit("... ");
    reveal_strlit(" ");
    let l = field_line(kv);
    let (k, v) = kv;
    assert(l[0] == '.');
    assert(skip_ws_from(l, 0) == 0);
    assert(!is_ws(l.last())) by {
        if v.len() == 0 {
            assert(l.last() == k.last());
            assert(!is_ws(k[k.len() - 1]));
        } else {
            assert(l.last() == v.last());
        }
    }
    assert(trim_end_from(l, l.len() as int) == l.len());
    assert(l.subrange(0, l.len() as int) =~= l);
    assert(starts_with(l, "... "@)) by {
        assert(l.take(4) =~= "... "@);
    }
    let rest = l.skip(4);
    if v.len() == 0 {
        assert(rest =~= k);
        assert forall|i: int| !occurs_at(rest, " "@, i) by {
            if occurs_at(rest, " "@, i) {
                assert(rest[i] == rest.subrange(i, i + 1)[0]);
                assert(!is_ws(k[i]));
            }
        }
        assert(find(rest, " "@) is None);
    } else {
        assert(rest =~= k + " "@ + v);
        assert(occurs_at(rest, " "@, k.len() as int)) by {
            assert(rest.subrange(k.len() as int, k.len() as int + 1) =~= " "@);
        }
        assert forall|j: int| 0 <= j < k.len() implies !occurs_at(rest, " "@, j) by {
            if occurs_at(rest, " "@, j) {
                assert(rest[j] == rest.subrange(j, j + 1)[0]);
                assert(!is_ws(k[j]));
            }
        }
        assert(first_at(rest, " "@, k.len() as int));
        lemma_find_is(rest, " "@, k.len() as int);
        assert(rest.take(k.len() as int) =~= k);
        assert(rest.skip(k.len() as int + 1) =~= v);
    }
    assert forall|j: int| 0 <= j < l.len() implies #[trigger] l[j] != '\n' by {
        if j >= 4 {
            if v.len() == 0 {
                assert(l[j] == k[j - 4]);
                assert(!is_ws(k[j - 4]));
            } else if j < 4 + k.len() {
                assert(l[j] == k[j - 4]);
                assert(!is_ws(k[j - 4]));
            } else if j > 4 + k.len() {
                assert(l[j] == v[j - 5 - k.len()]);
            }
        }
    }
}

proof fn lemma_fold_group(p: Seq<Seq<char>>, g: Seq<(Seq<char>, Seq<char>)>, k: int)
    requires
        ztag_fold(p).1 == Fields::empty(),
        0 <= k <= g.len(),
        forall|i: int| 0 <= i < g.len() ==> well_formed_field(#[trigger] g[i]),
    ensures
        ztag_fold(p + group_lines(g.take(k))) == (ztag_fold(p).0, fields_of(g.take(k))),
    decreases k,
{
    if k == 0 {
        assert(p + group_lines(g.take(0)) =~= p);
        assert(g.take(0) =~= Seq::<(Seq<char>, Seq<char>)>::empty());
    } else {
        lemma_fold_group(p, g, k - 1);
        let kv = g[k - 1];
        assert(well_formed_field(kv));
        lemma_field_line(kv);
        assert(p + group_lines(g.take(k)) =~= (p + group_lines(g.take(k - 1))).push(field_line(kv)));
        assert((p + group_lines(g.take(k))).drop_last() =~= p + group_lines(g.take(k - 1)));
        assert(g.take(k).drop_last() =~= g.take(k - 1));
        assert(g.take(k).last() == kv);
    }
}

proof fn lemma_fields_nonempty(g: Seq<(Seq<char>, Seq<char>)>)
    requires
        g.len() > 0,
    ensures
        fields_of(g) != Fields::empty(),
{
    assert(fields_of(g).contains_key(g.last().0));
}

proof fn lemma_fold_blocks(groups: Seq<Seq<(Seq<char>, Seq<char>)>>, k: int)
    requires
        0 <= k <= groups.len(),
        forall|i: int| 0 <= i < groups.len() ==> well_formed_group(#[trigger] groups[i]),
    ensures
        ztag_fold(blocks(groups, k)) == (records_of_groups(groups.take(k)), Fields::empty()),
    decreases k,
{
    if k == 0 {
        assert(records_of_groups(groups.take(0)) =~= Seq::<Fields>::empty());
    } else {
        lemma_fold_blocks(groups, k - 1);
        let g = groups[k - 1];
        assert(well_formed_group(g));
        let p = blocks(groups, k - 1);
        lemma_fold_group(p, g, g.len() as int);
        assert(g.take(g.len() as int) =~= g);
        let q = p + group_lines(g);
        assert(blocks(groups, k) == q.push(Seq::<char>::empty()));
        assert(q.push(Seq::<char>::empty()).drop_last() =~= q);
        lemma_fields_nonempty(g);
        assert(trim(Seq::<char>::empty()) =~= Seq::<char>::empty());
        assert(records_of_groups(groups.take(k)) =~= records_of_groups(groups.take(k - 1)).push(fields_of(g)));
    }
}

proof fn lemma_plain_lines(groups: Seq<Seq<(Seq<char>, Seq<char>)>>, trailing_blank: bool)
    requires
        forall|i: int| 0 <= i < groups.len() ==> well_formed_group(#[trigger] groups[i]),
    ensures
        forall|i: int|
            0 <= i < all_lines(groups, trailing_blank).len() ==> plain_line(
                #[trigger] all_lines(groups, trailing_blank)[i],
            ),
{
    assert forall|k: int, i: int|
        0 <= k <= groups.len() && 0 <= i < blocks(groups, k).len() implies plain_line(
            #[trigger] blocks(groups, k)[i],
        ) by {
        lemma_plain_blocks(groups, k, i);
    }
    if groups.len() > 0 && !trailing_blank {
        let n = groups.len() - 1;
        let b = blocks(groups, n);
        let gl = group_lines(groups.last());
        assert(well_formed_group(groups[n]));
        assert forall|i: int| 0 <= i < (b + gl).len() implies plain_line(#[trigger] (b + gl)[i]) by {
            if i >= b.len() {
                assert(well_formed_field(groups.last()[i - b.len()]));
                lemma_field_line(groups.last()[i - b.len()]);
            } else {
                assert((b + gl)[i] == b[i]);
            }
        }
    }
}

proof fn lemma_plain_blocks(groups: Seq<Seq<(Seq<char>, Seq<char>)>>, k: int, i: int)
    requires
        0 <= k <= groups.len(),
        0 <= i < blocks(groups, k).len(),
        forall|j: int| 0 <= j < groups.len() ==> well_formed_group(#[trigger] groups[j]),
    ensures
        plain_line(blocks(groups, k)[i]),
    decreases k,
{
    if k > 0 {
        let p = blocks(groups, k - 1);
        let g = groups[k - 1];
        assert(well_formed_group(g));
        let gl = group_lines(g);
        assert(blocks(groups, k) == p + gl + seq![Seq::<char>::empty()]);
        if i < p.len() {
            assert(blocks(groups, k)[i] == p[i]);
            lemma_plain_blocks(groups, k - 1, i);
        } else if i < p.len() + gl.len() {
            assert(blocks(groups, k)[i] == gl[i - p.len()]);
            assert(well_formed_field(g[i - p.len()]));
            lemma_field_line(g[i - p.len()]);
        } else {
            assert(blocks(groups, k)[i] == Seq::<char>::empty());
        }
    }
}

/// The records that reading the lines `ls` ends with.
pub open spec fn records_after(ls: Seq<Seq<char>>) -> Seq<Fields> {
    let (recs, cur) = ztag_fold(ls);
    if cur == Fields::empty() {
        recs
    } else {
        recs.push(cur)
    }
}

proof fn lemma_fold_all_lines(groups: Seq<Seq<(Seq<char>, Seq<char>)>>, trailing_blank: bool)
    requires
        forall|i: int| 0 <= i < groups.len() ==> well_formed_group(#[trigger] groups[i]),
    ensures
        records_after(all_lines(groups, trailing_blank)) == records_of_groups(groups),
{
    let n = groups.len() as int;
    if n == 0 {
        assert(records_of_groups(groups) =~= Seq::<Fields>::empty());
    } else if trailing_blank {
        lemma_fold_blocks(groups, n);
        assert(groups.take(n) =~= groups);
    } else {
        lemma_fold_blocks(groups, n - 1);
        let g = groups.last();
        assert(well_formed_group(groups[n - 1]));
        let p = blocks(groups, n - 1);
        lemma_fold_group(p, g, g.len() as int);
        assert(g.take(g.len() as int) =~= g);
        lemma_fields_nonempty(g);
        assert(records_of_groups(groups) =~= records_of_groups(groups.take(n - 1)).push(fields_of(g)));
    }
}

/// Tagged text written as groups of well-formed `... key value` lines, with blank lines
/// between the groups and perhaps none after the last, parses into one record per
/// group, in order, each the group's field map.
pub proof fn lemma_parse_groups(groups: Seq<Seq<(Seq<char>, Seq<char>)>>, trailing_blank: bool)
    requires
        forall|i: int| 0 <= i < groups.len() ==> well_formed_group(#[trigger] groups[i]),
    ensures
        ztag_records(render_groups(groups, trailing_blank)) == records_of_groups(groups),
{
    lemma_plain_lines(groups, trailing_blank);
    lemma_lines_of_join(all_lines(groups, trailing_blank));
    lemma_fold_all_lines(groups, trailing_blank);
}

/// The text that writes `groups` with blank lines between them and no line feed after
/// the last line.
pub open spec fn render_groups_unterminated(groups: Seq<Seq<(Seq<char>, Seq<char>)>>) -> Seq<char> {
    if groups.len() == 0 {
        Seq::empty()
    } else {
        render_groups(groups, false).drop_last()
    }
}

/// The lines of text written as lines joined by line feeds, the last one not empty, are
/// those lines.
pub proof fn lemma_lines_of_unterminated(ls: Seq<Seq<char>>)
    requires
        ls.len() > 0,
        ls.last().len() > 0,
        forall|i: int| 0 <= i < ls.len() ==> plain_line(#[trigger] ls[i]),
    ensures
        lines_of(join_lines(ls).drop_last()) == ls,
{
    let p = ls.drop_last();
    let l = ls.last();
    assert forall|i: int| 0 <= i < p.len() implies plain_line(#[trigger] p[i]) by {
        assert(p[i] == ls[i]);
    }
    lemma_join_acc(p);
    let s = join_lines(p);
    assert(join_lines(ls).drop_last() =~= s + l);
    assert(plain_line(ls[ls.len() - 1]));
    lemma_lines_acc_extend(s, l, l.len() as int);
    assert(l.take(l.len() as int) =~= l);
    assert((s + l).len() == s.len() + l.len());
    assert(p.push(l) =~= ls);
}

/// The same holds of the text with no line feed at all after its last line: the last
/// group is still read at the end of the input.
pub proof fn lemma_parse_groups_unterminated(groups: Seq<Seq<(Seq<char>, Seq<char>)>>)
    requires
        forall|i: int| 0 <= i < groups.len() ==> well_formed_group(#[trigger] groups[i]),
    ensures
        ztag_records(render_groups_unterminated(groups)) == records_of_groups(groups),
{
    if groups.len() == 0 {
        assert(records_of_groups(groups) =~= Seq::<Fields>::empty());
    } else {
        let ls = all_lines(groups, false);
        let g = groups.last();
        assert(well_formed_group(groups[groups.len() - 1]));
        assert(well_formed_field(g[g.len() - 1]));
        lemma_field_line(g[g.len() - 1]);
        assert(ls.last() == field_line(g.last()));
        lemma_plain_lines(groups, false);
        lemma_lines_of_unterminated(ls);
        lemma_fold_all_lines(groups, false);
    }
}

/// Each key occurs in `g` at most once.
pub open spec fn distinct_keys(g: Seq<(Seq<char>, Seq<char>)>) -> bool {
    forall|i: int, j: int| 0 <= i < j < g.len() ==> g[i].0 != g[j].0
}

proof fn lemma_fields_of_pairs(g: Seq<(Seq<char>, Seq<char>)>)
    requires
        distinct_keys(g),
    ensures
        forall|k: Seq<char>|
            #[trigger] fields_of(g).contains_key(k) <==> exists|i: int| 0 <= i < g.len() && g[i].0 == k,
        forall|i: int| 0 <= i < g.len() ==> fields_of(g)[(#[trigger] g[i]).0] == g[i].1,
    decreases g.len(),
{
    if g.len() > 0 {
        let p = g.drop_last();
        assert(distinct_keys(p));
        lemma_fields_of_pairs(p);
        assert forall|k: Seq<char>|
            #[trigger] fields_of(g).contains_key(k) implies exists|i: int| 0 <= i < g.len() && g[i].0 == k by {
            if k != g.last().0 {
                assert(fields_of(p).contains_key(k));
                let i = choose|i: int| 0 <= i < p.len() && p[i].0 == k;
                assert(g[i] == p[i]);
            } else {
                assert(g[g.len() - 1].0 == k);
            }
        }
        assert forall|i: int| 0 <= i < g.len() implies fields_of(g)[(#[trigger] g[i]).0] == g[i].1 by {
            if i < g.len() - 1 {
                assert(g[i] == p[i]);
                assert(g[i].0 != g[g.len() - 1].0);
            }
        }
        assert forall|k: Seq<char>| (exists|i: int| 0 <= i < g.len() && g[i].0 == k) implies #[trigger] fields_of(g).contains_key(k) by {
            let i = choose|i: int| 0 <= i < g.len() && g[i].0 == k;
            if i < g.len() - 1 {
                assert(g[i] == p[i]);
                assert(p[i].0 == k);
            }
        }
    }
}

/// With each key at most once, a group's field map does not depend on the order of its
/// lines.
pub proof fn lemma_group_order_irrelevant(g1: Seq<(Seq<char>, Seq<char>)>, g2: Seq<(Seq<char>, Seq<char>)>)
    requires
        distinct_keys(g1),
        distinct_keys(g2),
        g1.to_set() == g2.to_set(),
    ensures
        fields_of(g1) == fields_of(g2),
{
    lemma_fields_of_pairs(g1);
    lemma_fields_of_pairs(g2);
    assert forall|k: Seq<char>| fields_of(g1).contains_key(k) implies fields_of(g2).contains_key(k) && fields_of(g1)[k] == fields_of(g2)[k] by {
        let i = choose|i: int| 0 <= i < g1.len() && g1[i].0 == k;
        assert(g1.to_set().contains(g1[i]));
        let j = choose|j: int| 0 <= j < g2.len() && g2[j] == g1[i];
        assert(fields_of(g2)[g2[j].0] == g2[j].1);
    }
    assert forall|k: Seq<char>| fields_of(g2).contains_key(k) implies fields_of(g1).contains_key(k) by {
        let j = choose|j: int| 0 <= j < g2.len() && g2[j].0 == k;
        assert(g2.to_set().contains(g2[j]));
        let i = choose|i: int| 0 <= i < g1.len() && g1[i] == g2[j];
        assert(g1[i].0 == k);
    }
    assert(fields_of(g1) =~= fields_of(g2));
}

/// Text whose groups hold the same lines, each key at most once per group, parses into
/// the same records whatever the order of the lines within each group.
pub proof fn lemma_line_order_irrelevant(
    groups1: Seq<Seq<(Seq<char>, Seq<char>)>>,
    groups2: Seq<Seq<(Seq<char>, Seq<char>)>>,
    trailing_blank: bool,
)
    requires
        groups1.len() == groups2.len(),
        forall|i: int| 0 <= i < groups1.len() ==> well_formed_group(#[trigger] groups1[i]),
        forall|i: int| 0 <= i < groups2.len() ==> well_formed_group(#[trigger] groups2[i]),
        forall|i: int|
            0 <= i < groups1.len() ==> distinct_keys(#[trigger] groups1[i]) && distinct_keys(groups2[i])
                && groups1[i].to_set() == groups2[i].to_set(),
    ensures
        ztag_records(render_groups(groups1, trailing_blank)) == ztag_records(render_groups(groups2, trailing_blank)),
{
    lemma_parse_groups(groups1, trailing_blank);
    lemma_parse_groups(groups2, trailing_blank);
    assert forall|i: int| 0 <= i < groups1.len() implies records_of_groups(groups1)[i] == records_of_groups(groups2)[i] by {
        assert(distinct_keys(groups1[i]));
        lemma_group_order_irrelevant(groups1[i], groups2[i]);
    }
    assert(records_of_groups(groups1) =~= records_of_groups(groups2));
}

/// Parsing is a function of the text: the same text parses into the same records, in
/// the same order.
pub proof fn lemma_parse_deterministic(a: Seq<char>, b: Seq<char>)
    requires
        a == b,
    ensures
        ztag_records(a) == ztag_records(b),
{
}

} // verus!

use vstd::prelude::*;
use vstd::hash_map::StringHashMap;
use vstd::set_lib::{lemma_int_range, lemma_len_subset, lemma_map_size, set_int_range};
use crate::numbers::{decimal, indexed_key, lemma_decimal_injective};
use crate::text::{
    chars_of, find, find_in, lines, lines_of, starts_with, starts_with_str, string_of, trim,
    trimmed,
};

verus! {

broadcast use vstd::hash_map::group_hash_map_axioms;

/// A field map as the tagged output mode gives it: each key at most once, in no
/// meaningful order.
pub type Fields = Map<Seq<char>, Seq<char>>;

/// One record of tagged output: field name to value.
pub struct ZtagRecord {
    fields: StringHashMap<String>,
    order: Vec<String>,
}

impl View for ZtagRecord {
    type V = Fields;

    closed spec fn view(&self) -> Fields {
        self.fields@.map_values(|v: String| v@)
    }
}

pub uninterp spec fn lower_of(s: Seq<char>) -> Seq<char>;

/// Relies on `str::to_lowercase`: the result depends on the characters alone.
#[verifier::external_body]
pub(crate) fn lowercase(s: &str) -> (r: String)
    ensures
        r@ == lower_of(s@),
{
    s.to_lowercase()
}

/// `i` is the first key of `keys` that equals `name` once both are lower-cased.
pub open spec fn first_folded_at(keys: Seq<Seq<char>>, name: Seq<char>, i: int) -> bool {
    &&& 0 <= i < keys.len()
    &&& lower_of(keys[i]) == lower_of(name)
    &&& forall|j: int| 0 <= j < i ==> lower_of(keys[j]) != lower_of(name)
}

/// The value under `name`; failing that, the value under the first key (in the order
/// the keys came) that equals `name` once both are lower-cased.
pub open spec fn lookup_ignore_case(m: Fields, keys: Seq<Seq<char>>, name: Seq<char>) -> Option<
    Seq<char>,
> {
    if m.contains_key(name) {
        Some(m[name])
    } else if exists|i: int| first_folded_at(keys, name, i) {
        Some(m[keys[choose|i: int| first_folded_at(keys, name, i)]])
    } else {
        None
    }
}

/// The views of the keys `order[..i]`.
spec fn listed_keys(order: Seq<String>, i: int) -> Set<Seq<char>> {
    Set::new(|k: Seq<char>| exists|j: int| 0 <= j < i && order[j]@ == k)
}

/// The key of the field `name` of the sub-record `i`: `name` followed by `i` in decimal.
pub open spec fn indexed_name(name: Seq<char>, i: nat) -> Seq<char> {
    name + decimal(i)
}

/// `m` holds the field `name` for the sub-records `0..n` and not for sub-record `n`.
pub open spec fn is_run(m: Fields, name: Seq<char>, n: nat) -> bool {
    &&& forall|j: nat| j < n ==> m.contains_key(#[trigger] indexed_name(name, j))
    &&& !m.contains_key(indexed_name(name, n))
}

/// How many sub-records in a row, from index 0, hold the field `name`.
pub open spec fn run_len(m: Fields, name: Seq<char>) -> nat {
    choose|n: nat| is_run(m, name, n)
}

pub proof fn lemma_run_unique(m: Fields, name: Seq<char>, a: nat, b: nat)
    requires
        is_run(m, name, a),
        is_run(m, name, b),
    ensures
        a == b,
{
    if a < b {
        assert(m.contains_key(indexed_name(name, a)));
    } else if b < a {
        assert(m.contains_key(indexed_name(name, b)));
    }
}

pub proof fn lemma_run_len(m: Fields, name: Seq<char>, n: nat)
    requires
        is_run(m, name, n),
    ensures
        run_len(m, name) == n,
{
    let c = choose|c: nat| is_run(m, name, c);
    assert(is_run(m, name, c));
    lemma_run_unique(m, name, c, n);
}

impl ZtagRecord {
    /// Each key is listed once in `order`, and `order` lists the keys of `fields`.
    pub closed spec fn wf(&self) -> bool {
        &&& forall|i: int, j: int|
            0 <= i < j < self.order@.len() ==> self.order@[i]@ != self.order@[j]@
        &&& forall|i: int| 0 <= i < self.order@.len() ==> self.fields@.contains_key(#[trigger] self.order@[i]@)
        &&& forall|k: Seq<char>|
            #[trigger] self.fields@.contains_key(k) ==> exists|i: int|
                0 <= i < self.order@.len() && self.order@[i]@ == k
    }

    /// The keys in the order they first came.
    pub closed spec fn key_order(&self) -> Seq<Seq<char>> {
        self.order@.map_values(|k: String| k@)
    }

    /// `key_order` lists each key of the record once.
    pub proof fn lemma_key_order(&self)
        requires
            self.wf(),
        ensures
            self.key_order().no_duplicates(),
            self.key_order().to_set() == self@.dom(),
    {
        let keys = self.key_order();
        assert(self.key_order().to_set() =~= self@.dom()) by {
            assert forall|k: Seq<char>| self@.dom().contains(k) implies keys.to_set().contains(k) by {
                let i = choose|i: int| 0 <= i < self.order@.len() && self.order@[i]@ == k;
                assert(keys[i] == k);
            }
            assert forall|k: Seq<char>| keys.to_set().contains(k) implies self@.dom().contains(k) by {
                let i = choose|i: int| 0 <= i < keys.len() && keys[i] == k;
                assert(self.fields@.contains_key(self.order@[i]@));
            }
        }
    }

    pub fn new() -> (r: Self)
        ensures
            r@ == Fields::empty(),
            r.wf(),
    {
        let r = ZtagRecord { fields: StringHashMap::new(), order: Vec::new() };
        assert(r@ =~= Fields::empty());
        r
    }

    /// Sets `key` to `value`; a value already under `key` is replaced.
    pub fn insert(&mut self, key: String, value: String)
        requires
            old(self).wf(),
        ensures
            final(self)@ == old(self)@.insert(key@, value@),
            final(self).wf(),
    {
        if !self.fields.contains_key(key.as_str()) {
            self.order.push(key.clone());
        }
        self.fields.insert(key, value);
        assert(self@ =~= old(self)@.insert(key@, value@));
        assert forall|k: Seq<char>| #[trigger] self.fields@.contains_key(k) implies exists|i: int|
            0 <= i < self.order@.len() && self.order@[i]@ == k by {
            if k != key@ {
                assert(old(self).fields@.contains_key(k));
                let i = choose|i: int| 0 <= i < old(self).order@.len() && old(self).order@[i]@ == k;
                assert(self.order@[i] == old(self).order@[i]);
            } else if old(self).fields@.contains_key(k) {
                let i = choose|i: int| 0 <= i < old(self).order@.len() && old(self).order@[i]@ == k;
                assert(self.order@[i] == old(self).order@[i]);
            } else {
                assert(self.order@[self.order@.len() - 1]@ == k);
            }
        }
    }

    /// The value under `key`.
    pub fn get(&self, key: &str) -> (r: Option<&String>)
        ensures
            match r {
                Some(v) => self@.contains_key(key@) && v@ == self@[key@],
                None => !self@.contains_key(key@),
            },
    {
        self.fields.get(key)
    }

    pub fn len(&self) -> (r: usize)
        ensures
            r == self@.len(),
    {
        assert(self@.dom() =~= self.fields@.dom());
        self.fields.len()
    }

    pub fn is_empty(&self) -> (r: bool)
        ensures
            r == (self@ == Fields::empty()),
    {
        let r = self.fields.is_empty();
        proof {
            if !r {
                let k = choose|k: Seq<char>| self.fields@.contains_key(k);
                assert(self@.contains_key(k));
            } else {
                assert(self@ =~= Fields::empty());
            }
        }
        r
    }

    /// Adds every field of `other`; where both hold a key, `other`'s value wins.
    pub fn extend(&mut self, other: &ZtagRecord)
        requires
            old(self).wf(),
            other.wf(),
        ensures
            final(self)@ == old(self)@.union_prefer_right(other@),
            final(self).wf(),
    {
        let mut i: usize = 0;
        while i < other.order.len()
            invariant
                i <= other.order@.len(),
                self.wf(),
                other.wf(),
                self@ == old(self)@.union_prefer_right(other@.restrict(listed_keys(other.order@, i as int))),
            decreases other.order@.len() - i,
        {
            let key = &other.order[i];
            let value = other.fields.get(key.as_str());
            match value {
                Some(v) => {
                    self.insert(key.clone(), v.clone());
                },
                None => {
                    assert(false);
                },
            }
            proof {
                let before = listed_keys(other.order@, i as int);
                let after = listed_keys(other.order@, i + 1);
                assert(after =~= before.insert(key@));
                assert(self@ =~= old(self)@.union_prefer_right(other@.restrict(after)));
            }
            i = i + 1;
        }
        proof {
            let all = listed_keys(other.order@, i as int);
            assert(other@.restrict(all) =~= other@);
        }
    }

    proof fn lemma_indexed_bound(&self, name: Seq<char>, n: nat)
        requires
            self.wf(),
            forall|j: nat| j < n ==> self@.contains_key(#[trigger] indexed_name(name, j)),
        ensures
            n <= self.order@.len(),
    {
        let f = |j: int| indexed_name(name, j as nat);
        let x = set_int_range(0, n as int);
        let y = x.map(f);
        let keys = self.order@.map_values(|k: String| k@);
        lemma_int_range(0, n as int);
        assert(vstd::relations::injective_on(f, x)) by {
            assert forall|a: int, b: int|
                x.contains(a) && x.contains(b) && #[trigger] f(a) == #[trigger] f(b) implies a == b by {
                assert(decimal(a as nat) =~= f(a).subrange(name.len() as int, f(a).len() as int));
                assert(decimal(b as nat) =~= f(b).subrange(name.len() as int, f(b).len() as int));
                lemma_decimal_injective(a as nat, b as nat);
            }
        }
        lemma_map_size(x, y, f);
        assert(y.subset_of(keys.to_set())) by {
            assert forall|k: Seq<char>| y.contains(k) implies keys.to_set().contains(k) by {
                let j = choose|j: int| x.contains(j) && f(j) == k;
                assert(self@.contains_key(indexed_name(name, j as nat)));
                assert(self.fields@.contains_key(k));
                let i = choose|i: int| 0 <= i < self.order@.len() && self.order@[i]@ == k;
                assert(keys[i] == k);
            }
        }
        lemma_len_subset(y, keys.to_set());
        keys.lemma_cardinality_of_set();
    }

    /// How many sub-records in a row, from index 0, hold the field `name`: the first
    /// index whose key `name{index}` is missing.
    pub fn indexed_run(&self, name: &str) -> (r: usize)
        requires
            self.wf(),
        ensures
            is_run(self@, name@, r as nat),
            run_len(self@, name@) == r,
    {
        let total = self.order.len();
        let mut n: usize = 0;
        loop
            invariant
                self.wf(),
                total == self.order@.len(),
                n <= self.order@.len(),
                forall|j: nat| j < n ==> self@.contains_key(#[trigger] indexed_name(name@, j)),
            decreases self.order@.len() - n,
        {
            let k = indexed_key(name, n);
            if !self.fields.contains_key(k.as_str()) {
                proof {
                    lemma_run_len(self@, name@, n as nat);
                }
                return n;
            }
            proof {
                assert forall|j: nat| j < n + 1 implies self@.contains_key(
                    #[trigger] indexed_name(name@, j),
                ) by {
                    if j == n {
                        assert(indexed_name(name@, j) == k@);
                    }
                }
                self.lemma_indexed_bound(name@, (n + 1) as nat);
            }
            n = n + 1;
        }
    }

    /// The value under `name`, or else under a key that differs from `name` in case alone.
    pub fn get_ignore_case(&self, name: &str) -> (r: Option<String>)
        requires
            self.wf(),
        ensures
            r.deep_view() == lookup_ignore_case(self@, self.key_order(), name@),
    {
        if let Some(v) = self.fields.get(name) {
            return Some(v.clone());
        }
        let lower = lowercase(name);
        let mut i: usize = 0;
        while i < self.order.len()
            invariant
                i <= self.order@.len(),
                self.wf(),
                !self@.contains_key(name@),
                lower@ == lower_of(name@),
                forall|j: int| 0 <= j < i ==> lower_of(self.key_order()[j]) != lower_of(name@),
            decreases self.order@.len() - i,
        {
            let k = &self.order[i];
            let kl = lowercase(k.as_str());
            if kl == lower {
                assert(first_folded_at(self.key_order(), name@, i as int));
                proof {
                    let c = choose|c: int| first_folded_at(self.key_order(), name@, c);
                    assert(first_folded_at(self.key_order(), name@, c));
                    assert(c == i);
                }
                match self.fields.get(k.as_str()) {
                    Some(v) => {
                        return Some(v.clone());
                    },
                    None => {
                        assert(false);
                        return None;
                    },
                }
            }
            i = i + 1;
        }
        None
    }
}

/// The field that a trimmed line `t` of tagged output sets, if it sets one:
/// `... key value`, or `... key` for an empty value.
pub open spec fn line_field(t: Seq<char>) -> Option<(Seq<char>, Seq<char>)> {
    if starts_with(t, "... "@) {
        let rest = t.skip(4);
        match find(rest, " "@) {
            Some(i) => Some((rest.take(i), rest.skip(i + 1))),
            None => Some((rest, Seq::empty())),
        }
    } else {
        None
    }
}

/// One line read: a blank line closes a non-empty record, a field line adds its field,
/// any other line changes nothing.
pub open spec fn ztag_step(st: (Seq<Fields>, Fields), line: Seq<char>) -> (Seq<Fields>, Fields) {
    let t = trim(line);
    if t.len() == 0 {
        if st.1 == Fields::empty() {
            st
        } else {
            (st.0.push(st.1), Fields::empty())
        }
    } else {
        match line_field(t) {
            Some((k, v)) => (st.0, st.1.insert(k, v)),
            None => st,
        }
    }
}

/// The closed records and the open one after reading `lines`.
pub open spec fn ztag_fold(lines: Seq<Seq<char>>) -> (Seq<Fields>, Fields)
    decreases lines.len(),
{
    if lines.len() == 0 {
        (Seq::empty(), Fields::empty())
    } else {
        ztag_step(ztag_fold(lines.drop_last()), lines.last())
    }
}

/// The records of tagged output `text`; a last record with no blank line after it counts.
pub open spec fn ztag_records(text: Seq<char>) -> Seq<Fields> {
    let (recs, cur) = ztag_fold(lines_of(text));
    if cur == Fields::empty() {
        recs
    } else {
        recs.push(cur)
    }
}

pub open spec fn views_of(rs: Seq<ZtagRecord>) -> Seq<Fields> {
    rs.map_values(|r: ZtagRecord| r@)
}

/// Parses tagged output into its records, in order.
pub fn parse_ztag_records(output: &str) -> (r: Vec<ZtagRecord>)
    ensures
        views_of(r@) == ztag_records(output@),
        forall|k: int| 0 <= k < r@.len() ==> (#[trigger] r@[k]).wf(),
{
    let cs = chars_of(output);
    let ls = lines(&cs);
    let ghost lv = ls@.map_values(|l: Vec<char>| l@);
    let mut records: Vec<ZtagRecord> = Vec::new();
    let mut current = ZtagRecord::new();
    let mut i: usize = 0;
    while i < ls.len()
        invariant
            i <= ls@.len(),
            lv == ls@.map_values(|l: Vec<char>| l@),
            lv == lines_of(output@),
            (views_of(records@), current@) == ztag_fold(lv.take(i as int)),
            current.wf(),
            forall|k: int| 0 <= k < records@.len() ==> (#[trigger] records@[k]).wf(),
        decreases ls@.len() - i,
    {
        assert(lv.take(i + 1).drop_last() =~= lv.take(i as int));
        assert(lv.take(i + 1).last() == ls@[i as int]@);
        let t = trimmed(&ls[i]);
        if t.len() == 0 {
            if !current.is_empty() {
                records.push(current);
                current = ZtagRecord::new();
                assert(views_of(records@) =~= ztag_fold(lv.take(i as int)).0.push(
                    ztag_fold(lv.take(i as int)).1,
                ));
            }
        } else if starts_with_str(&t, "... ") {
            proof {
                reveal_strlit("... ");
                reveal_strlit(" ");
            }
            let space = chars_of(" ");
            let ghost rest = t@.skip(4);
            let mut tail: Vec<char> = Vec::new();
            let mut j: usize = 4;
            while j < t.len()
                invariant
                    4 <= j <= t@.len(),
                    tail@ == t@.subrange(4, j as int),
                decreases t@.len() - j,
            {
                tail.push(t[j]);
                j = j + 1;
            }
            assert(tail@ =~= rest);
            match find_in(&tail, &space) {
                Some(p) => {
                    let key = string_of(&tail, 0, p);
                    let value = string_of(&tail, p + 1, tail.len());
                    assert(key@ =~= rest.take(p as int));
                    assert(value@ =~= rest.skip(p + 1));
                    current.insert(key, value);
                },
                None => {
                    let key = string_of(&tail, 0, tail.len());
                    assert(key@ =~= rest);
                    current.insert(key, String::new());
                },
            }
        }
        i = i + 1;
    }
    assert(lv.take(ls@.len() as int) =~= lv);
    if !current.is_empty() {
        records.push(current);
        assert(views_of(records@) =~= ztag_fold(lv).0.push(ztag_fold(lv).1));
    }
    records
}

} // verus!

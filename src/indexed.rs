use vstd::prelude::*;
use crate::fields::{
    field_or, get_int_or, get_long_or, get_text, get_text_or, int_field_or, long_field_or,
};
use crate::numbers::{decimal, indexed_key, push_decimal};
use crate::parsing::{first_or_empty, first_record};
use crate::record::{
    Fields, ZtagRecord, indexed_name, is_run, parse_ztag_records, run_len, views_of, ztag_records,
};
use crate::text::push_char;
use crate::types::{
    P4ChangelistDescription, P4ChangelistDescriptionView, P4DescribeFile, P4DescribeFileView,
    P4Revision, P4RevisionView, P4ShelvedFile, P4ShelvedFileView,
};

verus! {

/// The value of the field `name` of sub-record `i`, or `d`.
pub open spec fn ix_text(m: Fields, name: Seq<char>, i: nat, d: Seq<char>) -> Seq<char> {
    field_or(m, indexed_name(name, i), d)
}

fn get_ix_text_or(fields: &ZtagRecord, name: &str, i: usize, default: &str) -> (r: String)
    ensures
        r@ == ix_text(fields@, name@, i as nat, default@),
{
    let k = indexed_key(name, i);
    get_text_or(fields, k.as_str(), default)
}

fn get_ix_int_or(fields: &ZtagRecord, name: &str, i: usize, default: i32) -> (r: i32)
    ensures
        r == int_field_or(fields@, indexed_name(name@, i as nat), default),
{
    let k = indexed_key(name, i);
    get_int_or(fields, k.as_str(), default)
}

fn get_ix_long_or(fields: &ZtagRecord, name: &str, i: usize, default: i64) -> (r: i64)
    ensures
        r == long_field_or(fields@, indexed_name(name@, i as nat), default),
{
    let k = indexed_key(name, i);
    get_long_or(fields, k.as_str(), default)
}

/// Revision `i` of a `filelog` record.
pub open spec fn revision_at(m: Fields, i: nat) -> P4RevisionView {
    P4RevisionView {
        rev: int_field_or(m, indexed_name("rev"@, i), 0),
        change: int_field_or(m, indexed_name("change"@, i), 0),
        action: ix_text(m, "action"@, i, ""@),
        file_type: ix_text(m, "type"@, i, "text"@),
        time: long_field_or(m, indexed_name("time"@, i), 0),
        user: ix_text(m, "user"@, i, ""@),
        client: ix_text(m, "client"@, i, ""@),
        desc: ix_text(m, "desc"@, i, ""@),
    }
}

/// The revisions of a `filelog` record: one for each index, from 0, that has a `rev`.
pub open spec fn revisions_of(m: Fields) -> Seq<P4RevisionView> {
    Seq::new(run_len(m, "rev"@), |i: int| revision_at(m, i as nat))
}

/// Parses `filelog` output: the revisions of its first record.
pub fn parse_ztag_filelog(output: &str) -> (r: Result<Vec<P4Revision>, String>)
    ensures
        match r {
            Ok(v) => v@.map_values(|x: P4Revision| x@) == revisions_of(
                first_record(ztag_records(output@)),
            ),
            Err(_) => false,
        },
{
    let records = parse_ztag_records(output);
    let fields = first_or_empty(&records);
    let n = fields.indexed_run("rev");
    let ghost m = fields@;
    let mut out: Vec<P4Revision> = Vec::new();
    let mut i: usize = 0;
    while i < n
        invariant
            i <= n,
            m == fields@,
            n == run_len(m, "rev"@),
            out@.map_values(|x: P4Revision| x@) =~= Seq::new(
                i as nat,
                |j: int| revision_at(m, j as nat),
            ),
        decreases n - i,
    {
        let rev = get_ix_int_or(&fields, "rev", i, 0);
        let change = get_ix_int_or(&fields, "change", i, 0);
        let action = get_ix_text_or(&fields, "action", i, "");
        let file_type = get_ix_text_or(&fields, "type", i, "text");
        let time = get_ix_long_or(&fields, "time", i, 0);
        let user = get_ix_text_or(&fields, "user", i, "");
        let client = get_ix_text_or(&fields, "client", i, "");
        let desc = get_ix_text_or(&fields, "desc", i, "");
        let item = P4Revision { rev, change, action, file_type, time, user, client, desc };
        assert(item@ == revision_at(m, i as nat));
        let ghost before = out@.map_values(|x: P4Revision| x@);
        out.push(item);
        assert(out@.map_values(|x: P4Revision| x@) =~= before.push(revision_at(m, i as nat)));
        i = i + 1;
    }
    Ok(out)
}

/// The fields of all `recs` together; a later record's value wins.
pub open spec fn merge_all(recs: Seq<Fields>) -> Fields
    decreases recs.len(),
{
    if recs.len() == 0 {
        Fields::empty()
    } else {
        merge_all(recs.drop_last()).union_prefer_right(recs.last())
    }
}

/// Folds records that one entity was split into back into one; a later record's value
/// wins over an earlier one's.
pub fn merge_records(records: &Vec<ZtagRecord>) -> (r: ZtagRecord)
    requires
        forall|k: int| 0 <= k < records@.len() ==> (#[trigger] records@[k]).wf(),
    ensures
        r@ == merge_all(views_of(records@)),
        r.wf(),
{
    let ghost recs = views_of(records@);
    let mut merged = ZtagRecord::new();
    let mut i: usize = 0;
    while i < records.len()
        invariant
            i <= records@.len(),
            recs == views_of(records@),
            forall|k: int| 0 <= k < records@.len() ==> (#[trigger] records@[k]).wf(),
            merged.wf(),
            merged@ == merge_all(recs.take(i as int)),
        decreases records@.len() - i,
    {
        assert(recs.take(i + 1).drop_last() =~= recs.take(i as int));
        assert(recs.take(i + 1).last() == records@[i as int]@);
        merged.extend(&records[i]);
        i = i + 1;
    }
    assert(recs.take(records@.len() as int) =~= recs);
    merged
}

/// Shelved file `i` of a `describe -S` record.
pub open spec fn shelved_at(m: Fields, i: nat) -> P4ShelvedFileView {
    P4ShelvedFileView {
        depot_path: m[indexed_name("depotFile"@, i)],
        action: ix_text(m, "action"@, i, ""@),
        file_type: ix_text(m, "type"@, i, "text"@),
        revision: int_field_or(m, indexed_name("rev"@, i), 0),
    }
}

/// The shelved files of a `describe -S` record: one for each index, from 0, that has a
/// `depotFile`.
pub open spec fn shelved_files_of(m: Fields) -> Seq<P4ShelvedFileView> {
    Seq::new(run_len(m, "depotFile"@), |i: int| shelved_at(m, i as nat))
}

/// Parses `describe -S` output, whose records are folded into one first.
pub fn parse_ztag_describe_shelved(output: &str) -> (r: Result<Vec<P4ShelvedFile>, String>)
    ensures
        match r {
            Ok(v) => v@.map_values(|x: P4ShelvedFile| x@) == shelved_files_of(
                merge_all(ztag_records(output@)),
            ),
            Err(_) => false,
        },
{
    let records = parse_ztag_records(output);
    let fields = merge_records(&records);
    let n = fields.indexed_run("depotFile");
    let ghost m = fields@;
    let mut out: Vec<P4ShelvedFile> = Vec::new();
    let mut i: usize = 0;
    while i < n
        invariant
            i <= n,
            m == fields@,
            is_run(m, "depotFile"@, n as nat),
            n == run_len(m, "depotFile"@),
            out@.map_values(|x: P4ShelvedFile| x@) =~= Seq::new(
                i as nat,
                |j: int| shelved_at(m, j as nat),
            ),
        decreases n - i,
    {
        let k = indexed_key("depotFile", i);
        assert(m.contains_key(indexed_name("depotFile"@, i as nat)));
        let depot_path = match get_text(&fields, k.as_str()) {
            Some(p) => p,
            None => {
                assert(false);
                String::new()
            },
        };
        let action = get_ix_text_or(&fields, "action", i, "");
        let file_type = get_ix_text_or(&fields, "type", i, "text");
        let revision = get_ix_int_or(&fields, "rev", i, 0);
        let item = P4ShelvedFile { depot_path, action, file_type, revision };
        assert(item@ == shelved_at(m, i as nat));
        let ghost before = out@.map_values(|x: P4ShelvedFile| x@);
        out.push(item);
        assert(out@.map_values(|x: P4ShelvedFile| x@) =~= before.push(shelved_at(m, i as nat)));
        i = i + 1;
    }
    Ok(out)
}

/// `v` written in decimal, with a minus sign where it is negative.
pub open spec fn int_text(v: int) -> Seq<char> {
    if v < 0 {
        seq!['-'] + decimal((-v) as nat)
    } else {
        decimal(v as nat)
    }
}

/// Appends `v` written in decimal.
pub fn push_int(out: &mut String, v: i64)
    ensures
        final(out)@ == old(out)@ + int_text(v as int),
{
    if v < 0 {
        push_char(out, '-');
        let m: u64 = if v == i64::MIN {
            0x8000_0000_0000_0000
        } else {
            (-v) as u64
        };
        push_decimal(out, m);
        assert(final(out)@ =~= old(out)@ + int_text(v as int));
    } else {
        push_decimal(out, v as u64);
    }
}

/// File `i` of a `describe` record.
pub open spec fn described_at(m: Fields, i: nat) -> P4DescribeFileView {
    P4DescribeFileView {
        depot_path: m[indexed_name("depotFile"@, i)],
        revision: int_field_or(m, indexed_name("rev"@, i), 0),
        action: ix_text(m, "action"@, i, ""@),
        file_type: ix_text(m, "type"@, i, ""@),
    }
}

/// The changelist that the folded `describe` record `m` gives for `id`.
pub open spec fn description_of(m: Fields, id: i32) -> P4ChangelistDescriptionView {
    P4ChangelistDescriptionView {
        id,
        user: field_or(m, "user"@, ""@),
        client: field_or(m, "client"@, ""@),
        time: long_field_or(m, "time"@, 0),
        description: field_or(m, "desc"@, ""@),
        status: field_or(m, "status"@, "submitted"@),
        files: Seq::new(run_len(m, "depotFile"@), |i: int| described_at(m, i as nat)),
    }
}

/// Parses `describe` output for changelist `changelist_id`; fails on output with no record.
pub fn parse_describe_output(output: &str, changelist_id: i32) -> (r: Result<
    P4ChangelistDescription,
    String,
>)
    ensures
        match r {
            Ok(d) => ztag_records(output@).len() > 0 && d@ == description_of(
                merge_all(ztag_records(output@)),
                changelist_id,
            ),
            Err(e) => ztag_records(output@).len() == 0 && e@ == "No data returned for changelist "@
                + int_text(changelist_id as int),
        },
{
    let records = parse_ztag_records(output);
    if records.len() == 0 {
        let mut e = "No data returned for changelist ".to_owned();
        push_int(&mut e, changelist_id as i64);
        return Err(e);
    }
    let record = merge_records(&records);
    let ghost m = record@;
    let user = get_text_or(&record, "user", "");
    let client = get_text_or(&record, "client", "");
    let time = get_long_or(&record, "time", 0);
    let description = get_text_or(&record, "desc", "");
    let status = get_text_or(&record, "status", "submitted");
    let n = record.indexed_run("depotFile");
    let mut files: Vec<P4DescribeFile> = Vec::new();
    let mut i: usize = 0;
    while i < n
        invariant
            i <= n,
            m == record@,
            is_run(m, "depotFile"@, n as nat),
            n == run_len(m, "depotFile"@),
            files@.map_values(|x: P4DescribeFile| x@) =~= Seq::new(
                i as nat,
                |j: int| described_at(m, j as nat),
            ),
        decreases n - i,
    {
        let k = indexed_key("depotFile", i);
        assert(m.contains_key(indexed_name("depotFile"@, i as nat)));
        let depot_path = match get_text(&record, k.as_str()) {
            Some(p) => p,
            None => {
                assert(false);
                String::new()
            },
        };
        let revision = get_ix_int_or(&record, "rev", i, 0);
        let action = get_ix_text_or(&record, "action", i, "");
        let file_type = get_ix_text_or(&record, "type", i, "");
        let item = P4DescribeFile { depot_path, revision, action, file_type };
        assert(item@ == described_at(m, i as nat));
        let ghost before = files@.map_values(|x: P4DescribeFile| x@);
        files.push(item);
        assert(files@.map_values(|x: P4DescribeFile| x@) =~= before.push(described_at(m, i as nat)));
        i = i + 1;
    }
    let d = P4ChangelistDescription {
        id: changelist_id,
        user,
        client,
        time,
        description,
        status,
        files,
    };
    assert(d@.files =~= description_of(m, changelist_id).files);
    Ok(d)
}

} // verus!

use vstd::prelude::*;
use crate::parsing::first_record;
use crate::record::{
    Fields, ZtagRecord, indexed_name, lookup_ignore_case, parse_ztag_records, views_of, ztag_records,
};
use crate::numbers::indexed_key;
use crate::types::{P4ClientSpec, P4ClientSpecView};

verus! {

/// A client spec field: looked up by its name, or else by a key that differs in case alone.
pub open spec fn spec_field(m: Fields, keys: Seq<Seq<char>>, name: Seq<char>) -> Option<Seq<char>> {
    lookup_ignore_case(m, keys, name)
}

pub open spec fn spec_field_or(m: Fields, keys: Seq<Seq<char>>, name: Seq<char>, d: Seq<char>) -> Seq<char> {
    match spec_field(m, keys, name) {
        Some(v) => v,
        None => d,
    }
}

/// The view lines `View0`, `View1`, ... are found up to index `n`: each before it is there
/// and it is not, or the record has no more keys to give.
pub open spec fn is_view_run(m: Fields, keys: Seq<Seq<char>>, n: nat) -> bool {
    &&& n <= keys.len()
    &&& forall|j: nat| j < n ==> (#[trigger] spec_field(m, keys, indexed_name("View"@, j))) is Some
    &&& (n == keys.len() || spec_field(m, keys, indexed_name("View"@, n)) is None)
}

pub open spec fn view_count(m: Fields, keys: Seq<Seq<char>>) -> nat {
    choose|n: nat| is_view_run(m, keys, n)
}

/// The client spec that the record `m`, whose keys `keys` lists, gives; it needs a
/// client and an owner.
pub open spec fn client_spec_of(m: Fields, keys: Seq<Seq<char>>) -> Result<P4ClientSpecView, Seq<char>> {
    if spec_field(m, keys, "Client"@) is None {
        Err("Missing Client field"@)
    } else if spec_field(m, keys, "Owner"@) is None {
        Err("Missing Owner field"@)
    } else {
        Ok(
            P4ClientSpecView {
                client: spec_field(m, keys, "Client"@)->Some_0,
                root: spec_field_or(m, keys, "Root"@, ""@),
                stream: spec_field(m, keys, "Stream"@),
                owner: spec_field(m, keys, "Owner"@)->Some_0,
                description: spec_field_or(m, keys, "Description"@, ""@),
                view: Seq::new(
                    view_count(m, keys),
                    |i: int| spec_field(m, keys, indexed_name("View"@, i as nat))->Some_0,
                ),
                options: spec_field_or(m, keys, "Options"@, ""@),
                host: spec_field_or(m, keys, "Host"@, ""@),
                submit_options: spec_field_or(m, keys, "SubmitOptions"@, "submitunchanged"@),
            },
        )
    }
}

/// `keys` lists each key of `m` once.
pub open spec fn lists_keys(keys: Seq<Seq<char>>, m: Fields) -> bool {
    keys.no_duplicates() && keys.to_set() == m.dom()
}

pub open spec fn spec_view_of(r: Result<P4ClientSpec, String>) -> Result<P4ClientSpecView, Seq<char>> {
    match r {
        Ok(c) => Ok(c@),
        Err(e) => Err(e@),
    }
}

fn field_ci_or(fields: &ZtagRecord, name: &str, default: &str) -> (r: String)
    requires
        fields.wf(),
    ensures
        r@ == spec_field_or(fields@, fields.key_order(), name@, default@),
{
    match fields.get_ignore_case(name) {
        Some(v) => v,
        None => default.to_owned(),
    }
}

/// Parses `client -o` output: the first record, its fields found also where only their
/// case differs; fails without a client or an owner.
pub fn parse_ztag_client_spec(output: &str) -> (r: Result<P4ClientSpec, String>)
    ensures
        exists|keys: Seq<Seq<char>>|
            lists_keys(keys, first_record(ztag_records(output@))) && spec_view_of(r)
                == client_spec_of(first_record(ztag_records(output@)), keys),
{
    let records = parse_ztag_records(output);
    let empty = ZtagRecord::new();
    let fields: &ZtagRecord = if records.len() > 0 {
        &records[0]
    } else {
        &empty
    };
    let ghost m = fields@;
    let ghost keys = fields.key_order();
    proof {
        fields.lemma_key_order();
        if records.len() > 0 {
            assert(views_of(records@)[0] == records@[0]@);
        }
        assert(m == first_record(ztag_records(output@)));
        assert(lists_keys(keys, m));
    }
    let total = fields.len();
    proof {
        keys.unique_seq_to_set();
    }
    let mut view: Vec<String> = Vec::new();
    let mut n: usize = 0;
    loop
        invariant
            fields.wf(),
            m == fields@,
            keys == fields.key_order(),
            total == keys.len(),
            n <= keys.len(),
            forall|j: nat| j < n ==> (#[trigger] spec_field(m, keys, indexed_name("View"@, j))) is Some,
            view@.map_values(|v: String| v@) =~= Seq::new(
                n as nat,
                |i: int| spec_field(m, keys, indexed_name("View"@, i as nat))->Some_0,
            ),
        ensures
            is_view_run(m, keys, n as nat),
            view@.map_values(|v: String| v@) =~= Seq::new(
                n as nat,
                |i: int| spec_field(m, keys, indexed_name("View"@, i as nat))->Some_0,
            ),
        decreases keys.len() - n,
    {
        if n == total {
            break;
        }
        let k = indexed_key("View", n);
        match fields.get_ignore_case(k.as_str()) {
            Some(v) => {
                let ghost before = view@.map_values(|v: String| v@);
                view.push(v);
                assert(view@.map_values(|v: String| v@) =~= before.push(
                    spec_field(m, keys, indexed_name("View"@, n as nat))->Some_0,
                ));
            },
            None => {
                break;
            },
        }
        n = n + 1;
    }
    proof {
        let c = choose|c: nat| is_view_run(m, keys, c);
        assert(is_view_run(m, keys, c));
        if c < n {
            assert(spec_field(m, keys, indexed_name("View"@, c)) is Some);
        } else if n < c {
            assert(spec_field(m, keys, indexed_name("View"@, n as nat)) is Some);
        }
    }
    let client = match fields.get_ignore_case("Client") {
        Some(c) => c,
        None => {
            let e = "Missing Client field".to_owned();
            assert(spec_view_of(Err(e)) == client_spec_of(m, keys));
            return Err(e);
        },
    };
    let root = field_ci_or(fields, "Root", "");
    let stream = fields.get_ignore_case("Stream");
    let owner = match fields.get_ignore_case("Owner") {
        Some(o) => o,
        None => {
            let e = "Missing Owner field".to_owned();
            assert(spec_view_of(Err(e)) == client_spec_of(m, keys));
            return Err(e);
        },
    };
    let description = field_ci_or(fields, "Description", "");
    let options = field_ci_or(fields, "Options", "");
    let host = field_ci_or(fields, "Host", "");
    let submit_options = field_ci_or(fields, "SubmitOptions", "submitunchanged");
    Ok(
        P4ClientSpec {
            client,
            root,
            stream,
            owner,
            description,
            view,
            options,
            host,
            submit_options,
        },
    )
}

} // verus!

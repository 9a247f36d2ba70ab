use vstd::prelude::*;
use crate::fields::{
    either_field, field, field_or, get_either, get_int, get_int_or, get_long, get_text, get_text_or,
    int_field, int_field_or, long_field,
};
use crate::record::{Fields, ZtagRecord, parse_ztag_records, views_of, ztag_records};
use crate::status::{derive_file_status, status_label, status_of};
use crate::types::{
    P4Changelist, P4ChangelistView, P4ClientInfo, P4ClientInfoView, P4Depot, P4DepotView,
    P4FileInfo, P4FileInfoView, P4Stream, P4StreamView, P4UnresolvedFile, P4UnresolvedFileView,
    P4Workspace, P4WorkspaceView,
};

verus! {

/// The file that a record of `fstat` output describes: it needs `depotFile` and a local
/// path, `path` before `clientFile`.
pub open spec fn file_info_of(m: Fields) -> Option<P4FileInfoView> {
    if !m.contains_key("depotFile"@) || either_field(m, "path"@, "clientFile"@) is None {
        None
    } else {
        let have = int_field_or(m, "haveRev"@, 0);
        let head = int_field_or(m, "headRev"@, 0);
        let action = field(m, "action"@);
        Some(
            P4FileInfoView {
                depot_path: m["depotFile"@],
                local_path: either_field(m, "path"@, "clientFile"@)->Some_0,
                status: status_label(status_of(action, have, head)),
                action,
                revision: have,
                head_revision: head,
                changelist: int_field(m, "change"@),
                file_type: match either_field(m, "headType"@, "type"@) {
                    Some(t) => t,
                    None => "text"@,
                },
                head_action: field(m, "headAction"@),
            },
        )
    }
}

/// Builds the file that a record of `fstat` output describes.
pub fn build_file_info(fields: &ZtagRecord) -> (r: Option<P4FileInfo>)
    ensures
        match r {
            Some(x) => file_info_of(fields@) == Some(x@),
            None => file_info_of(fields@) is None,
        },
{
    let depot_path = match get_text(fields, "depotFile") {
        Some(d) => d,
        None => {
            return None;
        },
    };
    let local_path = match get_either(fields, "path", "clientFile") {
        Some(p) => p,
        None => {
            return None;
        },
    };
    let head_revision = get_int_or(fields, "headRev", 0);
    let revision = get_int_or(fields, "haveRev", 0);
    let action = get_text(fields, "action");
    let file_type = match get_either(fields, "headType", "type") {
        Some(t) => t,
        None => "text".to_owned(),
    };
    let changelist = get_int(fields, "change");
    let head_action = get_text(fields, "headAction");
    let status = derive_file_status(&action, revision, head_revision);
    Some(
        P4FileInfo {
            depot_path,
            local_path,
            status,
            action,
            revision,
            head_revision,
            changelist,
            file_type,
            head_action,
        },
    )
}

/// The changelist that a record of `changes` output describes: it needs a numeric
/// `change`, `user`, `client`, `status` and a numeric `time`.
pub open spec fn changelist_of(m: Fields) -> Option<P4ChangelistView> {
    if int_field(m, "change"@) is None || !m.contains_key("user"@) || !m.contains_key("client"@)
        || !m.contains_key("status"@) || long_field(m, "time"@) is None {
        None
    } else {
        Some(
            P4ChangelistView {
                id: int_field(m, "change"@)->Some_0,
                description: field_or(m, "desc"@, ""@),
                user: m["user"@],
                client: m["client"@],
                status: m["status"@],
                file_count: 0,
                time: long_field(m, "time"@)->Some_0,
            },
        )
    }
}

/// Builds the changelist that a record of `changes` output describes.
pub fn build_changelist(fields: &ZtagRecord) -> (r: Option<P4Changelist>)
    ensures
        match r {
            Some(x) => changelist_of(fields@) == Some(x@),
            None => changelist_of(fields@) is None,
        },
{
    let id = match get_int(fields, "change") {
        Some(v) => v,
        None => {
            return None;
        },
    };
    let user = match get_text(fields, "user") {
        Some(v) => v,
        None => {
            return None;
        },
    };
    let client = match get_text(fields, "client") {
        Some(v) => v,
        None => {
            return None;
        },
    };
    let status = match get_text(fields, "status") {
        Some(v) => v,
        None => {
            return None;
        },
    };
    let description = get_text_or(fields, "desc", "");
    let time = match get_long(fields, "time") {
        Some(v) => v,
        None => {
            return None;
        },
    };
    Some(P4Changelist { id, description, user, client, status, file_count: 0, time })
}

/// The workspace that a record of `clients` output describes: it needs `client` and `Root`.
pub open spec fn workspace_of(m: Fields) -> Option<P4WorkspaceView> {
    if !m.contains_key("client"@) || !m.contains_key("Root"@) {
        None
    } else {
        Some(
            P4WorkspaceView {
                name: m["client"@],
                root: m["Root"@],
                stream: field(m, "Stream"@),
                description: field_or(m, "Description"@, ""@),
            },
        )
    }
}

/// Builds the workspace that a record of `clients` output describes.
pub fn build_workspace(fields: &ZtagRecord) -> (r: Option<P4Workspace>)
    ensures
        match r {
            Some(x) => workspace_of(fields@) == Some(x@),
            None => workspace_of(fields@) is None,
        },
{
    let name = match get_text(fields, "client") {
        Some(v) => v,
        None => {
            return None;
        },
    };
    let root = match get_text(fields, "Root") {
        Some(v) => v,
        None => {
            return None;
        },
    };
    let stream = get_text(fields, "Stream");
    let description = get_text_or(fields, "Description", "");
    Some(P4Workspace { name, root, stream, description })
}

/// The stream that a record of `streams` output describes: it needs `Stream` and `Type`;
/// the name defaults to the stream's path.
pub open spec fn stream_of(m: Fields) -> Option<P4StreamView> {
    if !m.contains_key("Stream"@) || !m.contains_key("Type"@) {
        None
    } else {
        Some(
            P4StreamView {
                stream: m["Stream"@],
                name: field_or(m, "Name"@, m["Stream"@]),
                parent: field(m, "Parent"@),
                stream_type: m["Type"@],
                description: field_or(m, "desc"@, ""@),
            },
        )
    }
}

/// Builds the stream that a record of `streams` output describes.
pub fn build_stream(fields: &ZtagRecord) -> (r: Option<P4Stream>)
    ensures
        match r {
            Some(x) => stream_of(fields@) == Some(x@),
            None => stream_of(fields@) is None,
        },
{
    let stream = match get_text(fields, "Stream") {
        Some(v) => v,
        None => {
            return None;
        },
    };
    let name = match get_text(fields, "Name") {
        Some(v) => v,
        None => stream.clone(),
    };
    let parent = get_text(fields, "Parent");
    let stream_type = match get_text(fields, "Type") {
        Some(v) => v,
        None => {
            return None;
        },
    };
    let description = get_text_or(fields, "desc", "");
    Some(P4Stream { stream, name, parent, stream_type, description })
}

/// The depot that a record of `depots` output describes: it needs `name` and a type,
/// `type` before `Type`.
pub open spec fn depot_of(m: Fields) -> Option<P4DepotView> {
    if !m.contains_key("name"@) || either_field(m, "type"@, "Type"@) is None {
        None
    } else {
        Some(
            P4DepotView {
                name: m["name"@],
                depot_type: either_field(m, "type"@, "Type"@)->Some_0,
            },
        )
    }
}

/// Builds the depot that a record of `depots` output describes.
pub fn build_depot(fields: &ZtagRecord) -> (r: Option<P4Depot>)
    ensures
        match r {
            Some(x) => depot_of(fields@) == Some(x@),
            None => depot_of(fields@) is None,
        },
{
    let name = match get_text(fields, "name") {
        Some(v) => v,
        None => {
            return None;
        },
    };
    let depot_type = match get_either(fields, "type", "Type") {
        Some(v) => v,
        None => {
            return None;
        },
    };
    Some(P4Depot { name, depot_type })
}

/// The file that a record of `fstat -Ru -Or` output describes; the resolve action
/// defaults to `merge`.
pub open spec fn unresolved_file_of(m: Fields) -> Option<P4UnresolvedFileView> {
    if !m.contains_key("depotFile"@) || either_field(m, "path"@, "clientFile"@) is None {
        None
    } else {
        Some(
            P4UnresolvedFileView {
                depot_path: m["depotFile"@],
                local_path: either_field(m, "path"@, "clientFile"@)->Some_0,
                head_rev: int_field_or(m, "headRev"@, 0),
                have_rev: int_field_or(m, "haveRev"@, 0),
                resolve_action: field_or(m, "resolveAction0"@, "merge"@),
            },
        )
    }
}

/// Builds the file that a record of `fstat -Ru -Or` output describes.
pub fn build_unresolved_file_info(fields: &ZtagRecord) -> (r: Option<P4UnresolvedFile>)
    ensures
        match r {
            Some(x) => unresolved_file_of(fields@) == Some(x@),
            None => unresolved_file_of(fields@) is None,
        },
{
    let depot_path = match get_text(fields, "depotFile") {
        Some(v) => v,
        None => {
            return None;
        },
    };
    let local_path = match get_either(fields, "path", "clientFile") {
        Some(v) => v,
        None => {
            return None;
        },
    };
    let head_rev = get_int_or(fields, "headRev", 0);
    let have_rev = get_int_or(fields, "haveRev", 0);
    let resolve_action = get_text_or(fields, "resolveAction0", "merge");
    Some(P4UnresolvedFile { depot_path, local_path, head_rev, have_rev, resolve_action })
}

/// The first record, or an empty one where there is none.
pub open spec fn first_record(recs: Seq<Fields>) -> Fields {
    if recs.len() > 0 {
        recs[0]
    } else {
        Fields::empty()
    }
}

pub fn first_or_empty(records: &Vec<ZtagRecord>) -> (r: ZtagRecord)
    requires
        forall|k: int| 0 <= k < records@.len() ==> (#[trigger] records@[k]).wf(),
    ensures
        r@ == first_record(views_of(records@)),
        r.wf(),
{
    if records.len() > 0 {
        let mut r = ZtagRecord::new();
        r.extend(&records[0]);
        assert(r@ =~= records@[0]@);
        r
    } else {
        ZtagRecord::new()
    }
}

/// What `info` output gives: the first record, which must name a client root.
pub open spec fn client_info_of(m: Fields) -> Option<P4ClientInfoView> {
    if field_or(m, "clientRoot"@, ""@).len() == 0 {
        None
    } else {
        Some(
            P4ClientInfoView {
                client_name: field_or(m, "clientName"@, ""@),
                client_root: m["clientRoot"@],
                client_stream: field(m, "clientStream"@),
                user_name: field_or(m, "userName"@, ""@),
                server_address: field_or(m, "serverAddress"@, ""@),
            },
        )
    }
}

/// Parses `info` output; fails where no client root is given.
pub fn parse_ztag_info(output: &str) -> (r: Result<P4ClientInfo, String>)
    ensures
        match r {
            Ok(info) => client_info_of(first_record(ztag_records(output@))) == Some(info@),
            Err(e) => client_info_of(first_record(ztag_records(output@))) is None && e@
                == "Could not determine P4 client root. Is P4CLIENT set?"@,
        },
{
    let records = parse_ztag_records(output);
    let fields = first_or_empty(&records);
    let client_root = get_text_or(&fields, "clientRoot", "");
    proof {
        reveal_strlit("");
    }
    if client_root.as_str().is_empty() {
        return Err("Could not determine P4 client root. Is P4CLIENT set?".to_owned());
    }
    Ok(
        P4ClientInfo {
            client_name: get_text_or(&fields, "clientName", ""),
            client_root,
            client_stream: get_text(&fields, "clientStream"),
            user_name: get_text_or(&fields, "userName", ""),
            server_address: get_text_or(&fields, "serverAddress", ""),
        },
    )
}

/// What each record gives, in order, for the records that give one.
pub open spec fn file_infos_of(recs: Seq<Fields>) -> Seq<P4FileInfoView>
    decreases recs.len(),
{
    if recs.len() == 0 {
        Seq::empty()
    } else {
        match file_info_of(recs.last()) {
            Some(x) => file_infos_of(recs.drop_last()).push(x),
            None => file_infos_of(recs.drop_last()),
        }
    }
}

pub open spec fn views_file_infos(v: Seq<P4FileInfo>) -> Seq<P4FileInfoView> {
    v.map_values(|x: P4FileInfo| x@)
}

/// Parses `fstat` output; records that lack a required field are left out.
pub fn parse_ztag_fstat(output: &str) -> (r: Result<Vec<P4FileInfo>, String>)
    ensures
        match r {
            Ok(v) => views_file_infos(v@) == file_infos_of(ztag_records(output@)),
            Err(_) => false,
        },
{
    let records = parse_ztag_records(output);
    let ghost recs = views_of(records@);
    let mut out: Vec<P4FileInfo> = Vec::new();
    let mut i: usize = 0;
    while i < records.len()
        invariant
            i <= records@.len(),
            recs == views_of(records@),
            views_file_infos(out@) == file_infos_of(recs.take(i as int)),
        decreases records@.len() - i,
    {
        assert(recs.take(i + 1).drop_last() =~= recs.take(i as int));
        assert(recs.take(i + 1).last() == records@[i as int]@);
        match build_file_info(&records[i]) {
            Some(x) => {
                out.push(x);
                assert(views_file_infos(out@) =~= file_infos_of(recs.take(i as int)).push(x@));
            },
            None => {},
        }
        i = i + 1;
    }
    assert(recs.take(records@.len() as int) =~= recs);
    Ok(out)
}

/// What each record gives, in order, for the records that give one.
pub open spec fn changelists_of(recs: Seq<Fields>) -> Seq<P4ChangelistView>
    decreases recs.len(),
{
    if recs.len() == 0 {
        Seq::empty()
    } else {
        match changelist_of(recs.last()) {
            Some(x) => changelists_of(recs.drop_last()).push(x),
            None => changelists_of(recs.drop_last()),
        }
    }
}

pub open spec fn views_changelists(v: Seq<P4Changelist>) -> Seq<P4ChangelistView> {
    v.map_values(|x: P4Changelist| x@)
}

/// Parses `changes` output; records that lack a required field are left out.
pub fn parse_ztag_changes(output: &str) -> (r: Result<Vec<P4Changelist>, String>)
    ensures
        match r {
            Ok(v) => views_changelists(v@) == changelists_of(ztag_records(output@)),
            Err(_) => false,
        },
{
    let records = parse_ztag_records(output);
    let ghost recs = views_of(records@);
    let mut out: Vec<P4Changelist> = Vec::new();
    let mut i: usize = 0;
    while i < records.len()
        invariant
            i <= records@.len(),
            recs == views_of(records@),
            views_changelists(out@) == changelists_of(recs.take(i as int)),
        decreases records@.len() - i,
    {
        assert(recs.take(i + 1).drop_last() =~= recs.take(i as int));
        assert(recs.take(i + 1).last() == records@[i as int]@);
        match build_changelist(&records[i]) {
            Some(x) => {
                out.push(x);
                assert(views_changelists(out@) =~= changelists_of(recs.take(i as int)).push(x@));
            },
            None => {},
        }
        i = i + 1;
    }
    assert(recs.take(records@.len() as int) =~= recs);
    Ok(out)
}

/// What each record gives, in order, for the records that give one.
pub open spec fn workspaces_of(recs: Seq<Fields>) -> Seq<P4WorkspaceView>
    decreases recs.len(),
{
    if recs.len() == 0 {
        Seq::empty()
    } else {
        match workspace_of(recs.last()) {
            Some(x) => workspaces_of(recs.drop_last()).push(x),
            None => workspaces_of(recs.drop_last()),
        }
    }
}

pub open spec fn views_workspaces(v: Seq<P4Workspace>) -> Seq<P4WorkspaceView> {
    v.map_values(|x: P4Workspace| x@)
}

/// Parses `clients` output; records that lack a required field are left out.
pub fn parse_ztag_clients(output: &str) -> (r: Result<Vec<P4Workspace>, String>)
    ensures
        match r {
            Ok(v) => views_workspaces(v@) == workspaces_of(ztag_records(output@)),
            Err(_) => false,
        },
{
    let records = parse_ztag_records(output);
    let ghost recs = views_of(records@);
    let mut out: Vec<P4Workspace> = Vec::new();
    let mut i: usize = 0;
    while i < records.len()
        invariant
            i <= records@.len(),
            recs == views_of(records@),
            views_workspaces(out@) == workspaces_of(recs.take(i as int)),
        decreases records@.len() - i,
    {
        assert(recs.take(i + 1).drop_last() =~= recs.take(i as int));
        assert(recs.take(i + 1).last() == records@[i as int]@);
        match build_workspace(&records[i]) {
            Some(x) => {
                out.push(x);
                assert(views_workspaces(out@) =~= workspaces_of(recs.take(i as int)).push(x@));
            },
            None => {},
        }
        i = i + 1;
    }
    assert(recs.take(records@.len() as int) =~= recs);
    Ok(out)
}

/// What each record gives, in order, for the records that give one.
pub open spec fn streams_of(recs: Seq<Fields>) -> Seq<P4StreamView>
    decreases recs.len(),
{
    if recs.len() == 0 {
        Seq::empty()
    } else {
        match stream_of(recs.last()) {
            Some(x) => streams_of(recs.drop_last()).push(x),
            None => streams_of(recs.drop_last()),
        }
    }
}

pub open spec fn views_streams(v: Seq<P4Stream>) -> Seq<P4StreamView> {
    v.map_values(|x: P4Stream| x@)
}

/// Parses `streams` output; records that lack a required field are left out.
pub fn parse_ztag_streams(output: &str) -> (r: Result<Vec<P4Stream>, String>)
    ensures
        match r {
            Ok(v) => views_streams(v@) == streams_of(ztag_records(output@)),
            Err(_) => false,
        },
{
    let records = parse_ztag_records(output);
    let ghost recs = views_of(records@);
    let mut out: Vec<P4Stream> = Vec::new();
    let mut i: usize = 0;
    while i < records.len()
        invariant
            i <= records@.len(),
            recs == views_of(records@),
            views_streams(out@) == streams_of(recs.take(i as int)),
        decreases records@.len() - i,
    {
        assert(recs.take(i + 1).drop_last() =~= recs.take(i as int));
        assert(recs.take(i + 1).last() == records@[i as int]@);
        match build_stream(&records[i]) {
            Some(x) => {
                out.push(x);
                assert(views_streams(out@) =~= streams_of(recs.take(i as int)).push(x@));
            },
            None => {},
        }
        i = i + 1;
    }
    assert(recs.take(records@.len() as int) =~= recs);
    Ok(out)
}

/// What each record gives, in order, for the records that give one.
pub open spec fn depots_of(recs: Seq<Fields>) -> Seq<P4DepotView>
    decreases recs.len(),
{
    if recs.len() == 0 {
        Seq::empty()
    } else {
        match depot_of(recs.last()) {
            Some(x) => depots_of(recs.drop_last()).push(x),
            None => depots_of(recs.drop_last()),
        }
    }
}

pub open spec fn views_depots(v: Seq<P4Depot>) -> Seq<P4DepotView> {
    v.map_values(|x: P4Depot| x@)
}

/// Parses `depots` output; records that lack a required field are left out.
pub fn parse_ztag_depots(output: &str) -> (r: Result<Vec<P4Depot>, String>)
    ensures
        match r {
            Ok(v) => views_depots(v@) == depots_of(ztag_records(output@)),
            Err(_) => false,
        },
{
    let records = parse_ztag_records(output);
    let ghost recs = views_of(records@);
    let mut out: Vec<P4Depot> = Vec::new();
    let mut i: usize = 0;
    while i < records.len()
        invariant
            i <= records@.len(),
            recs == views_of(records@),
            views_depots(out@) == depots_of(recs.take(i as int)),
        decreases records@.len() - i,
    {
        assert(recs.take(i + 1).drop_last() =~= recs.take(i as int));
        assert(recs.take(i + 1).last() == records@[i as int]@);
        match build_depot(&records[i]) {
            Some(x) => {
                out.push(x);
                assert(views_depots(out@) =~= depots_of(recs.take(i as int)).push(x@));
            },
            None => {},
        }
        i = i + 1;
    }
    assert(recs.take(records@.len() as int) =~= recs);
    Ok(out)
}

/// What each record gives, in order, for the records that give one.
pub open spec fn unresolved_files_of(recs: Seq<Fields>) -> Seq<P4UnresolvedFileView>
    decreases recs.len(),
{
    if recs.len() == 0 {
        Seq::empty()
    } else {
        match unresolved_file_of(recs.last()) {
            Some(x) => unresolved_files_of(recs.drop_last()).push(x),
            None => unresolved_files_of(recs.drop_last()),
        }
    }
}

pub open spec fn views_unresolved_files(v: Seq<P4UnresolvedFile>) -> Seq<P4UnresolvedFileView> {
    v.map_values(|x: P4UnresolvedFile| x@)
}

/// Parses `fstat -Ru -Or` output; records that lack a required field are left out.
pub fn parse_ztag_fstat_unresolved(output: &str) -> (r: Result<Vec<P4UnresolvedFile>, String>)
    ensures
        match r {
            Ok(v) => views_unresolved_files(v@) == unresolved_files_of(ztag_records(output@)),
            Err(_) => false,
        },
{
    let records = parse_ztag_records(output);
    let ghost recs = views_of(records@);
    let mut out: Vec<P4UnresolvedFile> = Vec::new();
    let mut i: usize = 0;
    while i < records.len()
        invariant
            i <= records@.len(),
            recs == views_of(records@),
            views_unresolved_files(out@) == unresolved_files_of(recs.take(i as int)),
        decreases records@.len() - i,
    {
        assert(recs.take(i + 1).drop_last() =~= recs.take(i as int));
        assert(recs.take(i + 1).last() == records@[i as int]@);
        match build_unresolved_file_info(&records[i]) {
            Some(x) => {
                out.push(x);
                assert(views_unresolved_files(out@) =~= unresolved_files_of(recs.take(i as int)).push(x@));
            },
            None => {},
        }
        i = i + 1;
    }
    assert(recs.take(records@.len() as int) =~= recs);
    Ok(out)
}

/// The `dir` of each record that has one, in order.
pub open spec fn dirs_of(recs: Seq<Fields>) -> Seq<Seq<char>>
    decreases recs.len(),
{
    if recs.len() == 0 {
        Seq::empty()
    } else {
        match field(recs.last(), "dir"@) {
            Some(x) => dirs_of(recs.drop_last()).push(x),
            None => dirs_of(recs.drop_last()),
        }
    }
}

/// Parses `dirs` output into the directories it lists.
pub fn parse_ztag_dirs(output: &str) -> (r: Result<Vec<String>, String>)
    ensures
        match r {
            Ok(v) => v@.map_values(|s: String| s@) == dirs_of(ztag_records(output@)),
            Err(_) => false,
        },
{
    let records = parse_ztag_records(output);
    let ghost recs = views_of(records@);
    let mut out: Vec<String> = Vec::new();
    let mut i: usize = 0;
    while i < records.len()
        invariant
            i <= records@.len(),
            recs == views_of(records@),
            out@.map_values(|s: String| s@) == dirs_of(recs.take(i as int)),
        decreases records@.len() - i,
    {
        assert(recs.take(i + 1).drop_last() =~= recs.take(i as int));
        assert(recs.take(i + 1).last() == records@[i as int]@);
        match get_text(&records[i], "dir") {
            Some(x) => {
                out.push(x);
                assert(out@.map_values(|s: String| s@) =~= dirs_of(recs.take(i as int)).push(x@));
            },
            None => {},
        }
        i = i + 1;
    }
    assert(recs.take(records@.len() as int) =~= recs);
    Ok(out)
}

} // verus!

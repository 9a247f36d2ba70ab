use vstd::prelude::*;

verus! {

/// File information from fstat.
#[derive(Debug, Clone)]
pub struct P4FileInfo {
    pub depot_path: String,
    pub local_path: String,
    pub status: String,
    pub action: Option<String>,
    pub revision: i32,
    pub head_revision: i32,
    pub changelist: Option<i32>,
    pub file_type: String,
    pub head_action: Option<String>,
}

/// What a [`P4FileInfo`] holds, as plain values.
pub struct P4FileInfoView {
    pub depot_path: Seq<char>,
    pub local_path: Seq<char>,
    pub status: Seq<char>,
    pub action: Option<Seq<char>>,
    pub revision: i32,
    pub head_revision: i32,
    pub changelist: Option<i32>,
    pub file_type: Seq<char>,
    pub head_action: Option<Seq<char>>,
}

impl View for P4FileInfo {
    type V = P4FileInfoView;

    open spec fn view(&self) -> P4FileInfoView {
        P4FileInfoView {
            depot_path: self.depot_path@,
            local_path: self.local_path@,
            status: self.status@,
            action: self.action.deep_view(),
            revision: self.revision,
            head_revision: self.head_revision,
            changelist: self.changelist,
            file_type: self.file_type@,
            head_action: self.head_action.deep_view(),
        }
    }
}

/// A changelist from `changes`.
#[derive(Debug, Clone)]
pub struct P4Changelist {
    pub id: i32,
    pub description: String,
    pub user: String,
    pub client: String,
    pub status: String,
    pub file_count: i32,
    pub time: i64,
}

/// What a [`P4Changelist`] holds, as plain values.
pub struct P4ChangelistView {
    pub id: i32,
    pub description: Seq<char>,
    pub user: Seq<char>,
    pub client: Seq<char>,
    pub status: Seq<char>,
    pub file_count: i32,
    pub time: i64,
}

impl View for P4Changelist {
    type V = P4ChangelistView;

    open spec fn view(&self) -> P4ChangelistView {
        P4ChangelistView {
            id: self.id,
            description: self.description@,
            user: self.user@,
            client: self.client@,
            status: self.status@,
            file_count: self.file_count,
            time: self.time,
        }
    }
}

/// Client, user and server from `info`.
#[derive(Debug, Clone)]
pub struct P4ClientInfo {
    pub client_name: String,
    pub client_root: String,
    pub client_stream: Option<String>,
    pub user_name: String,
    pub server_address: String,
}

/// What a [`P4ClientInfo`] holds, as plain values.
pub struct P4ClientInfoView {
    pub client_name: Seq<char>,
    pub client_root: Seq<char>,
    pub client_stream: Option<Seq<char>>,
    pub user_name: Seq<char>,
    pub server_address: Seq<char>,
}

impl View for P4ClientInfo {
    type V = P4ClientInfoView;

    open spec fn view(&self) -> P4ClientInfoView {
        P4ClientInfoView {
            client_name: self.client_name@,
            client_root: self.client_root@,
            client_stream: self.client_stream.deep_view(),
            user_name: self.user_name@,
            server_address: self.server_address@,
        }
    }
}

/// A workspace from `clients`.
#[derive(Debug, Clone)]
pub struct P4Workspace {
    pub name: String,
    pub root: String,
    pub stream: Option<String>,
    pub description: String,
}

/// What a [`P4Workspace`] holds, as plain values.
pub struct P4WorkspaceView {
    pub name: Seq<char>,
    pub root: Seq<char>,
    pub stream: Option<Seq<char>>,
    pub description: Seq<char>,
}

impl View for P4Workspace {
    type V = P4WorkspaceView;

    open spec fn view(&self) -> P4WorkspaceView {
        P4WorkspaceView {
            name: self.name@,
            root: self.root@,
            stream: self.stream.deep_view(),
            description: self.description@,
        }
    }
}

/// One revision of a file from `filelog`.
#[derive(Debug, Clone)]
pub struct P4Revision {
    pub rev: i32,
    pub change: i32,
    pub action: String,
    pub file_type: String,
    pub time: i64,
    pub user: String,
    pub client: String,
    pub desc: String,
}

/// What a [`P4Revision`] holds, as plain values.
pub struct P4RevisionView {
    pub rev: i32,
    pub change: i32,
    pub action: Seq<char>,
    pub file_type: Seq<char>,
    pub time: i64,
    pub user: Seq<char>,
    pub client: Seq<char>,
    pub desc: Seq<char>,
}

impl View for P4Revision {
    type V = P4RevisionView;

    open spec fn view(&self) -> P4RevisionView {
        P4RevisionView {
            rev: self.rev,
            change: self.change,
            action: self.action@,
            file_type: self.file_type@,
            time: self.time,
            user: self.user@,
            client: self.client@,
            desc: self.desc@,
        }
    }
}

/// One classified line of `sync` output.
#[derive(Debug, Clone)]
pub struct SyncProgress {
    pub depot_path: String,
    pub action: String,
    pub revision: i32,
    pub is_conflict: bool,
}

/// What a [`SyncProgress`] holds, as plain values.
pub struct SyncProgressView {
    pub depot_path: Seq<char>,
    pub action: Seq<char>,
    pub revision: i32,
    pub is_conflict: bool,
}

impl View for SyncProgress {
    type V = SyncProgressView;

    open spec fn view(&self) -> SyncProgressView {
        SyncProgressView {
            depot_path: self.depot_path@,
            action: self.action@,
            revision: self.revision,
            is_conflict: self.is_conflict,
        }
    }
}

/// One line of `annotate -u -c` output.
#[derive(Debug, Clone)]
pub struct P4AnnotationLine {
    pub line_number: i32,
    pub changelist_id: i32,
    pub user: String,
    pub date: String,
    pub line_content: String,
}

/// What a [`P4AnnotationLine`] holds, as plain values.
pub struct P4AnnotationLineView {
    pub line_number: i32,
    pub changelist_id: i32,
    pub user: Seq<char>,
    pub date: Seq<char>,
    pub line_content: Seq<char>,
}

impl View for P4AnnotationLine {
    type V = P4AnnotationLineView;

    open spec fn view(&self) -> P4AnnotationLineView {
        P4AnnotationLineView {
            line_number: self.line_number,
            changelist_id: self.changelist_id,
            user: self.user@,
            date: self.date@,
            line_content: self.line_content@,
        }
    }
}

/// A shelved file from `describe -S`.
#[derive(Debug, Clone)]
pub struct P4ShelvedFile {
    pub depot_path: String,
    pub action: String,
    pub file_type: String,
    pub revision: i32,
}

/// What a [`P4ShelvedFile`] holds, as plain values.
pub struct P4ShelvedFileView {
    pub depot_path: Seq<char>,
    pub action: Seq<char>,
    pub file_type: Seq<char>,
    pub revision: i32,
}

impl View for P4ShelvedFile {
    type V = P4ShelvedFileView;

    open spec fn view(&self) -> P4ShelvedFileView {
        P4ShelvedFileView {
            depot_path: self.depot_path@,
            action: self.action@,
            file_type: self.file_type@,
            revision: self.revision,
        }
    }
}

/// A file of a described changelist.
#[derive(Debug, Clone)]
pub struct P4DescribeFile {
    pub depot_path: String,
    pub revision: i32,
    pub action: String,
    pub file_type: String,
}

/// What a [`P4DescribeFile`] holds, as plain values.
pub struct P4DescribeFileView {
    pub depot_path: Seq<char>,
    pub revision: i32,
    pub action: Seq<char>,
    pub file_type: Seq<char>,
}

impl View for P4DescribeFile {
    type V = P4DescribeFileView;

    open spec fn view(&self) -> P4DescribeFileView {
        P4DescribeFileView {
            depot_path: self.depot_path@,
            revision: self.revision,
            action: self.action@,
            file_type: self.file_type@,
        }
    }
}

/// A file that `reconcile -n` would open.
#[derive(Debug, Clone)]
pub struct ReconcilePreview {
    pub depot_path: String,
    pub local_path: String,
    pub action: String,
}

/// What a [`ReconcilePreview`] holds, as plain values.
pub struct ReconcilePreviewView {
    pub depot_path: Seq<char>,
    pub local_path: Seq<char>,
    pub action: Seq<char>,
}

impl View for ReconcilePreview {
    type V = ReconcilePreviewView;

    open spec fn view(&self) -> ReconcilePreviewView {
        ReconcilePreviewView {
            depot_path: self.depot_path@,
            local_path: self.local_path@,
            action: self.action@,
        }
    }
}

/// A stream from `streams`.
#[derive(Debug, Clone)]
pub struct P4Stream {
    pub stream: String,
    pub name: String,
    pub parent: Option<String>,
    pub stream_type: String,
    pub description: String,
}

/// What a [`P4Stream`] holds, as plain values.
pub struct P4StreamView {
    pub stream: Seq<char>,
    pub name: Seq<char>,
    pub parent: Option<Seq<char>>,
    pub stream_type: Seq<char>,
    pub description: Seq<char>,
}

impl View for P4Stream {
    type V = P4StreamView;

    open spec fn view(&self) -> P4StreamView {
        P4StreamView {
            stream: self.stream@,
            name: self.name@,
            parent: self.parent.deep_view(),
            stream_type: self.stream_type@,
            description: self.description@,
        }
    }
}

/// A file from `files`.
#[derive(Debug, Clone)]
pub struct P4FileResult {
    pub depot_path: String,
    pub revision: i32,
    pub action: String,
    pub change: i32,
    pub file_type: String,
}

/// What a [`P4FileResult`] holds, as plain values.
pub struct P4FileResultView {
    pub depot_path: Seq<char>,
    pub revision: i32,
    pub action: Seq<char>,
    pub change: i32,
    pub file_type: Seq<char>,
}

impl View for P4FileResult {
    type V = P4FileResultView;

    open spec fn view(&self) -> P4FileResultView {
        P4FileResultView {
            depot_path: self.depot_path@,
            revision: self.revision,
            action: self.action@,
            change: self.change,
            file_type: self.file_type@,
        }
    }
}

/// A depot from `depots`.
#[derive(Debug, Clone)]
pub struct P4Depot {
    pub name: String,
    pub depot_type: String,
}

/// What a [`P4Depot`] holds, as plain values.
pub struct P4DepotView {
    pub name: Seq<char>,
    pub depot_type: Seq<char>,
}

impl View for P4Depot {
    type V = P4DepotView;

    open spec fn view(&self) -> P4DepotView {
        P4DepotView {
            name: self.name@,
            depot_type: self.depot_type@,
        }
    }
}

/// A file that needs resolving, from `fstat -Ru -Or`.
#[derive(Debug, Clone)]
pub struct P4UnresolvedFile {
    pub depot_path: String,
    pub local_path: String,
    pub head_rev: i32,
    pub have_rev: i32,
    pub resolve_action: String,
}

/// What a [`P4UnresolvedFile`] holds, as plain values.
pub struct P4UnresolvedFileView {
    pub depot_path: Seq<char>,
    pub local_path: Seq<char>,
    pub head_rev: i32,
    pub have_rev: i32,
    pub resolve_action: Seq<char>,
}

impl View for P4UnresolvedFile {
    type V = P4UnresolvedFileView;

    open spec fn view(&self) -> P4UnresolvedFileView {
        P4UnresolvedFileView {
            depot_path: self.depot_path@,
            local_path: self.local_path@,
            head_rev: self.head_rev,
            have_rev: self.have_rev,
            resolve_action: self.resolve_action@,
        }
    }
}

/// A described changelist: its header and its files, from `describe`.
#[derive(Debug, Clone)]
pub struct P4ChangelistDescription {
    pub id: i32,
    pub user: String,
    pub client: String,
    pub time: i64,
    pub description: String,
    pub status: String,
    pub files: Vec<P4DescribeFile>,
}

/// What a [`P4ChangelistDescription`] holds, as plain values.
pub struct P4ChangelistDescriptionView {
    pub id: i32,
    pub user: Seq<char>,
    pub client: Seq<char>,
    pub time: i64,
    pub description: Seq<char>,
    pub status: Seq<char>,
    pub files: Seq<P4DescribeFileView>,
}

impl View for P4ChangelistDescription {
    type V = P4ChangelistDescriptionView;

    open spec fn view(&self) -> P4ChangelistDescriptionView {
        P4ChangelistDescriptionView {
            id: self.id,
            user: self.user@,
            client: self.client@,
            time: self.time,
            description: self.description@,
            status: self.status@,
            files: self.files@.map_values(|f: P4DescribeFile| f@),
        }
    }
}

/// A client spec from `client -o`.
#[derive(Debug, Clone)]
pub struct P4ClientSpec {
    pub client: String,
    pub root: String,
    pub stream: Option<String>,
    pub owner: String,
    pub description: String,
    pub view: Vec<String>,
    pub options: String,
    pub host: String,
    pub submit_options: String,
}

/// What a [`P4ClientSpec`] holds, as plain values.
pub struct P4ClientSpecView {
    pub client: Seq<char>,
    pub root: Seq<char>,
    pub stream: Option<Seq<char>>,
    pub owner: Seq<char>,
    pub description: Seq<char>,
    pub view: Seq<Seq<char>>,
    pub options: Seq<char>,
    pub host: Seq<char>,
    pub submit_options: Seq<char>,
}

impl View for P4ClientSpec {
    type V = P4ClientSpecView;

    open spec fn view(&self) -> P4ClientSpecView {
        P4ClientSpecView {
            client: self.client@,
            root: self.root@,
            stream: self.stream.deep_view(),
            owner: self.owner@,
            description: self.description@,
            view: self.view@.map_values(|v: String| v@),
            options: self.options@,
            host: self.host@,
            submit_options: self.submit_options@,
        }
    }
}

/// A batch of a streamed `fstat`: some files, or the end of the stream.
#[derive(Debug, Clone)]
pub enum FstatStreamBatch {
    Data { files: Vec<P4FileInfo>, total_received: u32 },
    Complete { total_files: u32, success: bool, error: Option<String> },
}

/// One line that a running command wrote, and on which stream.
#[derive(Debug, Clone)]
pub struct OutputLine {
    pub line: String,
    pub is_stderr: bool,
}

} // verus!

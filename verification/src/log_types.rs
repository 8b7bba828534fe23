//! The message model: the application messages the decoder hands back,
//! and the identifiers they carry.

use vstd::prelude::*;

use crate::format::CrateVersion;
use crate::random_id::random_simple_id;
use crate::random_id::seq_is_lower_hex;
use crate::random_id::uuid_simple_string;

verus! {

/// What kind of store a message belongs to.
///
/// `Recording` stores hold logged user data; `Blueprint` stores hold
/// viewer layout state. Both travel over the same stream.
#[derive(Copy, Clone, Debug, Hash, PartialEq, Eq, PartialOrd, Ord, Structural)]
pub enum StoreKind {
    /// A recording of user data.
    Recording,
    /// Data describing how recordings are laid out.
    Blueprint,
}

/// A unique id per store: its kind plus an identifier string.
#[derive(Clone, Debug, Hash, PartialEq, Eq, PartialOrd, Ord)]
pub struct StoreId {
    pub kind: StoreKind,
    pub id: String,
}

/// Mathematical image of a [`StoreId`].
#[verifier::ext_equal]
pub struct StoreIdView {
    pub kind: StoreKind,
    pub id: Seq<char>,
}

impl View for StoreId {
    type V = StoreIdView;

    open spec fn view(&self) -> StoreIdView {
        StoreIdView { kind: self.kind, id: self.id@ }
    }
}

impl StoreId {
    /// A fresh random id of the given kind: 32 lowercase hex digits.
    pub fn random(kind: StoreKind) -> (r: StoreId)
        ensures
            r@.kind == kind,
            r@.id.len() == 32,
            seq_is_lower_hex(r@.id),
    {
        StoreId { kind, id: random_simple_id() }
    }

    /// The placeholder id of a recording that holds nothing yet.
    pub fn empty_recording() -> (r: StoreId)
        ensures
            r@ == (StoreIdView { kind: StoreKind::Recording, id: "<EMPTY>"@ }),
    {
        StoreId::from_string(StoreKind::Recording, "<EMPTY>".to_owned())
    }

    /// The simple-format string of the given UUID, as an id of the given
    /// kind.
    pub fn from_uuid(kind: StoreKind, uuid: uuid::Uuid) -> (r: StoreId)
        ensures
            r@.kind == kind,
            r@.id.len() == 32,
            seq_is_lower_hex(r@.id),
    {
        StoreId { kind, id: uuid_simple_string(&uuid) }
    }

    pub fn from_string(kind: StoreKind, str: String) -> (r: StoreId)
        ensures
            r@ == (StoreIdView { kind, id: str@ }),
    {
        StoreId { kind, id: str }
    }

    pub fn as_str(&self) -> (r: &str)
        ensures
            r@ == self@.id,
    {
        self.id.as_str()
    }

    /// Whether this is the placeholder id of an empty recording.
    pub fn is_empty_recording(&self) -> (b: bool)
        ensures
            b == (self@.kind == StoreKind::Recording && self@.id == "<EMPTY>"@),
    {
        self.kind == StoreKind::Recording && {
            let empty: String = "<EMPTY>".to_owned();
            self.id == empty
        }
    }
}

/// The user-chosen name of the application doing the logging.
#[derive(Clone, Debug, PartialEq, Eq, PartialOrd, Ord, Hash)]
pub struct ApplicationId(pub String);

impl View for ApplicationId {
    type V = Seq<char>;

    open spec fn view(&self) -> Seq<char> {
        self.0@
    }
}

impl ApplicationId {
    /// The default application id when the user has not set one.
    pub fn unknown() -> (r: ApplicationId)
        ensures
            r@ == "unknown_app_id"@,
    {
        ApplicationId("unknown_app_id".to_owned())
    }

    pub fn as_str(&self) -> (r: &str)
        ensures
            r@ == self@,
    {
        self.0.as_str()
    }

    /// A randomly generated application id: `app_` plus 32 lowercase hex
    /// digits.
    pub fn random() -> (r: ApplicationId)
        ensures
            r@.len() == 36,
            r@.subrange(0, 4) == "app_"@,
            seq_is_lower_hex(r@.skip(4)),
    {
        let mut s: String = String::from_str("app_");
        let tail = random_simple_id();
        s.append(tail.as_str());
        proof {
            reveal_strlit("app_");
            assert(s@.subrange(0, 4) =~= "app_"@);
            assert(s@.skip(4) =~= tail@);
        }
        ApplicationId(s)
    }
}

/// Either the user-chosen name of a table, or an id a catalog made up.
#[derive(Debug, Clone, PartialOrd, Ord, PartialEq, Eq, Hash)]
pub struct TableId(String);

impl View for TableId {
    type V = Seq<char>;

    closed spec fn view(&self) -> Seq<char> {
        self.0@
    }
}

impl TableId {
    pub fn new(id: String) -> (r: TableId)
        ensures
            r@ == id@,
    {
        TableId(id)
    }

    pub fn as_str(&self) -> (r: &str)
        ensures
            r@ == self@,
    {
        self.0.as_str()
    }
}

/// Command activating a blueprint once it has arrived in full.
#[derive(Clone, Debug, PartialEq, Eq)]
pub struct BlueprintActivationCommand {
    /// The blueprint this command refers to.
    pub blueprint_id: StoreId,
    /// Immediately make this the active blueprint for its application.
    pub make_active: bool,
    /// Make this the default blueprint for its application.
    pub make_default: bool,
}

/// Mathematical image of a [`BlueprintActivationCommand`].
#[verifier::ext_equal]
pub struct BlueprintActivationCommandView {
    pub blueprint_id: StoreIdView,
    pub make_active: bool,
    pub make_default: bool,
}

impl View for BlueprintActivationCommand {
    type V = BlueprintActivationCommandView;

    open spec fn view(&self) -> BlueprintActivationCommandView {
        BlueprintActivationCommandView {
            blueprint_id: self.blueprint_id@,
            make_active: self.make_active,
            make_default: self.make_default,
        }
    }
}

impl BlueprintActivationCommand {
    /// Make `blueprint_id` the default blueprint of its application.
    pub fn make_default(blueprint_id: StoreId) -> (r: BlueprintActivationCommand)
        ensures
            r@ == (BlueprintActivationCommandView {
                blueprint_id: blueprint_id@,
                make_active: false,
                make_default: true,
            }),
    {
        BlueprintActivationCommand { blueprint_id, make_active: false, make_default: true }
    }

    /// Immediately make `blueprint_id` the active blueprint of its
    /// application; this also makes it the default.
    pub fn make_active(blueprint_id: StoreId) -> (r: BlueprintActivationCommand)
        ensures
            r@ == (BlueprintActivationCommandView {
                blueprint_id: blueprint_id@,
                make_active: true,
                make_default: true,
            }),
    {
        BlueprintActivationCommand { blueprint_id, make_active: true, make_default: true }
    }
}

/// A time-based unique id: creation time in nanoseconds plus a counter
/// breaking ties within one nanosecond.
#[derive(Clone, Copy, Debug, Hash, PartialEq, Eq, PartialOrd, Ord, Structural)]
pub struct Tuid {
    pub time_ns: u64,
    pub inc: u64,
}

/// An encoded record batch in transit: the id of the chunk it carries and
/// its encoded bytes. The bytes stay opaque to this crate; decoding them
/// is the business of a layer above.
#[derive(Clone, Debug, PartialEq, Eq)]
pub struct ArrowMsg {
    /// Unique id of the enclosed chunk.
    pub chunk_id: Tuid,
    /// The encoded record batch.
    pub batch: Vec<u8>,
}

/// Mathematical image of an [`ArrowMsg`].
#[verifier::ext_equal]
pub struct ArrowMsgView {
    pub chunk_id: Tuid,
    pub batch: Seq<u8>,
}

impl View for ArrowMsg {
    type V = ArrowMsgView;

    open spec fn view(&self) -> ArrowMsgView {
        ArrowMsgView { chunk_id: self.chunk_id, batch: self.batch@ }
    }
}

/// The version of a Python writer, e.g. `3.11.0a1`.
#[derive(Clone, Debug, PartialEq, Eq)]
pub struct PythonVersion {
    pub major: u8,
    pub minor: u8,
    pub patch: u8,
    /// e.g. `a1` for alpha releases; empty for plain releases.
    pub suffix: String,
}

/// Mathematical image of a [`PythonVersion`].
#[verifier::ext_equal]
pub struct PythonVersionView {
    pub major: u8,
    pub minor: u8,
    pub patch: u8,
    pub suffix: Seq<char>,
}

impl View for PythonVersion {
    type V = PythonVersionView;

    open spec fn view(&self) -> PythonVersionView {
        PythonVersionView {
            major: self.major,
            minor: self.minor,
            patch: self.patch,
            suffix: self.suffix@,
        }
    }
}

/// How a file-based recording reached the system.
#[derive(Clone, Debug, PartialEq, Eq, Hash)]
pub enum FileSource {
    Cli,
    /// The user opened a recording URI in the viewer.
    Uri,
    DragAndDrop {
        /// The application id the viewer recommends for this source.
        recommended_application_id: Option<ApplicationId>,
        /// The recording id the viewer recommends for this source.
        recommended_recording_id: Option<StoreId>,
        /// Whether store info must be sent regardless of context.
        force_store_info: bool,
    },
    FileDialog {
        /// The application id the viewer recommends for this source.
        recommended_application_id: Option<ApplicationId>,
        /// The recording id the viewer recommends for this source.
        recommended_recording_id: Option<StoreId>,
        /// Whether store info must be sent regardless of context.
        force_store_info: bool,
    },
    Sdk,
}

/// Mathematical image of a [`FileSource`].
#[verifier::ext_equal]
pub enum FileSourceView {
    Cli,
    Uri,
    DragAndDrop {
        recommended_application_id: Option<Seq<char>>,
        recommended_recording_id: Option<StoreIdView>,
        force_store_info: bool,
    },
    FileDialog {
        recommended_application_id: Option<Seq<char>>,
        recommended_recording_id: Option<StoreIdView>,
        force_store_info: bool,
    },
    Sdk,
}

pub open spec fn view_opt_app_id(o: Option<ApplicationId>) -> Option<Seq<char>> {
    match o {
        Some(a) => Some(a@),
        None => None,
    }
}

pub open spec fn view_opt_store_id(o: Option<StoreId>) -> Option<StoreIdView> {
    match o {
        Some(s) => Some(s@),
        None => None,
    }
}

impl View for FileSource {
    type V = FileSourceView;

    open spec fn view(&self) -> FileSourceView {
        match self {
            FileSource::Cli => FileSourceView::Cli,
            FileSource::Uri => FileSourceView::Uri,
            FileSource::DragAndDrop {
                recommended_application_id,
                recommended_recording_id,
                force_store_info,
            } => FileSourceView::DragAndDrop {
                recommended_application_id: view_opt_app_id(*recommended_application_id),
                recommended_recording_id: view_opt_store_id(*recommended_recording_id),
                force_store_info: *force_store_info,
            },
            FileSource::FileDialog {
                recommended_application_id,
                recommended_recording_id,
                force_store_info,
            } => FileSourceView::FileDialog {
                recommended_application_id: view_opt_app_id(*recommended_application_id),
                recommended_recording_id: view_opt_store_id(*recommended_recording_id),
                force_store_info: *force_store_info,
            },
            FileSource::Sdk => FileSourceView::Sdk,
        }
    }
}

/// The recommended application id carried by this source, if any.
pub open spec fn spec_recommended_application_id(s: FileSourceView) -> Option<Seq<char>> {
    match s {
        FileSourceView::DragAndDrop { recommended_application_id, .. } =>
            recommended_application_id,
        FileSourceView::FileDialog { recommended_application_id, .. } =>
            recommended_application_id,
        _ => None,
    }
}

/// The recommended recording id carried by this source, if any.
pub open spec fn spec_recommended_recording_id(s: FileSourceView) -> Option<StoreIdView> {
    match s {
        FileSourceView::DragAndDrop { recommended_recording_id, .. } => recommended_recording_id,
        FileSourceView::FileDialog { recommended_recording_id, .. } => recommended_recording_id,
        _ => None,
    }
}

/// Whether this source forces store info to be sent.
pub open spec fn spec_force_store_info(s: FileSourceView) -> bool {
    match s {
        FileSourceView::DragAndDrop { force_store_info, .. } => force_store_info,
        FileSourceView::FileDialog { force_store_info, .. } => force_store_info,
        _ => false,
    }
}

impl FileSource {
    pub fn recommended_application_id(&self) -> (r: Option<&ApplicationId>)
        ensures
            view_opt_app_id_ref(r) == spec_recommended_application_id(self@),
    {
        match self {
            FileSource::FileDialog { recommended_application_id, .. } => {
                recommended_application_id.as_ref()
            }
            FileSource::DragAndDrop { recommended_application_id, .. } => {
                recommended_application_id.as_ref()
            }
            FileSource::Cli | FileSource::Uri | FileSource::Sdk => None,
        }
    }

    pub fn recommended_recording_id(&self) -> (r: Option<&StoreId>)
        ensures
            view_opt_store_id_ref(r) == spec_recommended_recording_id(self@),
    {
        match self {
            FileSource::FileDialog { recommended_recording_id, .. } => {
                recommended_recording_id.as_ref()
            }
            FileSource::DragAndDrop { recommended_recording_id, .. } => {
                recommended_recording_id.as_ref()
            }
            FileSource::Cli | FileSource::Uri | FileSource::Sdk => None,
        }
    }

    pub fn force_store_info(&self) -> (r: bool)
        ensures
            r == spec_force_store_info(self@),
    {
        match self {
            FileSource::FileDialog { force_store_info, .. } => *force_store_info,
            FileSource::DragAndDrop { force_store_info, .. } => *force_store_info,
            FileSource::Cli | FileSource::Uri | FileSource::Sdk => false,
        }
    }
}

pub open spec fn view_opt_app_id_ref(o: Option<&ApplicationId>) -> Option<Seq<char>> {
    match o {
        Some(a) => Some(a@),
        None => None,
    }
}

pub open spec fn view_opt_store_id_ref(o: Option<&StoreId>) -> Option<StoreIdView> {
    match o {
        Some(s) => Some(s@),
        None => None,
    }
}

/// The origin of a recording or blueprint.
#[derive(Clone, Debug, PartialEq, Eq)]
pub enum StoreSource {
    Unknown,
    /// The official C logging SDK.
    CSdk,
    /// The official Python logging SDK.
    PythonSdk(PythonVersion),
    /// The official Rust logging SDK.
    RustSdk {
        /// Rust version of the code compiling that SDK.
        rustc_version: String,
        /// LLVM version of the code compiling that SDK.
        llvm_version: String,
    },
    /// Loaded from a file.
    File {
        file_source: FileSource,
    },
    /// Generated by the viewer itself.
    Viewer,
    /// Some other, manually described ingestion path.
    Other(String),
}

/// Mathematical image of a [`StoreSource`].
#[verifier::ext_equal]
pub enum StoreSourceView {
    Unknown,
    CSdk,
    PythonSdk(PythonVersionView),
    RustSdk { rustc_version: Seq<char>, llvm_version: Seq<char> },
    File { file_source: FileSourceView },
    Viewer,
    Other(Seq<char>),
}

impl View for StoreSource {
    type V = StoreSourceView;

    open spec fn view(&self) -> StoreSourceView {
        match self {
            StoreSource::Unknown => StoreSourceView::Unknown,
            StoreSource::CSdk => StoreSourceView::CSdk,
            StoreSource::PythonSdk(v) => StoreSourceView::PythonSdk(v@),
            StoreSource::RustSdk { rustc_version, llvm_version } => StoreSourceView::RustSdk {
                rustc_version: rustc_version@,
                llvm_version: llvm_version@,
            },
            StoreSource::File { file_source } => StoreSourceView::File {
                file_source: file_source@,
            },
            StoreSource::Viewer => StoreSourceView::Viewer,
            StoreSource::Other(s) => StoreSourceView::Other(s@),
        }
    }
}

/// Information about a recording or blueprint.
#[derive(Clone, Debug, PartialEq, Eq)]
pub struct StoreInfo {
    /// The user-chosen name of the application doing the logging.
    pub application_id: ApplicationId,
    /// Unique for each recording.
    pub store_id: StoreId,
    /// If this store is the result of a clone, which store it was cloned
    /// from.
    pub cloned_from: Option<StoreId>,
    pub store_source: StoreSource,
    /// The version of the writer that encoded the stream this store
    /// arrived in. Not part of the message payload on the wire: the
    /// decoder fills it in from the stream header.
    pub store_version: Option<CrateVersion>,
}

/// Mathematical image of a [`StoreInfo`].
#[verifier::ext_equal]
pub struct StoreInfoView {
    pub application_id: Seq<char>,
    pub store_id: StoreIdView,
    pub cloned_from: Option<StoreIdView>,
    pub store_source: StoreSourceView,
    pub store_version: Option<CrateVersion>,
}

impl View for StoreInfo {
    type V = StoreInfoView;

    open spec fn view(&self) -> StoreInfoView {
        StoreInfoView {
            application_id: self.application_id@,
            store_id: self.store_id@,
            cloned_from: view_opt_store_id(self.cloned_from),
            store_source: self.store_source@,
            store_version: self.store_version,
        }
    }
}

impl StoreInfo {
    /// Whether this store info is the default used when the user did not
    /// explicitly create a blueprint: then the application id doubles as
    /// the store id.
    pub fn is_app_default_blueprint(&self) -> (r: bool)
        ensures
            r == (self@.application_id == self@.store_id.id),
    {
        self.application_id.0 == self.store_id.id
    }
}

/// Announces a new recording or blueprint.
#[derive(Clone, Debug, PartialEq, Eq)]
pub struct SetStoreInfo {
    /// A time-based unique id ordering these announcements globally.
    pub row_id: Tuid,
    pub info: StoreInfo,
}

/// Mathematical image of a [`SetStoreInfo`].
#[verifier::ext_equal]
pub struct SetStoreInfoView {
    pub row_id: Tuid,
    pub info: StoreInfoView,
}

impl View for SetStoreInfo {
    type V = SetStoreInfoView;

    open spec fn view(&self) -> SetStoreInfoView {
        SetStoreInfoView { row_id: self.row_id, info: self.info@ }
    }
}

/// The most general message of the stream.
#[must_use]
#[derive(Clone, Debug, PartialEq)]
pub enum LogMsg {
    /// A new recording has begun; usually the first message of a
    /// sub-stream.
    SetStoreInfo(SetStoreInfo),
    /// An encoded record batch logged to the given store.
    ArrowMsg(StoreId, ArrowMsg),
    /// Sent after all messages of a blueprint, so a viewer never activates
    /// a blueprint it has received only half of.
    BlueprintActivationCommand(BlueprintActivationCommand),
}

/// Mathematical image of a [`LogMsg`].
#[verifier::ext_equal]
pub enum LogMsgView {
    SetStoreInfo(SetStoreInfoView),
    ArrowMsg(StoreIdView, ArrowMsgView),
    BlueprintActivationCommand(BlueprintActivationCommandView),
}

impl View for LogMsg {
    type V = LogMsgView;

    open spec fn view(&self) -> LogMsgView {
        match self {
            LogMsg::SetStoreInfo(s) => LogMsgView::SetStoreInfo(s@),
            LogMsg::ArrowMsg(id, a) => LogMsgView::ArrowMsg(id@, a@),
            LogMsg::BlueprintActivationCommand(c) => LogMsgView::BlueprintActivationCommand(c@),
        }
    }
}

/// The store a message belongs to.
pub open spec fn spec_store_id_of(m: LogMsgView) -> StoreIdView {
    match m {
        LogMsgView::SetStoreInfo(s) => s.info.store_id,
        LogMsgView::ArrowMsg(id, _) => id,
        LogMsgView::BlueprintActivationCommand(c) => c.blueprint_id,
    }
}

/// The same message, rehomed to the given store.
pub open spec fn spec_with_store_id(m: LogMsgView, id: StoreIdView) -> LogMsgView {
    match m {
        LogMsgView::SetStoreInfo(s) => LogMsgView::SetStoreInfo(
            SetStoreInfoView { info: StoreInfoView { store_id: id, ..s.info }, ..s },
        ),
        LogMsgView::ArrowMsg(_, a) => LogMsgView::ArrowMsg(id, a),
        LogMsgView::BlueprintActivationCommand(c) => LogMsgView::BlueprintActivationCommand(
            BlueprintActivationCommandView { blueprint_id: id, ..c },
        ),
    }
}

impl LogMsg {
    pub fn store_id(&self) -> (r: &StoreId)
        ensures
            r@ == spec_store_id_of(self@),
    {
        match self {
            LogMsg::SetStoreInfo(msg) => &msg.info.store_id,
            LogMsg::ArrowMsg(store_id, _) => store_id,
            LogMsg::BlueprintActivationCommand(cmd) => &cmd.blueprint_id,
        }
    }

    /// For a record-batch message, a mutable handle on the encoded batch
    /// bytes; `None` for every other message.
    pub fn arrow_record_batch_mut(&mut self) -> (r: Option<&mut Vec<u8>>)
        ensures
            match r {
                Some(batch) => {
                    &&& old(self)@ matches LogMsgView::ArrowMsg(id, a) && batch@ == a.batch
                        && final(self)@ == LogMsgView::ArrowMsg(
                        id,
                        ArrowMsgView { batch: final(batch)@, ..a },
                    )
                },
                None => !(old(self)@ is ArrowMsg) && *final(self) == *old(self),
            },
    {
        match self {
            LogMsg::ArrowMsg(_, arrow_msg) => Some(&mut arrow_msg.batch),
            _ => None,
        }
    }

    pub fn set_store_id(&mut self, new_store_id: StoreId)
        ensures
            final(self)@ == spec_with_store_id(old(self)@, new_store_id@),
    {
        match self {
            LogMsg::SetStoreInfo(store_info) => {
                store_info.info.store_id = new_store_id;
            }
            LogMsg::ArrowMsg(store_id, _) => {
                *store_id = new_store_id;
            }
            LogMsg::BlueprintActivationCommand(cmd) => {
                cmd.blueprint_id = new_store_id;
            }
        }
    }
}

/// A table in transit: its id plus its encoded record batch. As in
/// [`ArrowMsg`], the batch bytes stay opaque to this crate.
#[must_use]
#[derive(Clone, Debug, PartialEq, Eq)]
pub struct TableMsg {
    /// The id of the table.
    pub id: TableId,
    /// The table, as an encoded record batch.
    pub data: Vec<u8>,
}

/// Mathematical image of a [`TableMsg`].
#[verifier::ext_equal]
pub struct TableMsgView {
    pub id: Seq<char>,
    pub data: Seq<u8>,
}

impl View for TableMsg {
    type V = TableMsgView;

    open spec fn view(&self) -> TableMsgView {
        TableMsgView { id: self.id@, data: self.data@ }
    }
}

} // verus!

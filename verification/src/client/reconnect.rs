//! Restoring a read-only file after its connection was lost.

use crate::auth::ntlm::NtlmCredentials;
use crate::auth::secret::SecretText;
use crate::bytes::copy_16;
use crate::client::durable_open::DurableFileHandle;
use crate::client::durable_open::DurableView;
use crate::client::error::ClientError;
use crate::client::file::FileHandle;
use crate::client::file::FileView;
use crate::client::negotiate::NegotiateConfig;
use crate::crypto::random_bytes;
use crate::text::append_text;
use crate::text::copy_text;
use crate::text::text_begins_with;
use vstd::prelude::*;

verus! {

pub const STATUS_OBJECT_NAME_NOT_FOUND: u32 = 0xC000_0034;

pub const STATUS_NETWORK_NAME_DELETED: u32 = 0xC000_00C9;

pub const STATUS_USER_SESSION_DELETED: u32 = 0xC000_0203;

pub const STATUS_NETWORK_SESSION_EXPIRED: u32 = 0xC000_035C;

/// By what a file is known again.
#[derive(Debug, Clone, Copy, PartialEq, Eq, Structural)]
pub struct FileIdentity {
    pub len: u64,
    pub creation_time: u64,
    pub last_write_time: u64,
}

/// Whether two times may be the same. Zero stands for a time that is not known.
pub open spec fn same_time(original: u64, reopened: u64) -> bool {
    original == 0 || reopened == 0 || original == reopened
}

/// The identity of an open file.
pub open spec fn identity_of(file: FileView) -> FileIdentity {
    FileIdentity {
        len: file.end_of_file,
        creation_time: file.creation_time,
        last_write_time: file.last_write_time,
    }
}

/// Whether two times may be the same. Zero stands for a time that is not known.
pub fn timestamp_matches(original: u64, reopened: u64) -> (r: bool)
    ensures
        r == same_time(original, reopened),
{
    original == 0 || reopened == 0 || original == reopened
}

impl FileIdentity {
    /// Whether a file with one identity may be the file with the other.
    pub open spec fn compatible(self, reopened: FileIdentity) -> bool {
        &&& self.len == reopened.len
        &&& same_time(self.creation_time, reopened.creation_time)
        &&& same_time(self.last_write_time, reopened.last_write_time)
    }

    /// The identity of an open file.
    pub fn from_file(file: &FileHandle) -> (r: Self)
        ensures
            r == identity_of(file@),
    {
        FileIdentity {
            len: file.len(),
            creation_time: file.creation_time(),
            last_write_time: file.last_write_time(),
        }
    }

    /// Whether a reopened file may be the same.
    pub fn is_compatible_with(self, reopened: Self) -> (r: bool)
        ensures
            r == self.compatible(reopened),
    {
        self.len == reopened.len && timestamp_matches(self.creation_time, reopened.creation_time)
            && timestamp_matches(self.last_write_time, reopened.last_write_time)
    }
}

/// Why a reopened file is not accepted, if it is not.
pub open spec fn identity_error(original: FileIdentity, reopened: FileIdentity) -> Option<
    ClientError,
> {
    if original.compatible(reopened) {
        None
    } else {
        Some(ClientError::Protocol("SMB file changed while reconnecting by path"))
    }
}

/// Checks that a reopened file may be the same.
pub fn validate_file_identity(original: FileIdentity, reopened: FileIdentity) -> (r: Result<
    (),
    ClientError,
>)
    ensures
        match identity_error(original, reopened) {
            Some(e) => r == Err::<(), ClientError>(e),
            None => r is Ok,
        },
{
    if original.is_compatible_with(reopened) {
        Ok(())
    } else {
        Err(ClientError::Protocol("SMB file changed while reconnecting by path"))
    }
}

/// A file is always accepted as itself, and where the metadata are all known, another length or
/// another time is always rejected.
pub proof fn law_identity_tells_files_apart(original: FileIdentity, reopened: FileIdentity)
    ensures
        original.compatible(original),
        original.compatible(reopened) == reopened.compatible(original),
        original.creation_time != 0 && original.last_write_time != 0 && reopened.creation_time != 0
            && reopened.last_write_time != 0 ==> (original.compatible(reopened) <==> original
            == reopened),
        original.len != reopened.len ==> !original.compatible(reopened),
{
}

/// Why a reconnect failed.
#[derive(Debug)]
pub enum ReconnectError {
    Client(ClientError),
    Cancelled,
    RandomSource,
}

impl From<ClientError> for ReconnectError {
    fn from(value: ClientError) -> (r: Self) {
        ReconnectError::Client(value)
    }
}

impl vstd::std_specs::convert::FromSpecImpl<ClientError> for ReconnectError {
    open spec fn obeys_from_spec() -> bool {
        true
    }

    open spec fn from_spec(value: ClientError) -> Self {
        ReconnectError::Client(value)
    }
}

impl ReconnectError {
    /// The text that describes an error. What an I/O error says of itself is left open.
    pub open spec fn has_message(self, text: Seq<char>) -> bool {
        match self {
            ReconnectError::Client(e) => {
                &&& text_begins_with(text, "SMB reconnect client error: "@)
                &&& e.has_message(text.skip("SMB reconnect client error: "@.len() as int))
            },
            ReconnectError::Cancelled => text == "SMB reconnect cancelled"@,
            ReconnectError::RandomSource => text
                == "failed to obtain secure random bytes for reconnect"@,
        }
    }

    /// Describes the error.
    pub fn to_text(&self) -> (r: String)
        ensures
            self.has_message(r@),
    {
        match self {
            ReconnectError::Client(error) => {
                let mut out = copy_text("SMB reconnect client error: ");
                let detail = error.to_text();
                append_text(&mut out, detail.as_str());
                proof {
                    let n = "SMB reconnect client error: "@.len() as int;
                    assert(out@.take(n) =~= "SMB reconnect client error: "@);
                    assert(out@.skip(n) =~= detail@);
                }
                out
            },
            ReconnectError::Cancelled => copy_text("SMB reconnect cancelled"),
            ReconnectError::RandomSource => copy_text(
                "failed to obtain secure random bytes for reconnect",
            ),
        }
    }
}

/// Whether an error says that the connection or the session is gone, and nothing else.
pub open spec fn retryable(error: ClientError) -> bool {
    match error {
        ClientError::Io(_) => true,
        ClientError::Timeout(_) => true,
        ClientError::ServerStatus(status) => status == STATUS_NETWORK_NAME_DELETED || status
            == STATUS_USER_SESSION_DELETED || status == STATUS_NETWORK_SESSION_EXPIRED,
        _ => false,
    }
}

/// Whether an error says that the connection or the session is gone, and nothing else.
pub fn is_retryable_client_error(error: &ClientError) -> (r: bool)
    ensures
        r == retryable(*error),
{
    match error {
        ClientError::Io(_) => true,
        ClientError::Timeout(_) => true,
        ClientError::ServerStatus(status) => {
            let status: u32 = *status;
            status == STATUS_NETWORK_NAME_DELETED || status == STATUS_USER_SESSION_DELETED || status
                == STATUS_NETWORK_SESSION_EXPIRED
        },
        ClientError::Wire(_) => false,
        ClientError::Auth(_) => false,
        ClientError::Cancelled => false,
        ClientError::Capability(_) => false,
        ClientError::Protocol(_) => false,
    }
}

/// What is remembered of durable opens.
pub struct DurableRecoveryState {
    pub handle: Option<DurableFileHandle>,
    pub unavailable: bool,
}

/// Reusable recipe for restoring a read-only SMB file after a transport/session failure.
///
/// Path reopen is always guarded by the first CREATE metadata so a different file at the same path
/// is never silently accepted. Durable Handle V2 can be explicitly enabled for consumers that can
/// also service the BATCH-oplock lifecycle; when enabled, DH2C is attempted before path reopen.
pub struct ReadOnlyReconnectRecipe {
    pub host: String,
    pub port: u16,
    pub share: String,
    pub path: String,
    pub username: String,
    pub password: SecretText,
    pub domain: String,
    pub workstation: String,
    pub identity: Option<FileIdentity>,
    pub client_guid: Option<[u8; 16]>,
    pub durable_v2_enabled: bool,
    pub durable: DurableRecoveryState,
}

/// What a recipe is.
pub struct RecipeView {
    pub host: Seq<char>,
    pub port: u16,
    pub share: Seq<char>,
    pub path: Seq<char>,
    pub username: Seq<char>,
    pub password: Seq<char>,
    pub domain: Seq<char>,
    pub workstation: Seq<char>,
    pub identity: Option<FileIdentity>,
    pub client_guid: Option<[u8; 16]>,
    pub durable_v2_enabled: bool,
    pub durable: Option<DurableView>,
    pub unavailable: bool,
}

/// A recipe that has restored nothing yet.
pub open spec fn fresh_recipe(
    host: Seq<char>,
    port: u16,
    share: Seq<char>,
    path: Seq<char>,
    username: Seq<char>,
    password: Seq<char>,
    domain: Seq<char>,
    workstation: Seq<char>,
) -> RecipeView {
    RecipeView {
        host,
        port,
        share,
        path,
        username,
        password,
        domain,
        workstation,
        identity: None,
        client_guid: None,
        durable_v2_enabled: false,
        durable: None,
        unavailable: false,
    }
}

/// What a remembered durable open is.
pub open spec fn durable_view(handle: Option<DurableFileHandle>) -> Option<DurableView> {
    match handle {
        Some(handle) => Some(handle@),
        None => None,
    }
}

impl View for ReadOnlyReconnectRecipe {
    type V = RecipeView;

    open spec fn view(&self) -> RecipeView {
        RecipeView {
            host: self.host@,
            port: self.port,
            share: self.share@,
            path: self.path@,
            username: self.username@,
            password: self.password@,
            domain: self.domain@,
            workstation: self.workstation@,
            identity: self.identity,
            client_guid: self.client_guid,
            durable_v2_enabled: self.durable_v2_enabled,
            durable: durable_view(self.durable.handle),
            unavailable: self.durable.unavailable,
        }
    }
}

impl RecipeView {
    /// Why an open file is not accepted, if it is not.
    pub open spec fn file_error(self, file: FileView) -> Option<ClientError> {
        match self.identity {
            Some(original) => identity_error(original, identity_of(file)),
            None => None,
        }
    }

    /// The recipe after an open file was looked at: the first one gives its identity.
    pub open spec fn remembering(self, file: FileView) -> RecipeView {
        RecipeView {
            identity: match self.identity {
                Some(original) => Some(original),
                None => Some(identity_of(file)),
            },
            ..self
        }
    }

    /// How the file is opened when the tree is connected.
    pub open spec fn first_restore(self) -> RestoreKind {
        if self.durable_v2_enabled && self.durable is Some {
            RestoreKind::ReconnectDurable
        } else {
            self.open_restore()
        }
    }

    /// How the file is opened where there is no durable open to go back to.
    pub open spec fn open_restore(self) -> RestoreKind {
        if self.durable_v2_enabled && !self.unavailable {
            RestoreKind::OpenDurable
        } else {
            RestoreKind::OpenPath
        }
    }
}

/// The three ways of restoring a file on a fresh tree.
#[derive(Debug, Clone, Copy, PartialEq, Eq, Structural)]
pub enum RestoreKind {
    /// Go back to the durable open.
    ReconnectDurable,
    /// Open the path and ask for a durable handle.
    OpenDurable,
    /// Open the path.
    OpenPath,
}

/// What to do next to restore a file.
#[derive(Debug)]
pub enum RestoreStep {
    /// Reconnect the durable open that the recipe remembers and hand the outcome back.
    ReconnectDurable,
    /// Open the path with a durable handle under this CreateGuid and hand the outcome back.
    OpenDurable([u8; 16]),
    /// Open the path and hand the outcome back.
    OpenPath,
    /// Close this file, whatever comes of it, and fail.
    CloseThenFail(FileHandle, ReconnectError),
    /// The file is restored.
    Done(FileHandle),
    Fail(ReconnectError),
}

/// The stages of a fresh connection before the file is restored on it.
#[derive(Debug, Clone, Copy, PartialEq, Eq, Structural)]
pub enum ConnectStage {
    /// The transport is opened.
    Transport,
    /// The dialect is negotiated.
    Negotiate,
    /// The session is set up.
    Session,
    /// The tree is connected.
    Tree,
}

/// What to do next to connect.
pub enum ConnectStep {
    /// Negotiate and hand the outcome back.
    Negotiate,
    /// Set a session up by these credentials, or anonymously, and hand the outcome back.
    SetUpSession(Option<NtlmCredentials>),
    /// Connect this tree and hand the outcome back.
    ConnectTree(String),
    /// Restore the file.
    Restore(RestoreStep),
    Fail(ReconnectError),
}

/// Whether credentials are those of a recipe: none for an anonymous session.
pub open spec fn credentials_of(recipe: RecipeView, credentials: Option<NtlmCredentials>) -> bool {
    if recipe.username.len() == 0 {
        credentials is None
    } else {
        &&& credentials is Some
        &&& credentials->0.username@ == recipe.username
        &&& credentials->0.password@ == recipe.password
        &&& credentials->0.domain@ == recipe.domain
        &&& credentials->0.workstation@ == recipe.workstation
    }
}

/// Whether a step is what the outcome of a stage calls for: the stages follow one another, and the
/// first failure ends the connecting.
pub open spec fn stage_settled(
    step: ConnectStep,
    recipe: RecipeView,
    stage: ConnectStage,
    outcome: Result<(), ClientError>,
    drawn: Option<[u8; 16]>,
) -> bool {
    match outcome {
        Err(e) => step == ConnectStep::Fail(ReconnectError::Client(e)),
        Ok(()) => match stage {
            ConnectStage::Transport => step == ConnectStep::Negotiate,
            ConnectStage::Negotiate => step is SetUpSession && credentials_of(
                recipe,
                step->SetUpSession_0,
            ),
            ConnectStage::Session => step is ConnectTree && step->ConnectTree_0@ == unc_of(
                recipe.host,
                recipe.share,
            ),
            ConnectStage::Tree => step is Restore && goes_on(
                step->Restore_0,
                recipe.first_restore(),
                drawn,
            ),
        },
    }
}

/// Whether a step goes on in a given way. Where a CreateGuid is needed and none can be drawn, the
/// restoring fails.
pub open spec fn goes_on(step: RestoreStep, kind: RestoreKind, drawn: Option<[u8; 16]>) -> bool {
    match kind {
        RestoreKind::ReconnectDurable => step == RestoreStep::ReconnectDurable,
        RestoreKind::OpenPath => step == RestoreStep::OpenPath,
        RestoreKind::OpenDurable => match drawn {
            Some(guid) => step == RestoreStep::OpenDurable(guid),
            None => step == RestoreStep::Fail(ReconnectError::RandomSource),
        },
    }
}

/// Whether a step is what the outcome of a durable reconnect calls for. Only a durable open that
/// the server has lost, or a capability that it lacks, is answered with another open.
pub open spec fn reconnect_settled(
    step: RestoreStep,
    recipe: RecipeView,
    after: RecipeView,
    outcome: Result<DurableFileHandle, ClientError>,
    drawn: Option<[u8; 16]>,
) -> bool {
    match outcome {
        Ok(refreshed) => match recipe.file_error(refreshed.file@) {
            Some(e) => step is CloseThenFail && step->CloseThenFail_0 == refreshed.file
                && step->CloseThenFail_1 == ReconnectError::Client(e) && after == (RecipeView {
                durable: None,
                ..recipe
            }),
            None => step is Done && step->Done_0@ == refreshed.file@ && after == (RecipeView {
                durable: Some(refreshed@),
                ..recipe.remembering(refreshed.file@)
            }),
        },
        Err(ClientError::ServerStatus(status)) => if status == STATUS_OBJECT_NAME_NOT_FOUND {
            let next = RecipeView { durable: None, ..recipe };
            after == next && goes_on(step, next.open_restore(), drawn)
        } else {
            after == recipe && step == RestoreStep::Fail(
                ReconnectError::Client(ClientError::ServerStatus(status)),
            )
        },
        Err(ClientError::Capability(_)) => after == (RecipeView {
            durable: None,
            unavailable: true,
            ..recipe
        }) && step == RestoreStep::OpenPath,
        Err(e) => after == recipe && step == RestoreStep::Fail(ReconnectError::Client(e)),
    }
}

/// Whether a step is what the outcome of a durable open calls for.
pub open spec fn durable_open_settled(
    step: RestoreStep,
    recipe: RecipeView,
    after: RecipeView,
    outcome: Result<DurableFileHandle, ClientError>,
) -> bool {
    match outcome {
        Ok(opened) => match recipe.file_error(opened.file@) {
            Some(e) => step is CloseThenFail && step->CloseThenFail_0 == opened.file
                && step->CloseThenFail_1 == ReconnectError::Client(e) && after == recipe,
            None => step is Done && step->Done_0@ == opened.file@ && after == (RecipeView {
                durable: Some(opened@),
                ..recipe.remembering(opened.file@)
            }),
        },
        Err(ClientError::Capability(_)) => after == (RecipeView { unavailable: true, ..recipe })
            && step == RestoreStep::OpenPath,
        Err(e) => after == recipe && step == RestoreStep::Fail(ReconnectError::Client(e)),
    }
}

/// Whether a step is what the outcome of opening the path calls for.
pub open spec fn path_open_settled(
    step: RestoreStep,
    recipe: RecipeView,
    after: RecipeView,
    outcome: Result<FileHandle, ClientError>,
) -> bool {
    match outcome {
        Ok(file) => match recipe.file_error(file@) {
            Some(e) => step == RestoreStep::Fail(ReconnectError::Client(e)) && after == recipe,
            None => step == RestoreStep::Done(file) && after == recipe.remembering(file@),
        },
        Err(e) => step == RestoreStep::Fail(ReconnectError::Client(e)) && after == recipe,
    }
}

/// The share of a host as a tree connect names it.
pub open spec fn unc_of(host: Seq<char>, share: Seq<char>) -> Seq<char> {
    "\\\\"@ + host + "\\"@ + share
}

/// The share of a host as a tree connect names it.
pub fn unc_share(host: &str, share: &str) -> (r: String)
    ensures
        r@ == unc_of(host@, share@),
{
    let mut out = copy_text("\\\\");
    append_text(&mut out, host);
    append_text(&mut out, "\\");
    append_text(&mut out, share);
    out
}

/// Draws a random GUID. What the random source gives decides: `drawn_guid` says what becomes of it.
pub fn random_guid() -> (r: Result<[u8; 16], ReconnectError>)
    ensures
        r is Err ==> r == Err::<[u8; 16], _>(ReconnectError::RandomSource),
{
    drawn_guid(random_bytes(16))
}

/// The GUID that bytes of the random source make, or the failure where it gave none.
pub fn drawn_guid(drawn: Option<Vec<u8>>) -> (r: Result<[u8; 16], ReconnectError>)
    requires
        drawn is Some ==> drawn->0@.len() == 16,
    ensures
        match drawn {
            Some(bytes) => r is Ok && r->Ok_0@ == bytes@,
            None => r == Err::<[u8; 16], _>(ReconnectError::RandomSource),
        },
{
    match drawn {
        Some(bytes) => {
            assert(bytes@.subrange(0, 16) =~= bytes@);
            Ok(copy_16(&bytes, 0))
        },
        None => Err(ReconnectError::RandomSource),
    }
}

impl ReadOnlyReconnectRecipe {
    /// A recipe that has restored nothing yet.
    pub fn new(
        host: String,
        port: u16,
        share: String,
        path: String,
        username: String,
        password: String,
        domain: String,
        workstation: String,
    ) -> (r: Self)
        ensures
            r@ == fresh_recipe(
                host@,
                port,
                share@,
                path@,
                username@,
                password@,
                domain@,
                workstation@,
            ),
    {
        ReadOnlyReconnectRecipe {
            host,
            port,
            share,
            path,
            username,
            password: SecretText::new(password),
            domain,
            workstation,
            identity: None,
            client_guid: None,
            durable_v2_enabled: false,
            durable: DurableRecoveryState { handle: None, unavailable: false },
        }
    }

    /// Explicitly opts this logical read-only open into Durable Handle V2 recovery.
    ///
    /// This remains opt-in until the shared request broker can service unsolicited oplock breaks.
    pub fn with_durable_v2(self, enabled: bool) -> (r: Self)
        ensures
            r@ == (RecipeView { durable_v2_enabled: enabled, ..self@ }),
    {
        let mut out = self;
        out.durable_v2_enabled = enabled;
        out
    }

    pub fn durable_v2_enabled(&self) -> (r: bool)
        ensures
            r == self@.durable_v2_enabled,
    {
        self.durable_v2_enabled
    }

    /// The client GUID of the recipe: the first one that was drawn.
    pub fn keep_client_guid(&mut self, drawn: Option<[u8; 16]>) -> (r: Result<
        [u8; 16],
        ReconnectError,
    >)
        ensures
            match old(self)@.client_guid {
                Some(guid) => r == Ok::<_, ReconnectError>(guid) && final(self)@ == old(self)@,
                None => match drawn {
                    Some(guid) => r == Ok::<_, ReconnectError>(guid) && final(self)@ == (
                    RecipeView { client_guid: Some(guid), ..old(self)@ }),
                    None => r == Err::<[u8; 16], _>(ReconnectError::RandomSource)
                        && final(self)@ == old(self)@,
                },
            },
    {
        match self.client_guid {
            Some(guid) => Ok(guid),
            None => match drawn {
                Some(guid) => {
                    self.client_guid = Some(guid);
                    Ok(guid)
                },
                None => Err(ReconnectError::RandomSource),
            },
        }
    }

    /// The client GUID of the recipe, drawn when it is first needed.
    pub fn client_guid(&mut self) -> (r: Result<[u8; 16], ReconnectError>)
        ensures
            old(self)@.client_guid is Some ==> r == Ok::<[u8; 16], ReconnectError>(
                old(self)@.client_guid->0,
            ) && final(self)@ == old(self)@,
            r is Ok ==> final(self)@ == (RecipeView { client_guid: Some(r->Ok_0), ..old(self)@ }),
            r is Err ==> r == Err::<[u8; 16], _>(ReconnectError::RandomSource) && final(self)@
                == old(self)@,
    {
        match self.client_guid {
            Some(guid) => Ok(guid),
            None => {
                let guid = random_guid()?;
                self.keep_client_guid(Some(guid))
            },
        }
    }

    /// What a fresh connection of this recipe negotiates: the recipe's client GUID and a fresh salt.
    pub fn negotiate_config(&mut self) -> (r: Result<NegotiateConfig, ReconnectError>)
        ensures
            r is Ok ==> r->Ok_0.is_modern() && r->Ok_0.preauth_salt@.len() == 32 && final(self)@
                == (RecipeView { client_guid: Some(r->Ok_0.client_guid), ..old(self)@ }),
            old(self)@.client_guid is Some ==> final(self)@ == old(self)@,
            r is Err ==> r == Err::<NegotiateConfig, _>(ReconnectError::RandomSource),
            final(self)@ == (RecipeView { client_guid: final(self)@.client_guid, ..old(self)@ }),
    {
        let client_guid = self.client_guid()?;
        match random_bytes(32) {
            Some(salt) => Ok(NegotiateConfig::modern(client_guid, salt)),
            None => Err(ReconnectError::RandomSource),
        }
    }

    /// By whom sessions of this recipe are set up: `None` for an anonymous session.
    pub fn credentials(&self) -> (r: Option<NtlmCredentials>)
        ensures
            credentials_of(self@, r),
    {
        if self.username.as_str().is_empty() {
            return None;
        }
        let mut credentials = NtlmCredentials::new(
            copy_text(self.username.as_str()),
            copy_text(self.password.expose()),
        );
        if !self.domain.as_str().is_empty() {
            credentials = credentials.with_domain(copy_text(self.domain.as_str()));
        } else {
            assert(credentials.domain@ =~= self.domain@);
        }
        if !self.workstation.as_str().is_empty() {
            credentials = credentials.with_workstation(copy_text(self.workstation.as_str()));
        } else {
            assert(credentials.workstation@ =~= self.workstation@);
        }
        Some(credentials)
    }

    /// The tree that the file is in.
    pub fn tree_path(&self) -> (r: String)
        ensures
            r@ == unc_of(self@.host, self@.share),
    {
        unc_share(self.host.as_str(), self.share.as_str())
    }

    /// Takes the identity of the first file, and holds later ones to it.
    pub fn remember_or_validate_file(&mut self, file: &FileHandle) -> (r: Result<(), ClientError>)
        ensures
            match old(self)@.file_error(file@) {
                Some(e) => r == Err::<(), ClientError>(e) && final(self)@ == old(self)@,
                None => r is Ok && final(self)@ == old(self)@.remembering(file@),
            },
            final(self).durable == old(self).durable,
    {
        let reopened = FileIdentity::from_file(file);
        match self.identity {
            Some(original) => validate_file_identity(original, reopened),
            None => {
                self.identity = Some(reopened);
                Ok(())
            },
        }
    }

    /// The next step where there is no durable open to go back to. `drawn` is a random GUID, where
    /// one could be drawn.
    fn open_step(&self, drawn: Option<[u8; 16]>) -> (r: RestoreStep)
        ensures
            goes_on(r, self@.open_restore(), drawn),
    {
        if self.durable_v2_enabled && !self.durable.unavailable {
            match drawn {
                Some(guid) => RestoreStep::OpenDurable(guid),
                None => RestoreStep::Fail(ReconnectError::RandomSource),
            }
        } else {
            RestoreStep::OpenPath
        }
    }

    /// How the file is restored on a fresh tree. `drawn` is a random GUID, where one could be drawn.
    pub fn first_step(&self, drawn: Option<[u8; 16]>) -> (r: RestoreStep)
        ensures
            goes_on(r, self@.first_restore(), drawn),
    {
        if self.durable_v2_enabled && self.durable.handle.is_some() {
            RestoreStep::ReconnectDurable
        } else {
            self.open_step(drawn)
        }
    }

    /// Takes the outcome of a stage. `drawn` is a random GUID, where one could be drawn.
    pub fn on_stage(
        &self,
        stage: ConnectStage,
        outcome: Result<(), ClientError>,
        drawn: Option<[u8; 16]>,
    ) -> (r: ConnectStep)
        ensures
            stage_settled(r, self@, stage, outcome, drawn),
    {
        match outcome {
            Err(error) => ConnectStep::Fail(ReconnectError::Client(error)),
            Ok(()) => match stage {
                ConnectStage::Transport => ConnectStep::Negotiate,
                ConnectStage::Negotiate => ConnectStep::SetUpSession(self.credentials()),
                ConnectStage::Session => ConnectStep::ConnectTree(self.tree_path()),
                ConnectStage::Tree => ConnectStep::Restore(self.first_step(drawn)),
            },
        }
    }

    /// The durable open that the recipe remembers.
    pub fn durable_handle(&self) -> (r: Option<&DurableFileHandle>)
        ensures
            r is Some <==> self@.durable is Some,
            r is Some ==> r->0@ == self@.durable->0,
    {
        match &self.durable.handle {
            Some(handle) => Some(handle),
            None => None,
        }
    }

    /// Takes the outcome of a durable reconnect. `drawn` is a random GUID, where one could be drawn.
    pub fn on_durable_reconnect(
        &mut self,
        outcome: Result<DurableFileHandle, ClientError>,
        drawn: Option<[u8; 16]>,
    ) -> (r: RestoreStep)
        ensures
            reconnect_settled(r, old(self)@, final(self)@, outcome, drawn),
    {
        match outcome {
            Ok(refreshed) => {
                let file = refreshed.file().clone();
                match self.remember_or_validate_file(&file) {
                    Err(error) => {
                        self.durable.handle = None;
                        RestoreStep::CloseThenFail(
                            refreshed.into_file(),
                            ReconnectError::Client(error),
                        )
                    },
                    Ok(()) => {
                        self.durable.handle = Some(refreshed);
                        RestoreStep::Done(file)
                    },
                }
            },
            Err(ClientError::ServerStatus(status)) => {
                if status == STATUS_OBJECT_NAME_NOT_FOUND {
                    // The server no longer has this durable open, for example after it was
                    // restarted. A new one is safe, still guarded by the identity.
                    self.durable.handle = None;
                    self.open_step(drawn)
                } else {
                    RestoreStep::Fail(ReconnectError::Client(ClientError::ServerStatus(status)))
                }
            },
            Err(ClientError::Capability(_)) => {
                self.durable.handle = None;
                self.durable.unavailable = true;
                RestoreStep::OpenPath
            },
            Err(error) => RestoreStep::Fail(ReconnectError::Client(error)),
        }
    }

    /// Takes the outcome of a durable open.
    pub fn on_durable_open(&mut self, outcome: Result<DurableFileHandle, ClientError>) -> (r:
        RestoreStep)
        ensures
            durable_open_settled(r, old(self)@, final(self)@, outcome),
    {
        match outcome {
            Ok(opened) => {
                let file = opened.file().clone();
                match self.remember_or_validate_file(&file) {
                    Err(error) => RestoreStep::CloseThenFail(
                        opened.into_file(),
                        ReconnectError::Client(error),
                    ),
                    Ok(()) => {
                        self.durable.handle = Some(opened);
                        RestoreStep::Done(file)
                    },
                }
            },
            Err(ClientError::Capability(_)) => {
                self.durable.unavailable = true;
                RestoreStep::OpenPath
            },
            Err(error) => RestoreStep::Fail(ReconnectError::Client(error)),
        }
    }

    /// Takes the outcome of opening the path.
    pub fn on_path_open(&mut self, outcome: Result<FileHandle, ClientError>) -> (r: RestoreStep)
        ensures
            path_open_settled(r, old(self)@, final(self)@, outcome),
    {
        match outcome {
            Ok(file) => match self.remember_or_validate_file(&file) {
                Err(error) => RestoreStep::Fail(ReconnectError::Client(error)),
                Ok(()) => RestoreStep::Done(file),
            },
            Err(error) => RestoreStep::Fail(ReconnectError::Client(error)),
        }
    }
}

/// Whichever way a file is restored, it may be the file that was opened first, and what the first
/// one was is never forgotten or replaced.
pub proof fn law_restored_file_is_the_first_one(
    step: RestoreStep,
    recipe: RecipeView,
    after: RecipeView,
    durable: Result<DurableFileHandle, ClientError>,
    path: Result<FileHandle, ClientError>,
    drawn: Option<[u8; 16]>,
)
    requires
        reconnect_settled(step, recipe, after, durable, drawn) || durable_open_settled(
            step,
            recipe,
            after,
            durable,
        ) || path_open_settled(step, recipe, after, path),
    ensures
        step is Done ==> after.identity is Some && after.identity->0.compatible(
            identity_of(step->Done_0@),
        ),
        recipe.identity is Some ==> after.identity == recipe.identity,
{
}

/// A failure other than a durable open that the server has lost, or a capability that it lacks, is
/// never followed by an open of the path: it ends the restoring with that failure.
pub proof fn law_failures_do_not_fall_back(
    step: RestoreStep,
    recipe: RecipeView,
    after: RecipeView,
    error: ClientError,
    drawn: Option<[u8; 16]>,
)
    requires
        reconnect_settled(step, recipe, after, Err(error), drawn) || durable_open_settled(
            step,
            recipe,
            after,
            Err(error),
        ),
        !(error is Capability),
        error != ClientError::ServerStatus(STATUS_OBJECT_NAME_NOT_FOUND),
    ensures
        step == RestoreStep::Fail(ReconnectError::Client(error)),
        after == recipe,
{
}

} // verus!

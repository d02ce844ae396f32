//! What the skill tools know of the skills on offer, and the handles by which a
//! model names them.
use crate::decimal;
use crate::text;
use vstd::prelude::*;
use vstd::utf8::*;

verus! {

/// Where a skill comes from.
#[derive(Clone, Copy, Debug, PartialEq, Eq, Structural)]
pub enum SkillSourceKind {
    Host,
    Remote,
}

/// Who provides a skill.
#[derive(Clone, Debug, PartialEq, Eq)]
pub struct SkillAuthority {
    pub kind: SkillSourceKind,
    pub id: String,
}

/// The identifier of a skill's package.
#[derive(Clone, Debug, PartialEq, Eq)]
pub struct SkillPackageId(pub String);

/// The identifier of a resource inside a package.
#[derive(Clone, Debug, PartialEq, Eq)]
pub struct SkillResourceId {
    pub value: String,
}

/// One skill of a catalog.
#[derive(Clone, Debug, PartialEq, Eq)]
pub struct SkillCatalogEntry {
    pub id: SkillPackageId,
    pub authority: SkillAuthority,
    pub name: String,
    pub description: String,
    pub main_prompt: SkillResourceId,
    pub enabled: bool,
}

/// The skills known in a turn, and what went wrong while they were collected.
#[derive(Clone, Debug, PartialEq, Eq)]
pub struct SkillCatalog {
    pub entries: Vec<SkillCatalogEntry>,
    pub warnings: Vec<String>,
}

/// What a provider returns for a read.
#[derive(Clone, Debug, PartialEq, Eq)]
pub struct SkillReadResult {
    pub resource: SkillResourceId,
    pub contents: String,
}

/// The authority of a skill as a model sees it.
#[derive(Clone, Debug, PartialEq, Eq)]
pub struct SkillAuthorityHandle {
    pub kind: String,
    pub id: String,
}

/// How a tool call fails: with an answer for the model, or for good.
#[derive(Clone, Debug, PartialEq, Eq)]
pub enum FunctionCallError {
    RespondToModel(String),
    Fatal(String),
}

/// The byte limits that the tools work under.
#[derive(Clone, Copy, Debug, PartialEq, Eq, Structural)]
pub struct ToolLimits {
    /// The longest handle that is passed on.
    pub handle_bytes: usize,
    /// The longest name that is listed in full.
    pub skill_name_bytes: usize,
    /// The longest output of one call.
    pub output_bytes: usize,
}

/// The mathematical value of an authority.
pub struct AuthorityView {
    pub kind: SkillSourceKind,
    pub id: Seq<char>,
}

/// The mathematical value of an authority handle.
pub struct HandleView {
    pub kind: Seq<char>,
    pub id: Seq<char>,
}

/// The mathematical value of a catalog entry.
pub struct EntryView {
    pub id: Seq<char>,
    pub authority: AuthorityView,
    pub name: Seq<char>,
    pub description: Seq<char>,
    pub main_prompt: Seq<char>,
    pub enabled: bool,
}

/// The mathematical value of a failed call.
pub enum CallErrorView {
    RespondToModel(Seq<char>),
    Fatal(Seq<char>),
}

impl View for SkillAuthority {
    type V = AuthorityView;

    open spec fn view(&self) -> AuthorityView {
        AuthorityView { kind: self.kind, id: self.id@ }
    }
}

impl View for SkillAuthorityHandle {
    type V = HandleView;

    open spec fn view(&self) -> HandleView {
        HandleView { kind: self.kind@, id: self.id@ }
    }
}

impl View for SkillPackageId {
    type V = Seq<char>;

    open spec fn view(&self) -> Seq<char> {
        self.0@
    }
}

impl View for SkillResourceId {
    type V = Seq<char>;

    open spec fn view(&self) -> Seq<char> {
        self.value@
    }
}

impl View for SkillCatalogEntry {
    type V = EntryView;

    open spec fn view(&self) -> EntryView {
        EntryView {
            id: self.id@,
            authority: self.authority@,
            name: self.name@,
            description: self.description@,
            main_prompt: self.main_prompt@,
            enabled: self.enabled,
        }
    }
}

impl View for FunctionCallError {
    type V = CallErrorView;

    open spec fn view(&self) -> CallErrorView {
        match *self {
            FunctionCallError::RespondToModel(m) => CallErrorView::RespondToModel(m@),
            FunctionCallError::Fatal(m) => CallErrorView::Fatal(m@),
        }
    }
}

/// The values of a sequence of entries.
pub open spec fn entry_views(entries: Seq<SkillCatalogEntry>) -> Seq<EntryView> {
    entries.map_values(|e: SkillCatalogEntry| e@)
}

/// The texts of a sequence of strings.
pub open spec fn texts(strings: Seq<String>) -> Seq<Seq<char>> {
    strings.map_values(|s: String| s@)
}

impl SkillResourceId {
    /// Takes a text as a resource identifier.
    pub fn new(value: String) -> (id: SkillResourceId)
        ensures
            id@ == value@,
    {
        SkillResourceId { value }
    }

    /// The text of the identifier.
    pub fn as_str(&self) -> (res: &str)
        ensures
            res@ == self@,
    {
        self.value.as_str()
    }
}

/// The handle under which an authority is shown: remote authorities have one,
/// the host's own have none.
pub open spec fn handle_of(authority: AuthorityView) -> Option<HandleView> {
    if authority.kind == SkillSourceKind::Remote {
        Some(HandleView { kind: "remote"@, id: authority.id })
    } else {
        None
    }
}

/// The authority that a handle names, if it names one.
pub open spec fn authority_of(handle: HandleView) -> Option<AuthorityView> {
    if handle.kind == "remote"@ {
        Some(AuthorityView { kind: SkillSourceKind::Remote, id: handle.id })
    } else {
        None
    }
}

/// Whether a handle text is within a byte limit.
pub open spec fn within(handle: Seq<char>, max_bytes: usize) -> bool {
    text::utf8_len(handle) <= max_bytes
}

/// What the model is told of a handle beyond the limit.
pub open spec fn too_long_message(field: Seq<char>, max_bytes: usize) -> Seq<char> {
    field + " must be at most "@ + decimal::decimal(max_bytes as nat) + " bytes"@
}

/// Whether a handle text is within a byte limit.
pub fn is_bounded_handle(value: &str, max_bytes: usize) -> (res: bool)
    ensures
        res == within(value@, max_bytes),
{
    text::byte_len(value) <= max_bytes
}

/// Refuses a handle text beyond a byte limit, naming the field it stood in.
pub fn validate_handle(field: &str, value: &str, max_bytes: usize) -> (res: Result<
    (),
    FunctionCallError,
>)
    ensures
        res is Ok <==> within(value@, max_bytes),
        res matches Err(e) ==> e@ == CallErrorView::RespondToModel(
            too_long_message(field@, max_bytes),
        ),
{
    if is_bounded_handle(value, max_bytes) {
        Ok(())
    } else {
        let mut message = field.to_owned();
        message.append(" must be at most ");
        decimal::push_decimal(&mut message, max_bytes);
        message.append(" bytes");
        Err(FunctionCallError::RespondToModel(message))
    }
}

impl SkillAuthorityHandle {
    /// The handle under which an authority is shown, if it is shown at all.
    pub fn from_authority(authority: &SkillAuthority) -> (handle: Option<SkillAuthorityHandle>)
        ensures
            (match handle {
                Some(h) => Some(h@),
                None => None,
            }) == handle_of(authority@),
    {
        match authority.kind {
            SkillSourceKind::Remote => Some(
                SkillAuthorityHandle { kind: "remote".to_owned(), id: authority.id.clone() },
            ),
            SkillSourceKind::Host => None,
        }
    }

    /// The authority that the handle names.
    pub fn into_authority(self) -> (res: Result<SkillAuthority, FunctionCallError>)
        ensures
            res is Ok <==> authority_of(self@) is Some,
            res matches Ok(a) ==> authority_of(self@) == Some(a@),
            res matches Err(e) ==> e@ == CallErrorView::RespondToModel(
                "unknown skill authority"@,
            ),
    {
        if text::same_text(self.kind.as_str(), "remote") {
            Ok(SkillAuthority { kind: SkillSourceKind::Remote, id: self.id })
        } else {
            Err(FunctionCallError::RespondToModel("unknown skill authority".to_owned()))
        }
    }

    /// Whether both parts of the handle are within a byte limit.
    pub fn is_bounded(&self, max_bytes: usize) -> (res: bool)
        ensures
            res == (within(self@.kind, max_bytes) && within(self@.id, max_bytes)),
    {
        is_bounded_handle(self.kind.as_str(), max_bytes) && is_bounded_handle(
            self.id.as_str(),
            max_bytes,
        )
    }
}

/// A handle that was shown names the authority it was shown for.
pub proof fn law_handle_round_trip(authority: AuthorityView)
    requires
        handle_of(authority) is Some,
    ensures
        authority_of(handle_of(authority).unwrap()) == Some(authority),
{
}

/// Exactly the remote authorities have a handle. It says `remote` and keeps their
/// identifier; no other handle names an authority.
pub proof fn law_handles_are_remote(authority: AuthorityView, handle: HandleView)
    ensures
        handle_of(authority) == if authority.kind == SkillSourceKind::Remote {
            Some(HandleView { kind: "remote"@, id: authority.id })
        } else {
            None
        },
        authority_of(handle) is Some <==> handle.kind == "remote"@,
        authority_of(handle) matches Some(named) ==> named.kind == SkillSourceKind::Remote
            && named.id == handle.id,
{
}

/// The value of an entry holds what the entry does, each in its own place.
pub proof fn law_entry_value(entry: SkillCatalogEntry)
    ensures
        entry@.id == entry.id.0@,
        entry@.authority.kind == entry.authority.kind,
        entry@.authority.id == entry.authority.id@,
        entry@.name == entry.name@,
        entry@.description == entry.description@,
        entry@.main_prompt == entry.main_prompt.value@,
        entry@.enabled == entry.enabled,
{
}

/// A handle is within a limit exactly where its UTF-8 encoding is.
pub proof fn law_handle_limit(handle: Seq<char>, max_bytes: usize)
    ensures
        within(handle, max_bytes) <==> encode_utf8(handle).len() <= max_bytes,
{
    text::lemma_utf8_len(handle);
}

/// What the model is told of a handle beyond the limit names the field and the limit.
pub proof fn law_too_long_message(field: Seq<char>, max_bytes: usize)
    ensures
        too_long_message(field, max_bytes) == field + " must be at most "@ + decimal::decimal(
            max_bytes as nat,
        ) + " bytes"@,
{
}

} // verus!

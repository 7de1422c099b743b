//! The non-stomping write of edits into a Secrets Manager Set.
//!
//! Each attempt reads the Set, merges the edits onto what it read, stages the
//! result as a new version under a label of its own, and then moves the current
//! label from the version it read to the one it staged. That move is a
//! compare-and-swap: when somebody else moved the label first, the staged version
//! is cleaned up and the write reads again. A key that this write edits and that
//! changed between two reads stops it; a change to any other key is kept, since
//! the edits are merged onto the fresh read. The attempts are bounded.
//!
//! A write is a sequence of turns. [`write_secret`] gives the first, and each turn says
//! which call it waits for and takes that call's reply.

use vstd::prelude::*;
use vstd::string::*;

use crate::auth::error::{SessionError, SessionErrorView};
use crate::aws::wire::{CasOutcome, ReadSecret, ReadSecretView};
use crate::model::config::MappingView;
use crate::model::provider::FetchFailReason;
use crate::model::write::{edit_views, EnvEdit, EnvEditView, EnvWriteError, WriteOutcome};
use crate::outside::json::{
    into_object, is_array, is_below_range_end, is_flat, is_object, json_fields, json_of, json_parsed,
    json_text, object_clone, object_get, object_insert, object_keys, object_remove, object_text,
    objects_equal, parse_json, same_but_fractions, same_object, same_scalar, string_value,
    value_clone, values_equal, Json,
};
use crate::outside::random::{is_uuid_text, random_uuid};
use crate::outside::secret::Plaintext;
use crate::text::{same, views};

verus! {

/// How many times a write reads before a race that does not end is a conflict.
pub const MAX_ATTEMPTS: u32 = 3;

/// A failed write.
#[derive(Debug, PartialEq, Eq)]
pub enum SecretWriteError {
    /// A call failed.
    Session(SessionError),
    /// The Set is not a flat JSON object.
    NotFlat,
    /// An edit cannot be applied.
    Edit(EnvWriteError),
}

/// A [`SecretWriteError`] as a mathematical value.
#[verifier::ext_equal]
pub enum SecretWriteErrorView {
    Session(SessionErrorView),
    NotFlat,
    Edit(EnvWriteError),
}

impl View for SecretWriteError {
    type V = SecretWriteErrorView;

    open spec fn view(&self) -> SecretWriteErrorView {
        match self {
            SecretWriteError::Session(e) => SecretWriteErrorView::Session(e@),
            SecretWriteError::NotFlat => SecretWriteErrorView::NotFlat,
            SecretWriteError::Edit(e) => SecretWriteErrorView::Edit(*e),
        }
    }
}

impl SecretWriteErrorView {
    /// The reason this failure is reported as.
    pub open spec fn reason(self) -> FetchFailReason {
        match self {
            SecretWriteErrorView::Session(e) => e.reason(),
            _ => FetchFailReason::Unsupported,
        }
    }

    /// The detail this failure is reported with.
    pub open spec fn detail(self) -> Seq<char> {
        match self {
            SecretWriteErrorView::Session(e) => e.message(),
            SecretWriteErrorView::NotFlat =>
                "secret is not a flat JSON object (cannot merge safely)"@,
            SecretWriteErrorView::Edit(EnvWriteError::InvalidKey) => "invalid key"@,
        }
    }
}

impl SecretWriteError {
    /// The masked classification.
    pub fn reason(&self) -> (result: FetchFailReason)
        ensures
            result == self@.reason(),
    {
        match self {
            SecretWriteError::Session(e) => FetchFailReason::from(e),
            SecretWriteError::NotFlat => FetchFailReason::Unsupported,
            SecretWriteError::Edit(_) => FetchFailReason::Unsupported,
        }
    }

    /// An error-safe detail.
    pub fn detail(&self) -> (result: String)
        ensures
            result@ == self@.detail(),
    {
        match self {
            SecretWriteError::Session(e) => e.to_string(),
            SecretWriteError::NotFlat =>
                "secret is not a flat JSON object (cannot merge safely)".to_owned(),
            SecretWriteError::Edit(EnvWriteError::InvalidKey) => "invalid key".to_owned(),
        }
    }

    /// Whether this is a dead-token failure.
    pub fn is_reauth(&self) -> (result: bool)
        ensures
            result == (self@ == SecretWriteErrorView::Session(SessionErrorView::ReauthRequired)),
    {
        match self {
            SecretWriteError::Session(SessionError::ReauthRequired) => true,
            _ => false,
        }
    }
}

// ---------------------------------------------------------------------------
// The merge
// ---------------------------------------------------------------------------

/// Every edit names a key.
pub open spec fn keys_valid(edits: Seq<EnvEditView>) -> bool {
    forall|i: int| 0 <= i < edits.len() ==> (#[trigger] edits[i]).key().len() > 0
}

/// Refuse edits that name no key.
pub fn validate_edits(edits: &Vec<EnvEdit>) -> (result: Result<(), EnvWriteError>)
    ensures
        result == (if keys_valid(edit_views(edits@)) {
            Ok::<(), EnvWriteError>(())
        } else {
            Err(EnvWriteError::InvalidKey)
        }),
{
    let ghost all = edit_views(edits@);
    let mut i: usize = 0;
    while i < edits.len()
        invariant
            i <= edits@.len(),
            all == edit_views(edits@),
            forall|j: int| 0 <= j < i ==> (#[trigger] all[j]).key().len() > 0,
        decreases edits@.len() - i,
    {
        assert(all[i as int] == edits@[i as int]@);
        if edits[i].key().is_empty() {
            return Err(EnvWriteError::InvalidKey);
        }
        i = i + 1;
    }
    Ok(())
}

/// The fields of a text that is a flat JSON object: an object none of whose values
/// is an object or an array.
pub open spec fn flat_object(text: Seq<char>) -> Option<Map<Seq<char>, Json>> {
    match json_parsed(text) {
        Some(Json::Object(fields)) => if is_flat(fields) {
            Some(fields)
        } else {
            None
        },
        _ => None,
    }
}

/// Read `text` as a flat JSON object.
pub fn parse_flat(text: &str) -> (result: Option<serde_json::Map<String, serde_json::Value>>)
    ensures
        match result {
            Some(m) => flat_object(text@) == Some(json_fields(m)),
            None => flat_object(text@) is None,
        },
{
    let value = match parse_json(text) {
        Some(v) => v,
        None => return None,
    };
    let object = match into_object(value) {
        Some(m) => m,
        None => return None,
    };
    let keys = object_keys(&object);
    let ghost fields = json_fields(object);
    let mut i: usize = 0;
    while i < keys.len()
        invariant
            i <= keys@.len(),
            fields == json_fields(object),
            json_parsed(text@) == Some(Json::Object(fields)),
            forall|k: Seq<char>| fields.dom().contains(k) <==> #[trigger] views(keys@).contains(k),
            forall|j: int| 0 <= j < i ==> fields[#[trigger] keys@[j]@].is_scalar(),
        decreases keys@.len() - i,
    {
        proof {
            assert(views(keys@)[i as int] == keys@[i as int]@);
            assert(views(keys@).contains(keys@[i as int]@));
        }
        match object_get(&object, keys[i].as_str()) {
            Some(v) => {
                if is_object(v) || is_array(v) {
                    assert(!is_flat(fields)) by {
                        assert(fields.dom().contains(keys@[i as int]@));
                    }
                    return None;
                }
            },
            None => {},
        }
        i = i + 1;
    }
    assert(is_flat(fields)) by {
        assert forall|k: Seq<char>| #[trigger]
            fields.dom().contains(k) implies fields[k].is_scalar() by {
            assert(views(keys@).contains(k));
            let j = choose|j: int| 0 <= j < views(keys@).len() && views(keys@)[j] == k;
            assert(keys@[j]@ == k);
        }
    }
    Some(object)
}

/// `fields` after one edit: a `Put` writes a JSON string, a `Remove` drops the key.
pub open spec fn edited(fields: Map<Seq<char>, Json>, edit: EnvEditView) -> Map<Seq<char>, Json> {
    match edit {
        EnvEditView::Put { key, value } => fields.insert(key, Json::Text(value)),
        EnvEditView::Remove { key } => fields.remove(key),
    }
}

/// `fields` after all the edits, in order.
pub open spec fn merged(fields: Map<Seq<char>, Json>, edits: Seq<EnvEditView>) -> Map<
    Seq<char>,
    Json,
>
    decreases edits.len(),
{
    if edits.len() == 0 {
        fields
    } else {
        edited(merged(fields, edits.drop_last()), edits.last())
    }
}

/// Apply the edits to a flat object, leaving every other key as it is.
pub fn merge(
    current: &serde_json::Map<String, serde_json::Value>,
    edits: &Vec<EnvEdit>,
) -> (result: serde_json::Map<String, serde_json::Value>)
    ensures
        json_fields(result) == merged(json_fields(*current), edit_views(edits@)),
{
    let mut out = object_clone(current);
    let ghost all = edit_views(edits@);
    let mut i: usize = 0;
    assert(all.take(0) =~= Seq::<EnvEditView>::empty());
    while i < edits.len()
        invariant
            i <= edits@.len(),
            all == edit_views(edits@),
            json_fields(out) == merged(json_fields(*current), all.take(i as int)),
        decreases edits@.len() - i,
    {
        proof {
            assert(all.take(i + 1).drop_last() =~= all.take(i as int));
            assert(all.take(i + 1).last() == edits@[i as int]@);
        }
        match &edits[i] {
            EnvEdit::Put { key, value } => {
                object_insert(&mut out, key.clone(), string_value(value.expose_owned()));
            },
            EnvEdit::Remove { key } => {
                object_remove(&mut out, key.as_str());
            },
        }
        i = i + 1;
    }
    assert(all.take(all.len() as int) =~= all);
    out
}

proof fn lemma_merged_flat(fields: Map<Seq<char>, Json>, edits: Seq<EnvEditView>)
    requires
        is_flat(fields),
    ensures
        is_flat(merged(fields, edits)),
    decreases edits.len(),
{
    if edits.len() > 0 {
        lemma_merged_flat(fields, edits.drop_last());
        let before = merged(fields, edits.drop_last());
        assert forall|k: Seq<char>| #[trigger]
            merged(fields, edits).dom().contains(k) implies merged(fields, edits)[k].is_scalar() by {
            if k != edits.last().key() {
                assert(before.dom().contains(k));
            }
        }
    }
}

// ---------------------------------------------------------------------------
// The turns of a write
// ---------------------------------------------------------------------------

/// What a write remembers from one attempt to the next.
pub struct WriteMemory {
    /// The Set that is written into, and where it is.
    secret_id: String,
    region: String,
    edits: Vec<EnvEdit>,
    /// How many reads are still allowed.
    left: u32,
    /// What the edited keys held at the previous read.
    prev_edited: Option<Vec<Option<serde_json::Value>>>,
    /// The previous staged payload and the token it was staged under.
    prev_merge: Option<(Plaintext, String)>,
}

/// A [`WriteMemory`] as a mathematical value.
#[verifier::ext_equal]
pub struct WriteMemoryView {
    pub secret_id: Seq<char>,
    pub region: Seq<char>,
    pub edits: Seq<EnvEditView>,
    pub left: nat,
    pub prev_edited: Option<Seq<Option<Json>>>,
    pub prev_merge: Option<(Seq<char>, Seq<char>)>,
}

/// What an optional JSON value holds.
pub open spec fn json_option(v: Option<serde_json::Value>) -> Option<Json> {
    match v {
        Some(j) => Some(json_of(j)),
        None => None,
    }
}

/// What a list of optional JSON values holds.
pub open spec fn json_options(v: Seq<Option<serde_json::Value>>) -> Seq<Option<Json>> {
    v.map_values(|o: Option<serde_json::Value>| json_option(o))
}

impl View for WriteMemory {
    type V = WriteMemoryView;

    closed spec fn view(&self) -> WriteMemoryView {
        WriteMemoryView {
            secret_id: self.secret_id@,
            region: self.region@,
            edits: edit_views(self.edits@),
            left: self.left as nat,
            prev_edited: match self.prev_edited {
                Some(v) => Some(json_options(v@)),
                None => None,
            },
            prev_merge: match self.prev_merge {
                Some((text, token)) => Some((text@, token@)),
                None => None,
            },
        }
    }
}

impl WriteMemoryView {
    /// The memory of a write: every edit names a key, and each edited key's earlier
    /// value, where there is one, is a scalar.
    pub open spec fn wf(self) -> bool {
        &&& keys_valid(self.edits)
        &&& self.left <= MAX_ATTEMPTS
        &&& match self.prev_edited {
            Some(prev) => {
                &&& prev.len() == self.edits.len()
                &&& forall|i: int|
                    0 <= i < prev.len() && (#[trigger] prev[i]) is Some ==> prev[i]->0.is_scalar()
            },
            None => true,
        }
    }
}

impl WriteMemory {
    #[verifier::type_invariant]
    spec fn inv(&self) -> bool {
        self@.wf()
    }
}

/// A write that waits for a read of the Set (`GetSecretValue`).
pub struct ReadTurn {
    memory: WriteMemory,
}

/// A write that waits for its payload to be staged (`PutSecretValue`): `payload`
/// under the request token `token` and the one stage label `pending`.
pub struct PutTurn {
    memory: WriteMemory,
    base: String,
    payload: Plaintext,
    token: String,
    pending: String,
}

/// A write that waits for the current label to move from `base` to `staged`
/// (`UpdateSecretVersionStage`).
pub struct CommitTurn {
    memory: WriteMemory,
    base: String,
    pending: String,
    staged: String,
}

/// A write that waits for `pending` to be stripped off `staged`
/// (`UpdateSecretVersionStage`). Whether the strip succeeds changes nothing.
pub struct StripTurn {
    memory: WriteMemory,
    pending: String,
    staged: String,
    committed: bool,
}

/// Where a write stands: the turn it waits on, or its end.
pub enum WriteStep {
    Read(ReadTurn),
    Put(PutTurn),
    Commit(CommitTurn),
    Strip(StripTurn),
    Done(Result<WriteOutcome, SecretWriteError>),
}

/// A [`WriteStep`] as a mathematical value.
#[verifier::ext_equal]
pub enum WriteStepView {
    Read { memory: WriteMemoryView },
    Put {
        memory: WriteMemoryView,
        base: Seq<char>,
        payload: Seq<char>,
        token: Seq<char>,
        pending: Seq<char>,
    },
    Commit { memory: WriteMemoryView, base: Seq<char>, pending: Seq<char>, staged: Seq<char> },
    Strip { memory: WriteMemoryView, pending: Seq<char>, staged: Seq<char>, committed: bool },
    Done(Result<WriteOutcome, SecretWriteErrorView>),
}

impl ReadTurn {
    /// What the write remembers.
    pub closed spec fn memory_view(&self) -> WriteMemoryView {
        self.memory@
    }
}

impl View for ReadTurn {
    type V = WriteStepView;

    open spec fn view(&self) -> WriteStepView {
        WriteStepView::Read { memory: self.memory_view() }
    }
}

impl PutTurn {
    /// What the write remembers.
    pub closed spec fn memory_view(&self) -> WriteMemoryView {
        self.memory@
    }

    /// The version that was read.
    pub closed spec fn base_view(&self) -> Seq<char> {
        self.base@
    }

    /// The payload to stage.
    pub closed spec fn payload_view(&self) -> Seq<char> {
        self.payload@
    }

    /// The request token.
    pub closed spec fn token_view(&self) -> Seq<char> {
        self.token@
    }

    /// The stage label.
    pub closed spec fn pending_view(&self) -> Seq<char> {
        self.pending@
    }
}

impl View for PutTurn {
    type V = WriteStepView;

    open spec fn view(&self) -> WriteStepView {
        WriteStepView::Put {
            memory: self.memory_view(),
            base: self.base_view(),
            payload: self.payload_view(),
            token: self.token_view(),
            pending: self.pending_view(),
        }
    }
}

impl CommitTurn {
    /// What the write remembers.
    pub closed spec fn memory_view(&self) -> WriteMemoryView {
        self.memory@
    }

    /// The version that was read.
    pub closed spec fn base_view(&self) -> Seq<char> {
        self.base@
    }

    /// The stage label.
    pub closed spec fn pending_view(&self) -> Seq<char> {
        self.pending@
    }

    /// The version that was staged.
    pub closed spec fn staged_view(&self) -> Seq<char> {
        self.staged@
    }
}

impl View for CommitTurn {
    type V = WriteStepView;

    open spec fn view(&self) -> WriteStepView {
        WriteStepView::Commit {
            memory: self.memory_view(),
            base: self.base_view(),
            pending: self.pending_view(),
            staged: self.staged_view(),
        }
    }
}

impl StripTurn {
    /// What the write remembers.
    pub closed spec fn memory_view(&self) -> WriteMemoryView {
        self.memory@
    }

    /// The stage label.
    pub closed spec fn pending_view(&self) -> Seq<char> {
        self.pending@
    }

    /// The version that was staged.
    pub closed spec fn staged_view(&self) -> Seq<char> {
        self.staged@
    }

    /// Whether the current label moved.
    pub closed spec fn committed_view(&self) -> bool {
        self.committed
    }
}

impl View for StripTurn {
    type V = WriteStepView;

    open spec fn view(&self) -> WriteStepView {
        WriteStepView::Strip {
            memory: self.memory_view(),
            pending: self.pending_view(),
            staged: self.staged_view(),
            committed: self.committed_view(),
        }
    }
}

/// How a write ended, as a mathematical value.
pub open spec fn ending(r: Result<WriteOutcome, SecretWriteError>) -> Result<
    WriteOutcome,
    SecretWriteErrorView,
> {
    match r {
        Ok(outcome) => Ok(outcome),
        Err(e) => Err(e@),
    }
}

impl View for WriteStep {
    type V = WriteStepView;

    open spec fn view(&self) -> WriteStepView {
        match self {
            WriteStep::Read(t) => t@,
            WriteStep::Put(t) => t@,
            WriteStep::Commit(t) => t@,
            WriteStep::Strip(t) => t@,
            WriteStep::Done(r) => WriteStepView::Done(ending(*r)),
        }
    }
}

impl ReadTurn {
    #[verifier::type_invariant]
    spec fn inv(&self) -> bool {
        self.memory@.wf() && self.memory@.left > 0
    }
}

/// What is to be written, as a mathematical value: the Set, where it is, and the edits.
pub struct WriteOrderView {
    pub secret_id: Seq<char>,
    pub region: Seq<char>,
    pub edits: Seq<EnvEditView>,
}

/// Edits into the Set that a Mapping names.
pub open spec fn write_order(m: MappingView, edits: Seq<EnvEditView>) -> WriteOrderView {
    WriteOrderView { secret_id: m.secret_id, region: m.region, edits }
}

/// The step a write begins with: a read, unless an edit names no key.
pub open spec fn first_step(order: WriteOrderView) -> WriteStepView {
    if keys_valid(order.edits) {
        WriteStepView::Read {
            memory: WriteMemoryView {
                secret_id: order.secret_id,
                region: order.region,
                edits: order.edits,
                left: MAX_ATTEMPTS as nat,
                prev_edited: None,
                prev_merge: None,
            },
        }
    } else {
        WriteStepView::Done(Err(SecretWriteErrorView::Edit(EnvWriteError::InvalidKey)))
    }
}

/// The text printed for `fields` is read as `fields` again, but that a number with a
/// fraction or an exponent may be read as another number.
pub open spec fn reads_back(fields: Map<Seq<char>, Json>) -> bool {
    match flat_object(json_text(fields)) {
        Some(back) => same_but_fractions(fields, back),
        None => false,
    }
}

/// What is staged after this reply to a read reads back as the merge it was made from,
/// unless a number in it is at the upper end of the range.
pub open spec fn staged_reads_back(
    memory: WriteMemoryView,
    reply: Result<ReadSecretView, SessionErrorView>,
) -> bool {
    let fields = flat_object(reply->Ok_0.raw.secret_string->0)->0;
    let next = merged(fields, memory.edits);
    is_below_range_end(next) ==> reads_back(next)
}

/// What the edited keys hold in `fields`, edit by edit.
pub open spec fn values_at(fields: Map<Seq<char>, Json>, edits: Seq<EnvEditView>) -> Seq<
    Option<Json>,
> {
    edits.map_values(
        |e: EnvEditView|
            if fields.dom().contains(e.key()) {
                Some(fields[e.key()])
            } else {
                None
            },
    )
}

/// Two optional values count as unchanged.
pub open spec fn unchanged(now: Option<Json>, was: Option<Json>) -> bool {
    match (now, was) {
        (Some(a), Some(b)) => same_scalar(a, b),
        (None, None) => true,
        _ => false,
    }
}

/// No edited key changed between two reads.
pub open spec fn all_unchanged(now: Seq<Option<Json>>, was: Seq<Option<Json>>) -> bool {
    forall|i: int| 0 <= i < was.len() ==> unchanged(#[trigger] now[i], was[i])
}

/// The stage label of a request token.
pub open spec fn pending_label(token: Seq<char>) -> Seq<char> {
    "janitor-pending-"@ + token
}

/// The step after the Set was read as the flat object `fields` at version `base`,
/// where `fresh` is the token that a payload not staged before gets.
pub open spec fn after_object(
    memory: WriteMemoryView,
    fields: Map<Seq<char>, Json>,
    base: Seq<char>,
    fresh: Seq<char>,
) -> WriteStepView {
    let now = values_at(fields, memory.edits);
    let next = merged(fields, memory.edits);
    let payload = json_text(next);
    let token = match memory.prev_merge {
        Some((text, token)) => if text == payload {
            token
        } else {
            fresh
        },
        None => fresh,
    };
    if memory.prev_edited is Some && !all_unchanged(now, memory.prev_edited->0) {
        WriteStepView::Done(Ok(WriteOutcome::Conflict))
    } else if same_object(next, fields) {
        WriteStepView::Done(Ok(WriteOutcome::Applied))
    } else {
        WriteStepView::Put {
            memory: WriteMemoryView {
                left: (memory.left - 1) as nat,
                prev_edited: Some(now),
                prev_merge: Some((payload, token)),
                ..memory
            },
            base,
            payload,
            token,
            pending: pending_label(token),
        }
    }
}

/// The step after a read was answered.
pub open spec fn after_read(
    memory: WriteMemoryView,
    reply: Result<ReadSecretView, SessionErrorView>,
    fresh: Seq<char>,
) -> WriteStepView {
    match reply {
        Err(e) => WriteStepView::Done(Err(SecretWriteErrorView::Session(e))),
        Ok(read) => match read.raw.secret_string {
            None => WriteStepView::Done(Err(SecretWriteErrorView::NotFlat)),
            Some(text) => match flat_object(text) {
                None => WriteStepView::Done(Err(SecretWriteErrorView::NotFlat)),
                Some(fields) => match read.version_id {
                    None => WriteStepView::Done(
                        Err(
                            SecretWriteErrorView::Session(
                                SessionErrorView::Sdk {
                                    context: "GetSecretValue: no VersionId"@,
                                },
                            ),
                        ),
                    ),
                    Some(base) => after_object(memory, fields, base, fresh),
                },
            },
        },
    }
}

/// The step after the staging of a payload was answered, with the new version.
pub open spec fn after_put(
    turn: WriteStepView,
    reply: Result<Seq<char>, SessionErrorView>,
) -> WriteStepView
    recommends
        turn is Put,
{
    match reply {
        Err(e) => WriteStepView::Done(Err(SecretWriteErrorView::Session(e))),
        Ok(staged) => WriteStepView::Commit {
            memory: turn->Put_memory,
            base: turn->Put_base,
            pending: turn->Put_pending,
            staged,
        },
    }
}

/// The step after the move of the current label was answered. Either way the
/// pending label comes off the staged version.
pub open spec fn after_commit(
    turn: WriteStepView,
    reply: Result<CasOutcome, SessionErrorView>,
) -> WriteStepView
    recommends
        turn is Commit,
{
    match reply {
        Err(e) => WriteStepView::Done(Err(SecretWriteErrorView::Session(e))),
        Ok(outcome) => WriteStepView::Strip {
            memory: turn->Commit_memory,
            pending: turn->Commit_pending,
            staged: turn->Commit_staged,
            committed: outcome == CasOutcome::Committed,
        },
    }
}

/// The step after the pending label was stripped, or could not be.
pub open spec fn after_strip(turn: WriteStepView) -> WriteStepView
    recommends
        turn is Strip,
{
    if turn->committed {
        WriteStepView::Done(Ok(WriteOutcome::Applied))
    } else if turn->Strip_memory.left > 0 {
        WriteStepView::Read { memory: turn->Strip_memory }
    } else {
        WriteStepView::Done(Ok(WriteOutcome::Conflict))
    }
}

/// A reply as a mathematical value.
pub open spec fn read_reply(r: Result<ReadSecret, SessionError>) -> Result<
    ReadSecretView,
    SessionErrorView,
> {
    match r {
        Ok(read) => Ok(read@),
        Err(e) => Err(e@),
    }
}

/// Begin a write of `edits` into the Set `secret_id` of a region. No call is made for
/// edits that name no key.
pub fn write_secret(secret_id: String, region: String, edits: Vec<EnvEdit>) -> (result: WriteStep)
    ensures
        result@ == first_step(
            WriteOrderView { secret_id: secret_id@, region: region@, edits: edit_views(edits@) },
        ),
{
    match validate_edits(&edits) {
        Err(e) => WriteStep::Done(Err(SecretWriteError::Edit(e))),
        Ok(()) => {
            let memory = WriteMemory {
                secret_id,
                region,
                edits,
                left: MAX_ATTEMPTS,
                prev_edited: None,
                prev_merge: None,
            };
            WriteStep::Read(ReadTurn { memory })
        },
    }
}

/// What the edited keys hold in a flat object, edit by edit.
fn current_values(
    object: &serde_json::Map<String, serde_json::Value>,
    edits: &Vec<EnvEdit>,
) -> (result: Vec<Option<serde_json::Value>>)
    ensures
        json_options(result@) == values_at(json_fields(*object), edit_views(edits@)),
{
    let mut out: Vec<Option<serde_json::Value>> = Vec::new();
    let ghost now = values_at(json_fields(*object), edit_views(edits@));
    let mut i: usize = 0;
    while i < edits.len()
        invariant
            i <= edits@.len(),
            out@.len() == i,
            now == values_at(json_fields(*object), edit_views(edits@)),
            forall|j: int| 0 <= j < i ==> json_option(#[trigger] out@[j]) == now[j],
        decreases edits@.len() - i,
    {
        let value = match object_get(object, edits[i].key()) {
            Some(v) => Some(value_clone(v)),
            None => None,
        };
        out.push(value);
        i = i + 1;
    }
    assert(json_options(out@) =~= now);
    out
}

/// Whether no edited key changed between two reads.
fn none_changed(
    now: &Vec<Option<serde_json::Value>>,
    was: &Vec<Option<serde_json::Value>>,
) -> (result: bool)
    requires
        now@.len() == was@.len(),
        forall|i: int| 0 <= i < now@.len() && (#[trigger] now@[i]) is Some ==> json_of(
            now@[i]->0,
        ).is_scalar(),
        forall|i: int| 0 <= i < was@.len() && (#[trigger] was@[i]) is Some ==> json_of(
            was@[i]->0,
        ).is_scalar(),
    ensures
        result == all_unchanged(json_options(now@), json_options(was@)),
{
    let ghost n = json_options(now@);
    let ghost w = json_options(was@);
    let mut i: usize = 0;
    while i < was.len()
        invariant
            i <= was@.len(),
            now@.len() == was@.len(),
            n == json_options(now@),
            w == json_options(was@),
            forall|i: int| 0 <= i < now@.len() && (#[trigger] now@[i]) is Some ==> json_of(
                now@[i]->0,
            ).is_scalar(),
            forall|i: int| 0 <= i < was@.len() && (#[trigger] was@[i]) is Some ==> json_of(
                was@[i]->0,
            ).is_scalar(),
            forall|j: int| 0 <= j < i ==> unchanged(#[trigger] n[j], w[j]),
        decreases was@.len() - i,
    {
        assert(n[i as int] == json_option(now@[i as int]));
        assert(w[i as int] == json_option(was@[i as int]));
        let kept = match (&now[i], &was[i]) {
            (Some(a), Some(b)) => values_equal(a, b),
            (None, None) => true,
            _ => false,
        };
        if !kept {
            assert(!unchanged(n[i as int], w[i as int]));
            return false;
        }
        i = i + 1;
    }
    true
}

impl ReadTurn {
    /// The Set the call is made on.
    pub fn secret_id(&self) -> (result: &str)
        ensures
            result@ == self@->Read_memory.secret_id,
    {
        self.memory.secret_id.as_str()
    }

    /// The region the call is made in.
    pub fn region(&self) -> (result: &str)
        ensures
            result@ == self@->Read_memory.region,
    {
        self.memory.region.as_str()
    }

    /// Take the reply to the read. A payload that was not staged before gets a
    /// random token.
    pub fn resume(self, reply: Result<ReadSecret, SessionError>) -> (result: WriteStep)
        ensures
            exists|fresh: Seq<char>|
                is_uuid_text(fresh) && result@ == #[trigger] after_read(
                    self@->Read_memory,
                    read_reply(reply),
                    fresh,
                ),
            result@ is Put ==> staged_reads_back(self@->Read_memory, read_reply(reply)),
    {
        let fresh = random_uuid();
        self.resume_with(reply, fresh)
    }

    /// Take the reply to the read, with `fresh` as the token of a payload that was
    /// not staged before.
    pub fn resume_with(self, reply: Result<ReadSecret, SessionError>, fresh: String) -> (result:
        WriteStep)
        ensures
            result@ == after_read(self@->Read_memory, read_reply(reply), fresh@),
            result@ is Put ==> staged_reads_back(self@->Read_memory, read_reply(reply)),
    {
        proof {
            use_type_invariant(&self);
        }
        let read = match reply {
            Err(e) => return WriteStep::Done(Err(SecretWriteError::Session(e))),
            Ok(read) => read,
        };
        let text = match read.raw.secret_string {
            None => return WriteStep::Done(Err(SecretWriteError::NotFlat)),
            Some(text) => text,
        };
        let object = match parse_flat(text.expose()) {
            None => return WriteStep::Done(Err(SecretWriteError::NotFlat)),
            Some(object) => object,
        };
        let base = match read.version_id {
            None => return WriteStep::Done(
                Err(
                    SecretWriteError::Session(
                        SessionError::Sdk { context: "GetSecretValue: no VersionId".to_owned() },
                    ),
                ),
            ),
            Some(base) => base,
        };
        let memory = self.memory;
        let ghost fields = json_fields(object);
        let ghost edits = memory@.edits;
        let now = current_values(&object, &memory.edits);
        proof {
            let values = values_at(fields, edits);
            assert(json_options(now@).len() == now@.len());
            assert forall|i: int| 0 <= i < now@.len() && (#[trigger] now@[i]) is Some implies json_of(
                now@[i]->0,
            ).is_scalar() by {
                assert(json_options(now@)[i] == json_option(now@[i]));
                assert(values[i] is Some);
                assert(fields.dom().contains(edits[i].key()));
            }
        }
        if let Some(prev) = &memory.prev_edited {
            proof {
                let was = json_options(prev@);
                assert forall|i: int|
                    0 <= i < prev@.len() && (#[trigger] prev@[i]) is Some implies json_of(
                    prev@[i]->0,
                ).is_scalar() by {
                    assert(was[i] == json_option(prev@[i]));
                }
            }
            if !none_changed(&now, prev) {
                return WriteStep::Done(Ok(WriteOutcome::Conflict));
            }
        }
        let next = merge(&object, &memory.edits);
        proof {
            lemma_merged_flat(fields, edits);
        }
        if objects_equal(&next, &object) {
            return WriteStep::Done(Ok(WriteOutcome::Applied));
        }
        let ghost to_stage = json_fields(next);
        let payload = Plaintext::new(object_text(next));
        proof {
            if is_below_range_end(to_stage) {
                let back = json_parsed(payload@)->0->Object_0;
                assert forall|k: Seq<char>| #[trigger]
                    back.dom().contains(k) implies back[k].is_scalar() by {
                    assert(to_stage.dom().contains(k));
                }
                assert(reads_back(to_stage));
            }
        }
        let token = match &memory.prev_merge {
            Some((text, token)) => if same(text.expose(), payload.expose()) {
                token.clone()
            } else {
                fresh
            },
            None => fresh,
        };
        let mut pending = "janitor-pending-".to_owned();
        pending.push_str(token.as_str());
        let WriteMemory { secret_id, region, edits: kept, left, prev_edited: _, prev_merge: _ } =
            memory;
        let memory = WriteMemory {
            secret_id,
            region,
            edits: kept,
            left: left - 1,
            prev_edited: Some(now),
            prev_merge: Some((payload.duplicate(), token.clone())),
        };
        WriteStep::Put(PutTurn { memory, base, payload, token, pending })
    }
}

impl PutTurn {
    /// The Set the call is made on.
    pub fn secret_id(&self) -> (result: &str)
        ensures
            result@ == self@->Put_memory.secret_id,
    {
        self.memory.secret_id.as_str()
    }

    /// The region the call is made in.
    pub fn region(&self) -> (result: &str)
        ensures
            result@ == self@->Put_memory.region,
    {
        self.memory.region.as_str()
    }

    /// The payload to stage.
    pub fn payload(&self) -> (result: &str)
        ensures
            result@ == self@->payload,
    {
        self.payload.expose()
    }

    /// The request token to stage it under.
    pub fn token(&self) -> (result: &str)
        ensures
            result@ == self@->token,
    {
        self.token.as_str()
    }

    /// The one stage label to give it.
    pub fn pending(&self) -> (result: &str)
        ensures
            result@ == self@->Put_pending,
    {
        self.pending.as_str()
    }

    /// Take the reply to the staging: the new version's id.
    pub fn resume(self, reply: Result<String, SessionError>) -> (result: WriteStep)
        ensures
            result@ == after_put(
                self@,
                match reply {
                    Ok(staged) => Ok(staged@),
                    Err(e) => Err(e@),
                },
            ),
    {
        match reply {
            Err(e) => WriteStep::Done(Err(SecretWriteError::Session(e))),
            Ok(staged) => WriteStep::Commit(
                CommitTurn { memory: self.memory, base: self.base, pending: self.pending, staged },
            ),
        }
    }
}

impl CommitTurn {
    /// The Set the call is made on.
    pub fn secret_id(&self) -> (result: &str)
        ensures
            result@ == self@->Commit_memory.secret_id,
    {
        self.memory.secret_id.as_str()
    }

    /// The region the call is made in.
    pub fn region(&self) -> (result: &str)
        ensures
            result@ == self@->Commit_memory.region,
    {
        self.memory.region.as_str()
    }

    /// The label to move.
    pub fn version_stage(&self) -> (result: &'static str)
        ensures
            result@ == "AWSCURRENT"@,
    {
        "AWSCURRENT"
    }

    /// The version to take the current label from.
    pub fn remove_from(&self) -> (result: &str)
        ensures
            result@ == self@->Commit_base,
    {
        self.base.as_str()
    }

    /// The version to give the current label to.
    pub fn move_to(&self) -> (result: &str)
        ensures
            result@ == self@->Commit_staged,
    {
        self.staged.as_str()
    }

    /// Take the reply to the move.
    pub fn resume(self, reply: Result<CasOutcome, SessionError>) -> (result: WriteStep)
        ensures
            result@ == after_commit(
                self@,
                match reply {
                    Ok(outcome) => Ok(outcome),
                    Err(e) => Err(e@),
                },
            ),
    {
        match reply {
            Err(e) => WriteStep::Done(Err(SecretWriteError::Session(e))),
            Ok(outcome) => WriteStep::Strip(
                StripTurn {
                    memory: self.memory,
                    pending: self.pending,
                    staged: self.staged,
                    committed: outcome == CasOutcome::Committed,
                },
            ),
        }
    }
}

impl StripTurn {
    /// The Set the call is made on.
    pub fn secret_id(&self) -> (result: &str)
        ensures
            result@ == self@->Strip_memory.secret_id,
    {
        self.memory.secret_id.as_str()
    }

    /// The region the call is made in.
    pub fn region(&self) -> (result: &str)
        ensures
            result@ == self@->Strip_memory.region,
    {
        self.memory.region.as_str()
    }

    /// The label to strip.
    pub fn pending(&self) -> (result: &str)
        ensures
            result@ == self@->Strip_pending,
    {
        self.pending.as_str()
    }

    /// The version to strip it off.
    pub fn remove_from(&self) -> (result: &str)
        ensures
            result@ == self@->Strip_staged,
    {
        self.staged.as_str()
    }

    /// Go on after the strip, whatever became of it.
    pub fn resume(self) -> (result: WriteStep)
        ensures
            result@ == after_strip(self@),
    {
        proof {
            use_type_invariant(&self.memory);
        }
        if self.committed {
            WriteStep::Done(Ok(WriteOutcome::Applied))
        } else if self.memory.left > 0 {
            WriteStep::Read(ReadTurn { memory: self.memory })
        } else {
            WriteStep::Done(Ok(WriteOutcome::Conflict))
        }
    }
}

} // verus!

//! What holds of every write, whatever the calls it makes are answered.

use vstd::prelude::*;

use crate::auth::error::SessionErrorView;
use crate::aws::secret_write::{
    after_commit, after_object, after_put, after_read, after_strip, all_unchanged, first_step,
    flat_object, keys_valid, merged, pending_label, reads_back, values_at, SecretWriteErrorView,
    WriteMemoryView, WriteOrderView, WriteStepView, MAX_ATTEMPTS,
};
use crate::aws::wire::{CasOutcome, ReadSecretView};
use crate::model::write::{EnvEditView, EnvWriteError, WriteOutcome};
use crate::outside::json::{is_fractional, json_parsed, json_text, same_object, Json};

verus! {

// ---------------------------------------------------------------------------
// The merge
// ---------------------------------------------------------------------------

/// Some edit touches `key`.
pub open spec fn touches(edits: Seq<EnvEditView>, key: Seq<char>) -> bool {
    exists|i: int| 0 <= i < edits.len() && (#[trigger] edits[i]).key() == key
}

/// A key that no edit touches is there after the merge exactly if it was there
/// before, and with the value it had.
pub proof fn merge_keeps_untouched_keys(
    fields: Map<Seq<char>, Json>,
    edits: Seq<EnvEditView>,
    key: Seq<char>,
)
    requires
        !touches(edits, key),
    ensures
        merged(fields, edits).dom().contains(key) == fields.dom().contains(key),
        fields.dom().contains(key) ==> merged(fields, edits)[key] == fields[key],
    decreases edits.len(),
{
    if edits.len() > 0 {
        let rest = edits.drop_last();
        assert(!touches(rest, key)) by {
            if touches(rest, key) {
                let i = choose|i: int| 0 <= i < rest.len() && (#[trigger] rest[i]).key() == key;
                assert(edits[i].key() == key);
            }
        }
        merge_keeps_untouched_keys(fields, rest, key);
        assert(edits[edits.len() - 1].key() != key);
    }
}

/// `last` is the last edit of `key`.
pub open spec fn is_last_edit(edits: Seq<EnvEditView>, last: int, key: Seq<char>) -> bool {
    &&& 0 <= last < edits.len()
    &&& edits[last].key() == key
    &&& forall|j: int| last < j < edits.len() ==> (#[trigger] edits[j]).key() != key
}

/// The last edit of a key decides: after the merge the key holds the string it was
/// put to, or is gone.
pub proof fn merge_obeys_the_last_edit(
    fields: Map<Seq<char>, Json>,
    edits: Seq<EnvEditView>,
    last: int,
)
    requires
        is_last_edit(edits, last, edits[last].key()),
    ensures
        match edits[last] {
            EnvEditView::Put { key, value } => merged(fields, edits).dom().contains(key) && merged(
                fields,
                edits,
            )[key] == Json::Text(value),
            EnvEditView::Remove { key } => !merged(fields, edits).dom().contains(key),
        },
    decreases edits.len(),
{
    if last < edits.len() - 1 {
        let rest = edits.drop_last();
        assert forall|j: int| last < j < rest.len() implies (#[trigger] rest[j]).key()
            != rest[last].key() by {
            assert(rest[j] == edits[j]);
        }
        merge_obeys_the_last_edit(fields, rest, last);
        assert(edits[edits.len() - 1].key() != edits[last].key());
    }
}

/// Merging the same edits a second time changes nothing.
pub proof fn merging_again_changes_nothing(
    fields: Map<Seq<char>, Json>,
    edits: Seq<EnvEditView>,
)
    ensures
        merged(merged(fields, edits), edits) == merged(fields, edits),
{
    let once = merged(fields, edits);
    let twice = merged(once, edits);
    assert forall|k: Seq<char>| #[trigger] twice.dom().contains(k) == once.dom().contains(k) by {
        lemma_merging_again_at(fields, edits, k);
    }
    assert(twice.dom() =~= once.dom());
    assert forall|k: Seq<char>| #[trigger] twice.dom().contains(k) implies twice[k] == once[k] by {
        lemma_merging_again_at(fields, edits, k);
    }
    assert(twice =~= once);
}

proof fn lemma_merging_again_at(
    fields: Map<Seq<char>, Json>,
    edits: Seq<EnvEditView>,
    key: Seq<char>,
)
    ensures
        merged(merged(fields, edits), edits).dom().contains(key) == merged(
            fields,
            edits,
        ).dom().contains(key),
        merged(fields, edits).dom().contains(key) ==> merged(merged(fields, edits), edits)[key]
            == merged(fields, edits)[key],
{
    let once = merged(fields, edits);
    if touches(edits, key) {
        let last = lemma_last_touch(edits, key);
        merge_obeys_the_last_edit(fields, edits, last);
        merge_obeys_the_last_edit(once, edits, last);
    } else {
        merge_keeps_untouched_keys(once, edits, key);
    }
}

proof fn lemma_last_touch(edits: Seq<EnvEditView>, key: Seq<char>) -> (last: int)
    requires
        touches(edits, key),
    ensures
        is_last_edit(edits, last, key),
    decreases edits.len(),
{
    if edits.last().key() == key {
        edits.len() - 1
    } else {
        let rest = edits.drop_last();
        let i = choose|i: int| 0 <= i < edits.len() && (#[trigger] edits[i]).key() == key;
        assert(rest[i].key() == key);
        let last = lemma_last_touch(rest, key);
        assert forall|j: int| last < j < edits.len() implies (#[trigger] edits[j]).key()
            != key by {
            if j < rest.len() {
                assert(rest[j] == edits[j]);
            }
        }
        last
    }
}

/// A write whose edits are already in the Set ends at its first read: it stages
/// nothing.
pub proof fn edits_already_in_effect_stage_nothing(
    memory: WriteMemoryView,
    fields: Map<Seq<char>, Json>,
    base: Seq<char>,
    fresh: Seq<char>,
)
    requires
        memory.prev_edited is None,
    ensures
        after_object(memory, merged(fields, memory.edits), base, fresh) == WriteStepView::Done(
            Ok(WriteOutcome::Applied),
        ),
{
    merging_again_changes_nothing(fields, memory.edits);
}

// ---------------------------------------------------------------------------
// Runs
// ---------------------------------------------------------------------------

/// The reply to one call of a write. A read comes with the token that a payload
/// not staged before would get.
pub enum WriteReplyView {
    Read { reply: Result<ReadSecretView, SessionErrorView>, fresh: Seq<char> },
    Put(Result<Seq<char>, SessionErrorView>),
    Commit(Result<CasOutcome, SessionErrorView>),
    Strip,
}

/// `step` waits for a reply of this kind.
pub open spec fn fits(step: WriteStepView, reply: WriteReplyView) -> bool {
    match reply {
        WriteReplyView::Read { .. } => step is Read,
        WriteReplyView::Put(_) => step is Put,
        WriteReplyView::Commit(_) => step is Commit,
        WriteReplyView::Strip => step is Strip,
    }
}

/// The step after `reply`.
pub open spec fn advance(step: WriteStepView, reply: WriteReplyView) -> WriteStepView {
    match reply {
        WriteReplyView::Read { reply, fresh } => after_read(step->Read_memory, reply, fresh),
        WriteReplyView::Put(r) => after_put(step, r),
        WriteReplyView::Commit(r) => after_commit(step, r),
        WriteReplyView::Strip => after_strip(step),
    }
}

/// The step a write has come to after these replies.
pub open spec fn run(order: WriteOrderView, replies: Seq<WriteReplyView>) -> WriteStepView
    decreases replies.len(),
{
    if replies.len() == 0 {
        first_step(order)
    } else {
        advance(run(order, replies.drop_last()), replies.last())
    }
}

/// Each reply is of the kind the write waited for.
pub open spec fn is_run(order: WriteOrderView, replies: Seq<WriteReplyView>) -> bool
    decreases replies.len(),
{
    replies.len() == 0 || {
        &&& is_run(order, replies.drop_last())
        &&& fits(run(order, replies.drop_last()), replies.last())
    }
}

/// The flat object and the version that the last read of a run gave.
pub open spec fn last_read(replies: Seq<WriteReplyView>) -> Option<ReadSecretView>
    decreases replies.len(),
{
    if replies.len() == 0 {
        None
    } else {
        match replies.last() {
            WriteReplyView::Read { reply: Ok(read), .. } => Some(read),
            _ => last_read(replies.drop_last()),
        }
    }
}

/// The fields of what was read, where it is a flat object.
pub open spec fn fields_of(read: ReadSecretView) -> Map<Seq<char>, Json> {
    flat_object(read.raw.secret_string->0)->0
}

/// How many reads, stagings or moves of the label a run has made.
pub open spec fn count(replies: Seq<WriteReplyView>, kind: spec_fn(WriteReplyView) -> bool) -> nat
    decreases replies.len(),
{
    if replies.len() == 0 {
        0
    } else {
        count(replies.drop_last(), kind) + if kind(replies.last()) {
            1nat
        } else {
            0
        }
    }
}

pub open spec fn is_read(r: WriteReplyView) -> bool {
    r is Read
}

pub open spec fn is_put(r: WriteReplyView) -> bool {
    r is Put
}

/// The memory a step carries.
pub open spec fn memory_of(step: WriteStepView) -> WriteMemoryView {
    match step {
        WriteStepView::Read { memory } => memory,
        WriteStepView::Put { memory, .. } => memory,
        WriteStepView::Commit { memory, .. } => memory,
        WriteStepView::Strip { memory, .. } => memory,
        WriteStepView::Done(_) => arbitrary(),
    }
}

/// How many replies a write takes at most from this step on.
pub open spec fn rank(step: WriteStepView) -> nat {
    match step {
        WriteStepView::Read { memory } => 4 * memory.left,
        WriteStepView::Put { memory, .. } => 4 * memory.left + 3,
        WriteStepView::Commit { memory, .. } => 4 * memory.left + 2,
        WriteStepView::Strip { memory, .. } => 4 * memory.left + 1,
        WriteStepView::Done(_) => 0,
    }
}

/// What every step of a run remembers of the last read.
spec fn remembers(order: WriteOrderView, replies: Seq<WriteReplyView>) -> bool {
    let step = run(order, replies);
    let read = last_read(replies);
    !(step is Done) ==> {
        let memory = memory_of(step);
        &&& keys_valid(order.edits)
        &&& memory.secret_id == order.secret_id
        &&& memory.region == order.region
        &&& memory.edits == order.edits
        &&& memory.left + count(replies, |r: WriteReplyView| is_read(r)) == MAX_ATTEMPTS
        &&& step is Read ==> memory.left > 0
        &&& count(replies, |r: WriteReplyView| is_put(r)) <= count(
            replies,
            |r: WriteReplyView| is_read(r),
        )
        &&& step is Put ==> count(replies, |r: WriteReplyView| is_put(r)) < count(
            replies,
            |r: WriteReplyView| is_read(r),
        )
        &&& match read {
            None => step is Read && memory.prev_edited is None,
            Some(read) => {
                &&& flat_object(read.raw.secret_string->0) is Some
                &&& read.raw.secret_string is Some
                &&& read.version_id is Some
                &&& memory.prev_edited == Some(values_at(fields_of(read), order.edits))
                &&& step is Put ==> {
                    &&& step->Put_base == read.version_id->0
                    &&& step->payload == json_text(merged(fields_of(read), order.edits))
                    &&& step->Put_pending == pending_label(step->token)
                }
                &&& step is Commit ==> step->Commit_base == read.version_id->0
            },
        }
    }
}

proof fn lemma_remembers(order: WriteOrderView, replies: Seq<WriteReplyView>)
    requires
        is_run(order, replies),
    ensures
        remembers(order, replies),
    decreases replies.len(),
{
    if replies.len() > 0 {
        lemma_remembers(order, replies.drop_last());
    }
}

/// Every call of a write is made on the one Set it was begun for, in that Set's region:
/// the read, the staging, the move of the label and the strip.
pub proof fn every_call_is_on_the_one_set(order: WriteOrderView, replies: Seq<WriteReplyView>)
    requires
        is_run(order, replies),
        !(run(order, replies) is Done),
    ensures
        memory_of(run(order, replies)).secret_id == order.secret_id,
        memory_of(run(order, replies)).region == order.region,
{
    lemma_remembers(order, replies);
}

/// A write ends: after at most twelve replies there is nothing more to wait for.
pub proof fn a_write_ends(order: WriteOrderView, replies: Seq<WriteReplyView>)
    requires
        is_run(order, replies),
    ensures
        rank(run(order, replies)) + replies.len() <= 4 * MAX_ATTEMPTS || run(order, replies) is Done,
        replies.len() <= 4 * MAX_ATTEMPTS,
    decreases replies.len(),
{
    if replies.len() > 0 {
        let before = replies.drop_last();
        a_write_ends(order, before);
        lemma_remembers(order, before);
        assert(!(run(order, before) is Done));
    }
}

/// A write reads at most [`MAX_ATTEMPTS`] times and stages at most as often as it
/// reads.
pub proof fn attempts_are_bounded(order: WriteOrderView, replies: Seq<WriteReplyView>)
    requires
        is_run(order, replies),
    ensures
        count(replies, |r: WriteReplyView| is_read(r)) <= MAX_ATTEMPTS,
        count(replies, |r: WriteReplyView| is_put(r)) <= count(
            replies,
            |r: WriteReplyView| is_read(r),
        ),
    decreases replies.len(),
{
    lemma_remembers(order, replies);
    if replies.len() > 0 {
        attempts_are_bounded(order, replies.drop_last());
        lemma_remembers(order, replies.drop_last());
    }
}

/// What a write stages is the merge of its edits onto the object it read last, under
/// the label of its token, and the version it will take the current label from is
/// the version that read gave. So a key that no edit touches is staged as it was
/// read.
pub proof fn a_staged_payload_is_the_last_read_merged(
    order: WriteOrderView,
    replies: Seq<WriteReplyView>,
)
    requires
        is_run(order, replies),
        run(order, replies) is Put,
    ensures
        last_read(replies) is Some,
        ({
            let step = run(order, replies);
            let read = last_read(replies)->0;
            &&& step->payload == json_text(merged(fields_of(read), order.edits))
            &&& Some(step->Put_base) == read.version_id
            &&& step->Put_pending == pending_label(step->token)
        }),
{
    lemma_remembers(order, replies);
}

/// The current label is only ever taken from the version that the last read gave.
pub proof fn a_commit_compares_with_the_last_read(
    order: WriteOrderView,
    replies: Seq<WriteReplyView>,
)
    requires
        is_run(order, replies),
        run(order, replies) is Commit,
    ensures
        last_read(replies) is Some,
        Some(run(order, replies)->Commit_base) == last_read(replies)->0.version_id,
{
    lemma_remembers(order, replies);
}

/// A write that reads again stages only if no key it edits has changed since its
/// previous read; where one has, it ends as a conflict.
pub proof fn a_changed_key_stops_the_write(
    order: WriteOrderView,
    replies: Seq<WriteReplyView>,
    read: ReadSecretView,
    fresh: Seq<char>,
)
    requires
        is_run(order, replies),
        run(order, replies) is Read,
        last_read(replies) is Some,
        read.raw.secret_string is Some,
        flat_object(read.raw.secret_string->0) is Some,
        read.version_id is Some,
    ensures
        ({
            let next = advance(
                run(order, replies),
                WriteReplyView::Read { reply: Ok(read), fresh },
            );
            let now = values_at(fields_of(read), order.edits);
            let was = values_at(fields_of(last_read(replies)->0), order.edits);
            &&& !all_unchanged(now, was) ==> next == WriteStepView::Done(Ok(WriteOutcome::Conflict))
            &&& next is Put ==> all_unchanged(now, was)
        }),
{
    lemma_remembers(order, replies);
}

/// When the label moved under a write, the label of its staged version is stripped
/// before anything else, and only then does it read again or give up.
pub proof fn a_lost_race_is_cleaned_up_first(
    order: WriteOrderView,
    replies: Seq<WriteReplyView>,
)
    requires
        is_run(order, replies),
        run(order, replies) is Commit,
    ensures
        ({
            let step = run(order, replies);
            let next = advance(step, WriteReplyView::Commit(Ok(CasOutcome::Mismatch)));
            let then = advance(next, WriteReplyView::Strip);
            &&& next is Strip
            &&& next->Strip_staged == step->Commit_staged
            &&& next->Strip_pending == step->Commit_pending
            &&& then is Read || then == WriteStepView::Done(Ok(WriteOutcome::Conflict))
        }),
{
}

/// A write reports that its edits are applied only after the current label moved to
/// the version it staged, or when the object it read already had them.
pub proof fn applied_means_applied(order: WriteOrderView, replies: Seq<WriteReplyView>)
    requires
        is_run(order, replies),
        replies.len() > 0,
        run(order, replies) == WriteStepView::Done(Ok(WriteOutcome::Applied)),
    ensures
        match replies.last() {
            WriteReplyView::Strip => run(order, replies.drop_last())->committed,
            WriteReplyView::Read { reply: Ok(read), .. } => same_object(
                merged(fields_of(read), order.edits),
                fields_of(read),
            ),
            _ => false,
        },
{
    lemma_remembers(order, replies.drop_last());
}

// ---------------------------------------------------------------------------
// A write among other writers
// ---------------------------------------------------------------------------

/// A secret as the service keeps it: the text of every version, and the version that
/// has the current label.
pub struct Vault {
    pub texts: Map<Seq<char>, Seq<char>>,
    pub current: Seq<char>,
}

/// What anybody may do to a secret: versions are added and the label moves, and the
/// text of a version stays what it is.
pub open spec fn versions_kept(before: Vault, after: Vault) -> bool {
    forall|v: Seq<char>| #[trigger]
        before.texts.dom().contains(v) ==> after.texts.dom().contains(v) && after.texts[v]
            == before.texts[v]
}

/// One call of a write: the secret just before it and just after it, and the reply.
pub struct Exchange {
    pub before: Vault,
    pub reply: WriteReplyView,
    pub after: Vault,
}

/// The service does with a call what it says. A read gives the current version and
/// its text. A staging adds a version with the payload, or finds it there, and leaves
/// the current label. The label moves only away from the version the call names, and
/// to the version it names. A failed call leaves no version changed.
pub open spec fn honest(step: WriteStepView, x: Exchange) -> bool {
    &&& versions_kept(x.before, x.after)
    &&& match x.reply {
        WriteReplyView::Read { reply: Ok(read), .. } => {
            &&& read.version_id == Some(x.before.current)
            &&& read.raw.secret_string is Some ==> x.before.texts.dom().contains(x.before.current)
                && x.before.texts[x.before.current] == read.raw.secret_string->0
        },
        WriteReplyView::Put(Ok(staged)) => {
            &&& x.after.current == x.before.current
            &&& x.after.texts.dom().contains(staged)
            &&& x.after.texts[staged] == step->payload
        },
        WriteReplyView::Commit(Ok(CasOutcome::Committed)) => {
            &&& x.before.current == step->Commit_base
            &&& x.after.current == step->Commit_staged
        },
        _ => true,
    }
}

/// The replies of a trace.
pub open spec fn replies_of(trace: Seq<Exchange>) -> Seq<WriteReplyView> {
    trace.map_values(|x: Exchange| x.reply)
}

/// A write among other writers: each call is answered honestly, and between two calls
/// others may have done anything that keeps the versions.
pub open spec fn is_trace(order: WriteOrderView, trace: Seq<Exchange>) -> bool
    decreases trace.len(),
{
    trace.len() > 0 ==> {
        let before = trace.drop_last();
        let step = run(order, replies_of(before));
        &&& is_trace(order, before)
        &&& fits(step, trace.last().reply)
        &&& honest(step, trace.last())
        &&& before.len() > 0 ==> versions_kept(before.last().after, trace.last().before)
    }
}

/// Where a write among others stands, what it read last and what it staged are still
/// to be found in the secret.
spec fn anchored(order: WriteOrderView, trace: Seq<Exchange>) -> bool {
    let step = run(order, replies_of(trace));
    let read = last_read(replies_of(trace))->0;
    let now = trace.last().after;
    trace.len() > 0 ==> {
        &&& step is Put ==> {
            &&& now.texts.dom().contains(step->Put_base)
            &&& now.texts[step->Put_base] == read.raw.secret_string->0
        }
        &&& step is Commit ==> {
            &&& now.texts.dom().contains(step->Commit_base)
            &&& now.texts[step->Commit_base] == read.raw.secret_string->0
            &&& now.texts.dom().contains(step->Commit_staged)
            &&& now.texts[step->Commit_staged] == json_text(merged(fields_of(read), order.edits))
        }
    }
}

proof fn lemma_anchored(order: WriteOrderView, trace: Seq<Exchange>)
    requires
        is_trace(order, trace),
    ensures
        is_run(order, replies_of(trace)),
        anchored(order, trace),
    decreases trace.len(),
{
    if trace.len() > 0 {
        let before = trace.drop_last();
        lemma_anchored(order, before);
        assert(replies_of(trace).drop_last() =~= replies_of(before));
        assert(replies_of(trace).last() == trace.last().reply);
        lemma_remembers(order, replies_of(before));
        lemma_remembers(order, replies_of(trace));
        let step = run(order, replies_of(before));
        let x = trace.last();
        let next = run(order, replies_of(trace));
        assert(next == advance(step, x.reply));
        match x.reply {
            WriteReplyView::Read { reply: Ok(read), .. } => {
                if next is Put {
                    assert(x.before.texts.dom().contains(next->Put_base));
                }
            },
            WriteReplyView::Put(Ok(_)) => {
                assert(before.len() > 0);
                assert(before.last().after.texts.dom().contains(step->Put_base));
            },
            _ => {},
        }
    }
}

/// A write never stomps: whatever others did meanwhile, the moment the current label
/// moves to what it staged, that is the text that was current until then with the
/// edits merged into it. Nothing anybody else had put there is lost.
pub proof fn a_write_never_stomps(order: WriteOrderView, trace: Seq<Exchange>)
    requires
        is_trace(order, trace),
        trace.len() > 0,
        trace.last().reply == WriteReplyView::Commit(Ok(CasOutcome::Committed)),
    ensures
        ({
            let before = trace.last().before;
            let after = trace.last().after;
            let fields = flat_object(before.texts[before.current]);
            &&& before.texts.dom().contains(before.current)
            &&& fields is Some
            &&& after.texts.dom().contains(after.current)
            &&& after.texts[after.current] == json_text(merged(fields->0, order.edits))
        }),
{
    let earlier = trace.drop_last();
    lemma_anchored(order, earlier);
    lemma_remembers(order, replies_of(earlier));
    let step = run(order, replies_of(earlier));
    assert(earlier.len() > 0);
    assert(earlier.last().after.texts.dom().contains(step->Commit_base));
    assert(earlier.last().after.texts.dom().contains(step->Commit_staged));
    let before = trace.last().before;
    let after = trace.last().after;
    assert(before.texts.dom().contains(step->Commit_staged));
    assert(before.texts[before.current] == last_read(replies_of(earlier))->0.raw.secret_string->0);
    assert(after.texts[after.current] == before.texts[step->Commit_staged]);
}

/// A read of what a write committed gives the write back: the key of an edit holds what
/// the last edit of that key put there, or is gone where it was removed, and every other
/// key is as it was, but that a number with a fraction or an exponent may be read as
/// another number. The staged object has to read back, as one does where no number is at
/// the upper end of the range.
pub proof fn a_committed_write_is_read_back(
    order: WriteOrderView,
    trace: Seq<Exchange>,
    key: Seq<char>,
    last: int,
)
    requires
        is_trace(order, trace),
        trace.len() > 0,
        trace.last().reply == WriteReplyView::Commit(Ok(CasOutcome::Committed)),
        ({
            let before = trace.last().before;
            reads_back(merged(flat_object(before.texts[before.current])->0, order.edits))
        }),
    ensures
        ({
            let before = trace.last().before;
            let after = trace.last().after;
            let was = flat_object(before.texts[before.current])->0;
            let now = flat_object(after.texts[after.current])->0;
            &&& flat_object(after.texts[after.current]) is Some
            &&& !touches(order.edits, key) ==> {
                &&& now.dom().contains(key) == was.dom().contains(key)
                &&& was.dom().contains(key) && !is_fractional(was[key]) ==> now[key] == was[key]
                &&& was.dom().contains(key) && is_fractional(was[key]) ==> now[key] is Number
            }
            &&& is_last_edit(order.edits, last, key) ==> match order.edits[last] {
                EnvEditView::Put { value, .. } => now.dom().contains(key) && now[key]
                    == Json::Text(value),
                EnvEditView::Remove { .. } => !now.dom().contains(key),
            }
        }),
{
    a_write_never_stomps(order, trace);
    let before = trace.last().before;
    let was = flat_object(before.texts[before.current])->0;
    if !touches(order.edits, key) {
        merge_keeps_untouched_keys(was, order.edits, key);
    }
    if is_last_edit(order.edits, last, key) {
        merge_obeys_the_last_edit(was, order.edits, last);
    }
}

// ---------------------------------------------------------------------------
// A write on what it reads
// ---------------------------------------------------------------------------

/// What was read is a text that parses as the JSON object `fields`, none of whose values
/// is an array or an object, and it was read at `version`.
pub open spec fn reads_as(
    read: ReadSecretView,
    fields: Map<Seq<char>, Json>,
    version: Seq<char>,
) -> bool {
    &&& read.raw.secret_string is Some
    &&& json_parsed(read.raw.secret_string->0) == Some(Json::Object(fields))
    &&& forall|k: Seq<char>| #[trigger]
        fields.dom().contains(k) ==> !(fields[k] is Array) && !(fields[k] is Object)
    &&& read.version_id == Some(version)
}

/// `key` is in one of the two objects alone, or is in both with different values. The two
/// zeros of floating point are one value.
pub open spec fn differs_at(
    a: Map<Seq<char>, Json>,
    b: Map<Seq<char>, Json>,
    key: Seq<char>,
) -> bool {
    ||| a.dom().contains(key) != b.dom().contains(key)
    ||| {
        &&& a.dom().contains(key)
        &&& b.dom().contains(key)
        &&& a[key] != b[key]
        &&& !{
            &&& a[key] == Json::Number("0.0"@) || a[key] == Json::Number("-0.0"@)
            &&& b[key] == Json::Number("0.0"@) || b[key] == Json::Number("-0.0"@)
        }
    }
}

/// A write that reads again is a conflict, and stages nothing more, where some key it
/// edits has come, gone or changed its value since its previous read.
pub proof fn a_key_that_came_or_went_or_changed_is_a_conflict(
    order: WriteOrderView,
    replies: Seq<WriteReplyView>,
    read: ReadSecretView,
    fresh: Seq<char>,
    was: Map<Seq<char>, Json>,
    was_at: Seq<char>,
    now: Map<Seq<char>, Json>,
    now_at: Seq<char>,
    i: int,
)
    requires
        is_run(order, replies),
        run(order, replies) is Read,
        last_read(replies) is Some,
        reads_as(last_read(replies)->0, was, was_at),
        reads_as(read, now, now_at),
        0 <= i < order.edits.len(),
        differs_at(was, now, order.edits[i].key()),
    ensures
        run(order, replies.push(WriteReplyView::Read { reply: Ok(read), fresh }))
            == WriteStepView::Done(Ok(WriteOutcome::Conflict)),
{
    lemma_remembers(order, replies);
    let more = replies.push(WriteReplyView::Read { reply: Ok(read), fresh });
    assert(more.drop_last() =~= replies);
    let a = values_at(was, order.edits);
    let b = values_at(now, order.edits);
    assert(fields_of(last_read(replies)->0) == was);
    assert(!all_unchanged(b, a)) by {
        assert(0 <= i < a.len());
        assert(b[i] == (if now.dom().contains(order.edits[i].key()) {
            Some(now[order.edits[i].key()])
        } else {
            None
        }));
    }
}

/// Every key the edits touch holds what its last edit put there, or is gone where that
/// removed it.
pub open spec fn in_effect(fields: Map<Seq<char>, Json>, edits: Seq<EnvEditView>) -> bool {
    forall|i: int|
        0 <= i < edits.len() && is_last_edit(edits, i, edits[i].key()) ==> match (
        #[trigger] edits[i]) {
            EnvEditView::Put { key, value } => fields.dom().contains(key) && fields[key]
                == Json::Text(value),
            EnvEditView::Remove { key } => !fields.dom().contains(key),
        }
}

/// `after` is `before` with the edits in effect and every other key as it was.
pub open spec fn edits_applied(
    before: Map<Seq<char>, Json>,
    edits: Seq<EnvEditView>,
    after: Map<Seq<char>, Json>,
) -> bool {
    &&& in_effect(after, edits)
    &&& forall|k: Seq<char>|
        !touches(edits, k) ==> {
            &&& #[trigger] after.dom().contains(k) == before.dom().contains(k)
            &&& before.dom().contains(k) ==> after[k] == before[k]
        }
}

/// A merge is its object with the edits in effect and every other key as it was.
pub proof fn a_merge_applies_its_edits(fields: Map<Seq<char>, Json>, edits: Seq<EnvEditView>)
    ensures
        edits_applied(fields, edits, merged(fields, edits)),
{
    let after = merged(fields, edits);
    assert forall|i: int|
        0 <= i < edits.len() && is_last_edit(edits, i, edits[i].key()) implies match (
    #[trigger] edits[i]) {
        EnvEditView::Put { key, value } => after.dom().contains(key) && after[key] == Json::Text(
            value,
        ),
        EnvEditView::Remove { key } => !after.dom().contains(key),
    } by {
        merge_obeys_the_last_edit(fields, edits, i);
    }
    assert forall|k: Seq<char>| !touches(edits, k) implies {
        &&& #[trigger] after.dom().contains(k) == fields.dom().contains(k)
        &&& fields.dom().contains(k) ==> after[k] == fields[k]
    } by {
        merge_keeps_untouched_keys(fields, edits, k);
    }
}

proof fn lemma_same_object_in_effect(fields: Map<Seq<char>, Json>, edits: Seq<EnvEditView>)
    ensures
        same_object(merged(fields, edits), fields) <==> in_effect(fields, edits),
{
    let after = merged(fields, edits);
    a_merge_applies_its_edits(fields, edits);
    if same_object(after, fields) {
        assert forall|i: int|
            0 <= i < edits.len() && is_last_edit(edits, i, edits[i].key()) implies match (
        #[trigger] edits[i]) {
            EnvEditView::Put { key, value } => fields.dom().contains(key) && fields[key]
                == Json::Text(value),
            EnvEditView::Remove { key } => !fields.dom().contains(key),
        } by {
            let key = edits[i].key();
            assert(after.dom().contains(key) == fields.dom().contains(key));
        }
    }
    if in_effect(fields, edits) {
        assert forall|k: Seq<char>| #[trigger] after.dom().contains(k) == fields.dom().contains(
            k,
        ) && (after.dom().contains(k) ==> after[k] == fields[k]) by {
            if touches(edits, k) {
                let last = lemma_last_touch(edits, k);
                assert(edits[last].key() == k);
            }
        }
        assert(after.dom() =~= fields.dom());
    }
}

/// A write goes on where no key it edits differs between its two reads, and at its first
/// read always: it stages, or ends as applied where the edits are in effect already. It
/// is no conflict.
pub proof fn a_write_goes_on_where_nothing_changed(
    order: WriteOrderView,
    replies: Seq<WriteReplyView>,
    read: ReadSecretView,
    fresh: Seq<char>,
    was: Map<Seq<char>, Json>,
    was_at: Seq<char>,
    now: Map<Seq<char>, Json>,
    now_at: Seq<char>,
)
    requires
        is_run(order, replies),
        run(order, replies) is Read,
        reads_as(read, now, now_at),
        last_read(replies) is Some ==> reads_as(last_read(replies)->0, was, was_at) && forall|
            i: int,
        |
            0 <= i < order.edits.len() ==> !differs_at(
                was,
                now,
                (#[trigger] order.edits[i]).key(),
            ),
    ensures
        ({
            let next = run(order, replies.push(WriteReplyView::Read { reply: Ok(read), fresh }));
            &&& in_effect(now, order.edits) ==> next == WriteStepView::Done(
                Ok(WriteOutcome::Applied),
            )
            &&& !in_effect(now, order.edits) ==> next is Put && next->Put_base == now_at && exists|
                staged: Map<Seq<char>, Json>,
            |
                next->payload == #[trigger] json_text(staged) && edits_applied(
                    now,
                    order.edits,
                    staged,
                )
        }),
{
    lemma_remembers(order, replies);
    let more = replies.push(WriteReplyView::Read { reply: Ok(read), fresh });
    assert(more.drop_last() =~= replies);
    lemma_same_object_in_effect(now, order.edits);
    a_merge_applies_its_edits(now, order.edits);
    assert(flat_object(read.raw.secret_string->0) == Some(now));
    if last_read(replies) is Some {
        let a = values_at(was, order.edits);
        let b = values_at(now, order.edits);
        assert(fields_of(last_read(replies)->0) == was);
        assert(all_unchanged(b, a)) by {
            assert forall|i: int| 0 <= i < a.len() implies crate::aws::secret_write::unchanged(
                #[trigger] b[i],
                a[i],
            ) by {
                assert(!differs_at(was, now, order.edits[i].key()));
            }
        }
    }
}

/// A write that cannot use what it read ends there, without staging: a read that failed
/// ends it with that error; bytes, a text that is no JSON object, and an object with a
/// nested value are not flat; and without a version there is nothing to compare with.
pub proof fn an_unusable_read_ends_the_write(
    order: WriteOrderView,
    replies: Seq<WriteReplyView>,
    reply: Result<ReadSecretView, SessionErrorView>,
    fresh: Seq<char>,
)
    requires
        is_run(order, replies),
        run(order, replies) is Read,
    ensures
        ({
            let next = run(order, replies.push(WriteReplyView::Read { reply, fresh }));
            match reply {
                Err(e) => next == WriteStepView::Done(Err(SecretWriteErrorView::Session(e))),
                Ok(read) => {
                    let parsed = json_parsed(read.raw.secret_string->0);
                    &&& read.raw.secret_string is None ==> next == WriteStepView::Done(
                        Err(SecretWriteErrorView::NotFlat),
                    )
                    &&& read.raw.secret_string is Some && !(parsed is Some
                        && parsed->0 is Object) ==> next == WriteStepView::Done(
                        Err(SecretWriteErrorView::NotFlat),
                    )
                    &&& forall|k: Seq<char>|
                        read.raw.secret_string is Some && parsed is Some && parsed->0 is Object
                            && #[trigger] parsed->0->Object_0.dom().contains(k) && (
                        parsed->0->Object_0[k] is Array || parsed->0->Object_0[k] is Object)
                            ==> next == WriteStepView::Done(Err(SecretWriteErrorView::NotFlat))
                    &&& read.version_id is None ==> next is Done && next->Done_0 is Err
                }
            }
        }),
{
    let more = replies.push(WriteReplyView::Read { reply, fresh });
    assert(more.drop_last() =~= replies);
}

/// A read of a flat object that names no version is an error of its own.
pub proof fn a_read_without_a_version_is_an_error(
    order: WriteOrderView,
    replies: Seq<WriteReplyView>,
    read: ReadSecretView,
    fresh: Seq<char>,
    fields: Map<Seq<char>, Json>,
    any: Seq<char>,
)
    requires
        is_run(order, replies),
        run(order, replies) is Read,
        read.version_id is None,
        reads_as(ReadSecretView { version_id: Some(any), ..read }, fields, any),
    ensures
        run(order, replies.push(WriteReplyView::Read { reply: Ok(read), fresh }))
            == WriteStepView::Done(
            Err(
                SecretWriteErrorView::Session(
                    SessionErrorView::Sdk { context: "GetSecretValue: no VersionId"@ },
                ),
            ),
        ),
{
    let more = replies.push(WriteReplyView::Read { reply: Ok(read), fresh });
    assert(more.drop_last() =~= replies);
}

/// A write begins with a read, unless an edit names no key: then it makes no call at all.
pub proof fn edits_without_a_key_make_no_call(order: WriteOrderView)
    ensures
        (forall|i: int| 0 <= i < order.edits.len() ==> (#[trigger] order.edits[i]).key().len() > 0)
            ==> run(order, Seq::empty()) is Read,
        forall|i: int|
            0 <= i < order.edits.len() && (#[trigger] order.edits[i]).key().len() == 0 ==> run(
                order,
                Seq::empty(),
            ) == WriteStepView::Done(Err(SecretWriteErrorView::Edit(EnvWriteError::InvalidKey))),
{
}

/// A staged version is the one the current label is moved to, and taken from the version
/// that was read; a staging that failed ends the write with its error.
pub proof fn what_is_staged_is_what_is_committed(
    order: WriteOrderView,
    replies: Seq<WriteReplyView>,
    reply: Result<Seq<char>, SessionErrorView>,
)
    requires
        is_run(order, replies),
        run(order, replies) is Put,
    ensures
        ({
            let step = run(order, replies);
            let next = run(order, replies.push(WriteReplyView::Put(reply)));
            match reply {
                Ok(staged) => next is Commit && next->Commit_staged == staged && Some(
                    next->Commit_base,
                ) == last_read(replies)->0.version_id && next->Commit_pending == step->Put_pending,
                Err(e) => next == WriteStepView::Done(Err(SecretWriteErrorView::Session(e))),
            }
        }),
{
    lemma_remembers(order, replies);
    assert(replies.push(WriteReplyView::Put(reply)).drop_last() =~= replies);
}

/// After the move of the label the pending label is stripped off the staged version. Where
/// the label moved, the edits are then applied; where it did not, the write reads once
/// more, and after its third read gives up as a conflict. A move that failed ends the
/// write with its error.
pub proof fn a_move_decides_the_write(
    order: WriteOrderView,
    replies: Seq<WriteReplyView>,
    reply: Result<CasOutcome, SessionErrorView>,
)
    requires
        is_run(order, replies),
        run(order, replies) is Commit,
    ensures
        ({
            let step = run(order, replies);
            let next = run(order, replies.push(WriteReplyView::Commit(reply)));
            let then = run(
                order,
                replies.push(WriteReplyView::Commit(reply)).push(WriteReplyView::Strip),
            );
            match reply {
                Ok(outcome) => {
                    &&& next is Strip
                    &&& next->Strip_staged == step->Commit_staged
                    &&& next->Strip_pending == step->Commit_pending
                    &&& outcome is Committed ==> then == WriteStepView::Done(
                        Ok(WriteOutcome::Applied),
                    )
                    &&& outcome is Mismatch && count(replies, |r: WriteReplyView| is_read(r)) < 3
                        ==> then is Read
                    &&& outcome is Mismatch && count(replies, |r: WriteReplyView| is_read(r)) >= 3
                        ==> then == WriteStepView::Done(Ok(WriteOutcome::Conflict))
                },
                Err(e) => next == WriteStepView::Done(Err(SecretWriteErrorView::Session(e))),
            }
        }),
{
    lemma_remembers(order, replies);
    let more = replies.push(WriteReplyView::Commit(reply));
    assert(more.drop_last() =~= replies);
    assert(more.push(WriteReplyView::Strip).drop_last() =~= more);
}

/// The payload and the token of the last staging that was answered.
pub open spec fn last_staged(order: WriteOrderView, replies: Seq<WriteReplyView>) -> Option<
    (Seq<char>, Seq<char>),
>
    decreases replies.len(),
{
    if replies.len() == 0 {
        None
    } else {
        match replies.last() {
            WriteReplyView::Put(_) => {
                let step = run(order, replies.drop_last());
                Some((step->payload, step->token))
            },
            _ => last_staged(order, replies.drop_last()),
        }
    }
}

/// What every step remembers of the last staging.
spec fn remembers_staging(order: WriteOrderView, replies: Seq<WriteReplyView>) -> bool {
    let step = run(order, replies);
    match step {
        WriteStepView::Put { memory, payload, token, .. } => memory.prev_merge == Some(
            (payload, token),
        ),
        WriteStepView::Done(_) => true,
        _ => memory_of(step).prev_merge == last_staged(order, replies),
    }
}

proof fn lemma_remembers_staging(order: WriteOrderView, replies: Seq<WriteReplyView>)
    requires
        is_run(order, replies),
    ensures
        remembers_staging(order, replies),
    decreases replies.len(),
{
    if replies.len() > 0 {
        lemma_remembers_staging(order, replies.drop_last());
    }
}

/// A payload is staged under a fresh token, unless it is the very one that was staged
/// last: that goes under the token it had, so the service takes both for one request.
/// The pending label names the token.
pub proof fn a_token_goes_with_its_payload(
    order: WriteOrderView,
    replies: Seq<WriteReplyView>,
    read: ReadSecretView,
    fresh: Seq<char>,
)
    requires
        is_run(order, replies),
        run(order, replies) is Read,
        run(order, replies.push(WriteReplyView::Read { reply: Ok(read), fresh })) is Put,
    ensures
        ({
            let next = run(order, replies.push(WriteReplyView::Read { reply: Ok(read), fresh }));
            &&& next->token == match last_staged(order, replies) {
                Some((payload, token)) => if payload == next->payload {
                    token
                } else {
                    fresh
                },
                None => fresh,
            }
            &&& next->Put_pending == "janitor-pending-"@ + next->token
        }),
{
    lemma_remembers_staging(order, replies);
    let more = replies.push(WriteReplyView::Read { reply: Ok(read), fresh });
    assert(more.drop_last() =~= replies);
}

/// The moment the current label moves to what a write staged, the text it moves to has
/// the edits in effect, and every other key of the text that was current until then.
pub proof fn a_commit_keeps_every_other_key(order: WriteOrderView, trace: Seq<Exchange>)
    requires
        is_trace(order, trace),
        trace.len() > 0,
        trace.last().reply == WriteReplyView::Commit(Ok(CasOutcome::Committed)),
    ensures
        ({
            let before = trace.last().before;
            let after = trace.last().after;
            exists|was: Map<Seq<char>, Json>, now: Map<Seq<char>, Json>|
                {
                    &&& json_parsed(before.texts[before.current]) == Some(Json::Object(was))
                    &&& after.texts[after.current] == json_text(now)
                    &&& #[trigger] edits_applied(was, order.edits, now)
                }
        }),
{
    a_write_never_stomps(order, trace);
    let before = trace.last().before;
    let after = trace.last().after;
    let was = flat_object(before.texts[before.current])->0;
    a_merge_applies_its_edits(was, order.edits);
    let now = merged(was, order.edits);
    assert(json_parsed(before.texts[before.current]) == Some(Json::Object(was)));
    assert(after.texts[after.current] == json_text(now));
}

/// A write that ends as applied without moving the label found its edits in effect.
pub proof fn applied_without_a_move_was_in_effect(
    order: WriteOrderView,
    replies: Seq<WriteReplyView>,
    read: ReadSecretView,
    fresh: Seq<char>,
    fields: Map<Seq<char>, Json>,
    version: Seq<char>,
)
    requires
        is_run(order, replies),
        run(order, replies) is Read,
        reads_as(read, fields, version),
        run(order, replies.push(WriteReplyView::Read { reply: Ok(read), fresh }))
            == WriteStepView::Done(Ok(WriteOutcome::Applied)),
    ensures
        in_effect(fields, order.edits),
{
    lemma_remembers(order, replies);
    let more = replies.push(WriteReplyView::Read { reply: Ok(read), fresh });
    assert(more.drop_last() =~= replies);
    lemma_same_object_in_effect(fields, order.edits);
    assert(flat_object(read.raw.secret_string->0) == Some(fields));
}

/// A write ends as applied only after a move of the label that was answered with success,
/// or at a read.
pub proof fn applied_follows_a_move(order: WriteOrderView, replies: Seq<WriteReplyView>)
    requires
        is_run(order, replies),
        run(order, replies) == WriteStepView::Done(Ok(WriteOutcome::Applied)),
    ensures
        replies.len() > 0,
        replies.last() is Read || {
            &&& replies.len() >= 2
            &&& replies.last() is Strip
            &&& replies[replies.len() - 2] == WriteReplyView::Commit(Ok(CasOutcome::Committed))
        },
{
    let before = replies.drop_last();
    assert(replies.len() > 0);
    lemma_remembers(order, before);
    if replies.last() is Strip {
        assert(before.len() > 0);
        assert(before.last() == replies[replies.len() - 2]);
    }
}

} // verus!

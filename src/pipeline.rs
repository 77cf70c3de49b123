//! The reporting pipeline: from a failure to one counted record and one
//! live notification, and from a notification back to the full text.
use crate::channel::{with_footer, Board, ChannelError};
use crate::fingerprint::{fingerprint, fingerprint_of};
use crate::notify::{
    footer_text, is_rendering, is_view_payload_request, occurrence_footer, render_notification,
    Notification, ReportContext, VIEW_PAYLOAD_ACTION,
};
use crate::store::{
    bumped, finalize_step, occurrence_step, DedupStore, FinalizeOutcome, Outcome, Records,
    StoreError,
};
use vstd::prelude::*;

verus! {

/// What a reporter does after counting an occurrence.
pub enum Action {
    /// Show the new count in the footer of the known notification.
    EditFooter(u64, String),
    /// Post a candidate notification and settle it with `finalize_new`.
    PostCandidate,
}

/// Decides the next step from the store's answer to `record_occurrence`.
pub fn after_record(outcome: Outcome) -> (r: Action)
    ensures
        outcome matches Outcome::Repeated(c, n) ==> (r matches Action::EditFooter(c2, f) && c2 == c
            && f@ == footer_text(n as nat)),
        outcome is New ==> r is PostCandidate,
{
    match outcome {
        Outcome::Repeated(c, n) => Action::EditFooter(c, occurrence_footer(n)),
        Outcome::New => Action::PostCandidate,
    }
}

/// What a reporter does after settling its candidate.
pub enum Settlement {
    /// The candidate is the canonical notification.
    Keep,
    /// The candidate lost: delete it, and show the count from the store on
    /// the canonical notification.
    Reconcile { discard: u64, canonical: u64, footer: String },
}

/// Decides the next step from the store's answer to `finalize_new` for
/// `candidate`.
pub fn after_finalize(candidate: u64, outcome: FinalizeOutcome) -> (r: Settlement)
    ensures
        outcome is Won ==> r is Keep,
        outcome matches FinalizeOutcome::Lost(c, n) ==> (r matches Settlement::Reconcile {
            discard,
            canonical,
            footer,
        } && discard == candidate && canonical == c && footer@ == footer_text(n as nat)),
{
    match outcome {
        FinalizeOutcome::Won(_) => Settlement::Keep,
        FinalizeOutcome::Lost(c, n) => Settlement::Reconcile {
            discard: candidate,
            canonical: c,
            footer: occurrence_footer(n),
        },
    }
}

/// How the deletion of a losing candidate ended.
#[derive(Clone, Copy, Debug, PartialEq, Eq)]
pub enum DeleteStatus {
    Deleted,
    /// The reference was already gone: nothing more to do.
    AlreadyAbsent,
    /// The channel refused: the orphan stays in place and is not retried.
    Failed,
}

/// Reads the channel's answer to a delete.
pub fn delete_status(r: Result<(), ChannelError>) -> (s: DeleteStatus)
    ensures
        r is Ok <==> s == DeleteStatus::Deleted,
        r == Err::<(), ChannelError>(ChannelError::NotFound) <==> s == DeleteStatus::AlreadyAbsent,
{
    match r {
        Ok(()) => DeleteStatus::Deleted,
        Err(ChannelError::NotFound) => DeleteStatus::AlreadyAbsent,
        Err(_) => DeleteStatus::Failed,
    }
}

/// How one report ended.
#[derive(Clone, Copy, Debug, PartialEq, Eq)]
pub enum ReportOutcome {
    /// A known failure: its notification and its new count.
    Repeated(u64, u64),
    /// A new failure, now shown by this notification.
    Won(u64),
    /// Another report created the record first: its notification and the
    /// new count; this report's candidate was deleted.
    Reconciled(u64, u64),
    /// A new failure whose notification the channel refused; nothing was
    /// recorded.
    NotPosted,
}

/// The notifications that the records refer to.
pub open spec fn refs_of(m: Records) -> Set<u64> {
    Set::new(|c: u64| exists|k: Seq<u8>| m.contains_key(k) && m[k].notification_ref == c)
}

/// Store and channel agree: the live notifications are exactly those that
/// the records refer to, one for each record.
pub open spec fn in_step(m: Records, live: Map<u64, Notification>) -> bool {
    &&& live.dom() == refs_of(m)
    &&& forall|k1: Seq<u8>, k2: Seq<u8>|
        m.contains_key(k1) && m.contains_key(k2) && k1 != k2 ==> m[k1].notification_ref
            != m[k2].notification_ref
}

/// A fresh store and a fresh channel are in step, so every run of
/// `report` from them keeps one live notification per record.
pub proof fn lemma_fresh_in_step()
    ensures
        in_step(Map::<Seq<u8>, crate::store::RecordView>::empty(), Map::<u64, Notification>::empty()),
{
    assert(refs_of(Map::<Seq<u8>, crate::store::RecordView>::empty()) =~= Set::<u64>::empty());
    assert(Map::<u64, Notification>::empty().dom() =~= Set::<u64>::empty());
}

proof fn lemma_refs_bumped(m: Records, fp: Seq<u8>)
    requires
        m.contains_key(fp),
    ensures
        refs_of(m.insert(fp, bumped(m[fp]))) == refs_of(m),
{
    let m2 = m.insert(fp, bumped(m[fp]));
    assert forall|c: u64| refs_of(m).contains(c) implies refs_of(m2).contains(c) by {
        let k = choose|k: Seq<u8>| m.contains_key(k) && m[k].notification_ref == c;
        assert(m2.contains_key(k) && m2[k].notification_ref == c);
    }
    assert forall|c: u64| refs_of(m2).contains(c) implies refs_of(m).contains(c) by {
        let k = choose|k: Seq<u8>| m2.contains_key(k) && m2[k].notification_ref == c;
        assert(m.contains_key(k) && m[k].notification_ref == c);
    }
    assert(refs_of(m2) =~= refs_of(m));
}

/// Reports one failure whose full diagnostic text is `payload` and whose
/// headline comes from `headline_text`. A known failure is counted and its
/// notification shows the new count. A new one gets a candidate
/// notification, which the store's upsert either keeps or rejects in
/// favour of a concurrent winner; a rejected candidate is deleted and the
/// winner shows the store's count. Only a store failure is an error;
/// channel failures are absorbed.
pub fn report(
    store: &mut DedupStore,
    board: &mut Board,
    payload: &str,
    headline_text: &str,
    ctx: &ReportContext,
) -> (r: Result<ReportOutcome, StoreError>)
    requires
        old(store).wf(),
        old(board).wf(),
    ensures
        final(store).wf(),
        final(board).wf(),
        ({
            let fp = fingerprint_of(payload@);
            let (m1, r1) = occurrence_step(old(store)@, fp);
            match r1 {
                Err(e) => r == Err::<ReportOutcome, StoreError>(e) && final(store)@ == old(store)@
                    && final(board)@ == old(board)@,
                Ok(Outcome::Repeated(c, n)) => {
                    &&& r == Ok::<ReportOutcome, StoreError>(ReportOutcome::Repeated(c, n))
                    &&& final(store)@ == m1
                    &&& old(board)@.contains_key(c) ==> final(board)@ == old(board)@.insert(
                        c,
                        with_footer(old(board)@[c], final(board)@[c].footer),
                    ) && final(board)@[c].footer@ == footer_text(n as nat)
                    &&& !old(board)@.contains_key(c) ==> final(board)@ == old(board)@
                },
                Ok(Outcome::New) => {
                    ||| r == Ok::<ReportOutcome, StoreError>(ReportOutcome::NotPosted)
                        && old(board).exhausted() && final(store)@ == old(store)@ && final(board)@
                        == old(board)@
                    ||| exists|c: u64|
                        {
                            &&& !old(board).exhausted()
                            &&& !old(board)@.contains_key(c)
                            &&& final(store)@ == finalize_step(m1, fp, payload@, c).0
                            &&& match finalize_step(m1, fp, payload@, c).1 {
                                Err(e) => r == Err::<ReportOutcome, StoreError>(e) && final(board)@
                                    == old(board)@,
                                Ok(FinalizeOutcome::Won(_)) => {
                                    &&& r == Ok::<ReportOutcome, StoreError>(ReportOutcome::Won(c))
                                    &&& final(board)@.remove(c) == old(board)@
                                    &&& final(board)@.contains_key(c)
                                    &&& is_rendering(headline_text@, *ctx, final(board)@[c])
                                },
                                Ok(FinalizeOutcome::Lost(w, n)) => {
                                    &&& r == Ok::<ReportOutcome, StoreError>(
                                        ReportOutcome::Reconciled(w, n),
                                    )
                                    &&& !final(board)@.contains_key(c)
                                    &&& old(board)@.contains_key(w) ==> final(board)@
                                        == old(board)@.insert(
                                        w,
                                        with_footer(old(board)@[w], final(board)@[w].footer),
                                    ) && final(board)@[w].footer@ == footer_text(n as nat)
                                    &&& !old(board)@.contains_key(w) ==> final(board)@
                                        == old(board)@
                                },
                            }
                        }
                },
            }
        }),
        in_step(old(store)@, old(board)@) ==> in_step(final(store)@, final(board)@),
{
    let fp = fingerprint(payload);
    let outcome = match store.record_occurrence(fp.as_slice()) {
        Ok(o) => o,
        Err(e) => return Err(e),
    };
    match after_record(outcome) {
        Action::EditFooter(c, footer) => {
            let _ = board.edit_footer(c, footer);
            proof {
                if in_step(old(store)@, old(board)@) {
                    lemma_refs_bumped(old(store)@, fp@);
                    assert(final(board)@.dom() =~= old(board)@.dom());
                }
            }
            match outcome {
                Outcome::Repeated(c, n) => Ok(ReportOutcome::Repeated(c, n)),
                Outcome::New => Ok(ReportOutcome::NotPosted),
            }
        },
        Action::PostCandidate => {
            let note = render_notification(headline_text, ctx);
            let candidate = match board.post(note) {
                Ok(c) => c,
                Err(_) => return Ok(ReportOutcome::NotPosted),
            };
            let ghost posted = board@;
            let settled = match store.finalize_new(fp.as_slice(), payload, candidate) {
                Ok(f) => f,
                Err(e) => {
                    let _ = board.delete(candidate);
                    assert(board@ =~= old(board)@);
                    return Err(e);
                },
            };
            match after_finalize(candidate, settled) {
                Settlement::Keep => {
                    proof {
                        assert(board@.remove(candidate) =~= old(board)@);
                        if in_step(old(store)@, old(board)@) {
                            let m = old(store)@;
                            let m2 = store@;
                            assert forall|x: u64| refs_of(m2).contains(x) <==> board@.dom().contains(x) by {
                                if refs_of(m2).contains(x) {
                                    let k = choose|k: Seq<u8>| m2.contains_key(k) && m2[k].notification_ref == x;
                                    if k != fp@ {
                                        assert(refs_of(m).contains(x));
                                    }
                                }
                                if board@.dom().contains(x) && x != candidate {
                                    assert(refs_of(m).contains(x));
                                    let k = choose|k: Seq<u8>| m.contains_key(k) && m[k].notification_ref == x;
                                    assert(m2.contains_key(k) && m2[k].notification_ref == x);
                                }
                                if x == candidate {
                                    assert(m2.contains_key(fp@) && m2[fp@].notification_ref == x);
                                }
                            }
                            assert(board@.dom() =~= refs_of(m2));
                            assert forall|k1: Seq<u8>, k2: Seq<u8>|
                                m2.contains_key(k1) && m2.contains_key(k2) && k1 != k2 implies m2[k1].notification_ref
                                    != m2[k2].notification_ref by {
                                if k1 == fp@ {
                                    assert(refs_of(m).contains(m[k2].notification_ref));
                                } else if k2 == fp@ {
                                    assert(refs_of(m).contains(m[k1].notification_ref));
                                }
                            }
                        }
                    }
                    Ok(ReportOutcome::Won(candidate))
                },
                Settlement::Reconcile { discard, canonical, footer } => {
                    let _ = delete_status(board.delete(discard));
                    let ghost pruned = board@;
                    assert(pruned =~= old(board)@);
                    let _ = board.edit_footer(canonical, footer);
                    proof {
                        if in_step(old(store)@, old(board)@) {
                            lemma_refs_bumped(old(store)@, fp@);
                            assert(board@.dom() =~= old(board)@.dom());
                        }
                    }
                    match settled {
                        FinalizeOutcome::Lost(w, n) => Ok(ReportOutcome::Reconciled(w, n)),
                        FinalizeOutcome::Won(_) => Ok(ReportOutcome::Won(candidate)),
                    }
                },
            }
        },
    }
}

/// The answer to an inbound action.
pub enum Retrieval {
    /// The action is not a request for a diagnostic text.
    Ignored,
    /// The full text, to be sent privately as an attachment with this name.
    Attachment(String, String),
    /// No record refers to the notification; this text says so.
    NotFound(String),
}

/// Serves an inbound action with discriminator `custom_id` on the
/// notification `notification_ref`: a request for the full diagnostic text
/// gets the text of the record that refers to the notification, or a plain
/// not-found answer. Nothing changes.
pub fn interaction_create(store: &DedupStore, custom_id: &str, notification_ref: u64) -> (r: Retrieval)
    requires
        store.wf(),
    ensures
        custom_id@ != VIEW_PAYLOAD_ACTION@ ==> r is Ignored,
        custom_id@ == VIEW_PAYLOAD_ACTION@ ==> {
            &&& !(r is Ignored)
            &&& r is NotFound <==> forall|k: Seq<u8>|
                #[trigger] store@.contains_key(k) ==> store@[k].notification_ref != notification_ref
            &&& r matches Retrieval::Attachment(name, text) ==> name@ == "traceback.txt"@ && exists|
                k: Seq<u8>,
            |
                #[trigger] store@.contains_key(k) && store@[k].notification_ref == notification_ref
                    && store@[k].payload == text@
            &&& r matches Retrieval::NotFound(msg) ==> msg@ == "No traceback found."@
        },
{
    if !is_view_payload_request(custom_id) {
        return Retrieval::Ignored;
    }
    match store.fetch_payload(notification_ref) {
        Some(text) => Retrieval::Attachment("traceback.txt".to_owned(), text),
        None => Retrieval::NotFound("No traceback found.".to_owned()),
    }
}

/// The analytics event logged when the gateway session resumes: its name,
/// and that it is no command.
pub fn resume() -> (r: (&'static str, bool))
    ensures
        r.0@ == "resumed"@,
        !r.1,
{
    ("resumed", false)
}

} // verus!

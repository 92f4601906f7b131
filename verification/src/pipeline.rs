//! The two operations of the service, as decisions between the steps that only
//! the outside can take.
//!
//! Creating a paste asks the abuse gate, counts the creation against the
//! client's quota, seals the text, stores it and encodes the identifier that
//! the store assigned. The driver performs each action that `create_step`
//! returns and comes back with what happened. Nothing is tried twice.
//!
//! ```text
//! Start -> AbuseChecked -> QuotaChecked -> Encrypted -> Persisted -> Encoded -> Done
//! ```
//!
//! From each stage but `Done` a creation can leave to `Rejected`.
//!
//! Retrieving a paste decodes the token, fetches the record and opens it.

use vstd::prelude::*;
use vstd::string::*;
use crate::codec::{base62_text, decode_id, decoded, encode_id};
use vstd::utf8::encode_utf8;
use crate::crypto::{decrypt_paste, encrypt_paste, is_sealing, opened_text, KEY_LEN};
use crate::error::PasteError;
use crate::paste::{
    chars_of,
    display_name,
    stored_name,
    NewPaste,
    PasteContent,
    PasteSubmission,
    StoredPaste,
};
use crate::quota::{check_rate_limit, verdict};

verus! {

/// The stage that a creation has reached.
#[derive(Clone, Debug, PartialEq, Eq)]
pub enum CreateStage {
    /// Nothing is decided yet: the abuse gate is to be asked.
    Start,
    /// The abuse gate let the request pass: a quota slot is to be consumed.
    AbuseChecked,
    /// The quota allows the creation: the text is to be sealed.
    QuotaChecked,
    /// The text is sealed: it is to be stored.
    Encrypted,
    /// The store has taken the paste under this identifier.
    Persisted(i64),
    /// The identifier is encoded as this short token.
    Encoded(String),
    /// The short token was handed out.
    Done,
    /// The creation ended without a short token, for the given reason.
    Rejected(PasteError),
}

/// What moves a creation on.
#[derive(Clone, Copy, Debug, PartialEq, Eq, Structural)]
pub enum CreateEvent {
    /// The abuse gate's answer: `Some(true)` for a human, `None` for no answer.
    AbuseVerdict(Option<bool>),
    /// The count after the quota slot was consumed; `None` where the store failed.
    SlotConsumed(Option<i32>),
    /// The identifier that the store assigned; `None` where the store failed.
    Inserted(Option<i64>),
    /// Nothing happened outside: the creation goes on by itself.
    Proceed,
}

/// What is to be done next.
#[derive(Clone, Debug, PartialEq, Eq)]
pub enum CreateAction {
    /// Resolve the client's identity and consume a quota slot for it.
    ConsumeSlot,
    /// Nothing outside: go on with `Proceed`.
    Continue,
    /// Insert the paste into the store.
    Insert(NewPaste),
    /// Answer with the short token.
    Respond(String),
    /// Answer with the failure.
    Reject(PasteError),
    /// Nothing: the request was answered before.
    Idle,
}

/// A `CreateStage` with its token as a sequence of characters.
pub enum StageView {
    Start,
    AbuseChecked,
    QuotaChecked,
    Encrypted,
    Persisted(i64),
    Encoded(Seq<char>),
    Done,
    Rejected(PasteError),
}

/// A `CreateAction` with its texts as sequences of characters.
pub enum ActionView {
    ConsumeSlot,
    Continue,
    Insert { name: Seq<char>, ciphertext: Seq<char>, language: Seq<char> },
    Respond(Seq<char>),
    Reject(PasteError),
    Idle,
}

impl View for CreateStage {
    type V = StageView;

    open spec fn view(&self) -> StageView {
        match *self {
            CreateStage::Start => StageView::Start,
            CreateStage::AbuseChecked => StageView::AbuseChecked,
            CreateStage::QuotaChecked => StageView::QuotaChecked,
            CreateStage::Encrypted => StageView::Encrypted,
            CreateStage::Persisted(id) => StageView::Persisted(id),
            CreateStage::Encoded(token) => StageView::Encoded(token@),
            CreateStage::Done => StageView::Done,
            CreateStage::Rejected(reason) => StageView::Rejected(reason),
        }
    }
}

impl View for CreateAction {
    type V = ActionView;

    open spec fn view(&self) -> ActionView {
        match *self {
            CreateAction::ConsumeSlot => ActionView::ConsumeSlot,
            CreateAction::Continue => ActionView::Continue,
            CreateAction::Insert(paste) => ActionView::Insert {
                name: paste.name@,
                ciphertext: paste.ciphertext@,
                language: paste.language@,
            },
            CreateAction::Respond(token) => ActionView::Respond(token@),
            CreateAction::Reject(reason) => ActionView::Reject(reason),
            CreateAction::Idle => ActionView::Idle,
        }
    }
}

impl StageView {
    /// How far a creation has come: the number of stages behind it. A
    /// creation that is over has all of them behind it.
    pub open spec fn rank(self) -> nat {
        match self {
            StageView::Start => 0,
            StageView::AbuseChecked => 1,
            StageView::QuotaChecked => 2,
            StageView::Encrypted => 3,
            StageView::Persisted(_) => 4,
            StageView::Encoded(_) => 5,
            StageView::Done => 6,
            StageView::Rejected(_) => 6,
        }
    }

    /// Whether the creation is over.
    pub open spec fn is_final(self) -> bool {
        self is Done || self is Rejected
    }
}

/// Leaving a creation for `reason`.
pub open spec fn rejected(reason: PasteError) -> (StageView, ActionView) {
    (StageView::Rejected(reason), ActionView::Reject(reason))
}

/// The stage after `event` came in at `stage`, and the action to take then,
/// for a submission with the given name and language. `sealed` is the sealed
/// text, or `None` where sealing failed; only the step from `QuotaChecked`
/// reads it. An event that the stage does not wait for ends the creation.
pub open spec fn create_next(
    stage: StageView,
    event: CreateEvent,
    name: Option<Seq<char>>,
    language: Seq<char>,
    sealed: Option<Seq<char>>,
) -> (StageView, ActionView) {
    match stage {
        StageView::Start => match event {
            CreateEvent::AbuseVerdict(Some(true)) => (
                StageView::AbuseChecked,
                ActionView::ConsumeSlot,
            ),
            CreateEvent::AbuseVerdict(_) => rejected(PasteError::AbuseCheckFailed),
            _ => rejected(PasteError::StoreFailure),
        },
        StageView::AbuseChecked => match event {
            CreateEvent::SlotConsumed(Some(count)) => match verdict(count) {
                Ok(_) => (StageView::QuotaChecked, ActionView::Continue),
                Err(reason) => rejected(reason),
            },
            _ => rejected(PasteError::StoreFailure),
        },
        StageView::QuotaChecked => match event {
            CreateEvent::Proceed => match sealed {
                Some(ciphertext) => (
                    StageView::Encrypted,
                    ActionView::Insert { name: stored_name(name), ciphertext, language },
                ),
                None => rejected(PasteError::EncryptionFailure),
            },
            _ => rejected(PasteError::StoreFailure),
        },
        StageView::Encrypted => match event {
            CreateEvent::Inserted(Some(id)) => if id >= 0 {
                (StageView::Persisted(id), ActionView::Continue)
            } else {
                rejected(PasteError::StoreFailure)
            },
            _ => rejected(PasteError::StoreFailure),
        },
        StageView::Persisted(id) => match event {
            CreateEvent::Proceed => if id >= 0 {
                (StageView::Encoded(base62_text(id as nat)), ActionView::Continue)
            } else {
                rejected(PasteError::StoreFailure)
            },
            _ => rejected(PasteError::StoreFailure),
        },
        StageView::Encoded(token) => match event {
            CreateEvent::Proceed => (StageView::Done, ActionView::Respond(token)),
            _ => rejected(PasteError::StoreFailure),
        },
        StageView::Done => (StageView::Done, ActionView::Idle),
        StageView::Rejected(reason) => rejected(reason),
    }
}

/// Where a creation comes to rest after `event` came in at `stage`: it goes
/// on by itself until something is to be done outside.
pub open spec fn create_run(
    stage: StageView,
    event: CreateEvent,
    name: Option<Seq<char>>,
    language: Seq<char>,
    sealed: Option<Seq<char>>,
) -> (StageView, ActionView)
    decreases 6 - stage.rank(),
{
    let next = create_next(stage, event, name, language, sealed);
    if next.1 is Continue {
        create_run(next.0, CreateEvent::Proceed, name, language, sealed)
    } else {
        next
    }
}

/// Whether a creation seals the text before it next comes to rest.
pub open spec fn seals(stage: StageView, event: CreateEvent) -> bool {
    ||| (stage is QuotaChecked && event is Proceed)
    ||| (stage is AbuseChecked && (event matches CreateEvent::SlotConsumed(Some(count))
        && verdict(count) is Ok))
}

/// One transition of a creation: the stage after `event` came in at `stage`,
/// and the action to take then. `sealed` is the sealed text, or `None` where
/// sealing failed.
pub fn decide_creation(
    stage: CreateStage,
    event: CreateEvent,
    submission: &PasteSubmission,
    sealed: Option<String>,
) -> (r: (CreateStage, CreateAction))
    ensures
        (r.0@, r.1@) == create_next(
            stage@,
            event,
            chars_of(submission.name),
            submission.language@,
            chars_of(sealed),
        ),
{
    let reason = match stage {
        CreateStage::Start => match event {
            CreateEvent::AbuseVerdict(Some(true)) => {
                return (CreateStage::AbuseChecked, CreateAction::ConsumeSlot);
            },
            CreateEvent::AbuseVerdict(_) => PasteError::AbuseCheckFailed,
            _ => PasteError::StoreFailure,
        },
        CreateStage::AbuseChecked => match event {
            CreateEvent::SlotConsumed(Some(count)) => match check_rate_limit(count) {
                Ok(_) => {
                    return (CreateStage::QuotaChecked, CreateAction::Continue);
                },
                Err(reason) => reason,
            },
            _ => PasteError::StoreFailure,
        },
        CreateStage::QuotaChecked => match event {
            CreateEvent::Proceed => match sealed {
                Some(ciphertext) => {
                    let paste = NewPaste {
                        name: display_name(&submission.name),
                        ciphertext,
                        language: submission.language.clone(),
                    };
                    return (CreateStage::Encrypted, CreateAction::Insert(paste));
                },
                None => PasteError::EncryptionFailure,
            },
            _ => PasteError::StoreFailure,
        },
        CreateStage::Encrypted => match event {
            CreateEvent::Inserted(Some(id)) => if id >= 0 {
                return (CreateStage::Persisted(id), CreateAction::Continue);
            } else {
                PasteError::StoreFailure
            },
            _ => PasteError::StoreFailure,
        },
        CreateStage::Persisted(id) => match event {
            CreateEvent::Proceed => if id >= 0 {
                return (CreateStage::Encoded(encode_id(id)), CreateAction::Continue);
            } else {
                PasteError::StoreFailure
            },
            _ => PasteError::StoreFailure,
        },
        CreateStage::Encoded(token) => match event {
            CreateEvent::Proceed => {
                return (CreateStage::Done, CreateAction::Respond(token));
            },
            _ => PasteError::StoreFailure,
        },
        CreateStage::Done => {
            return (CreateStage::Done, CreateAction::Idle);
        },
        CreateStage::Rejected(reason) => reason,
    };
    (CreateStage::Rejected(reason), CreateAction::Reject(reason))
}

/// Only the step from `QuotaChecked` reads the sealed text.
pub proof fn lemma_sealed_is_read_once(
    stage: StageView,
    event: CreateEvent,
    name: Option<Seq<char>>,
    language: Seq<char>,
    sealed: Option<Seq<char>>,
    other: Option<Seq<char>>,
)
    requires
        !(stage is QuotaChecked),
    ensures
        create_next(stage, event, name, language, sealed) == create_next(
            stage,
            event,
            name,
            language,
            other,
        ),
        stage.rank() > 2 ==> create_run(stage, event, name, language, sealed) == create_run(
            stage,
            event,
            name,
            language,
            other,
        ),
    decreases 6 - stage.rank(),
{
    let next = create_next(stage, event, name, language, sealed);
    if stage.rank() > 2 && next.1 is Continue {
        lemma_sealed_is_read_once(next.0, CreateEvent::Proceed, name, language, sealed, other);
    }
}

/// A creation from `event` at `stage` until it comes to rest, for a text that
/// is sealed already: the stage it rests at, and the action to take then.
/// `sealed` is the sealed text, or `None` where sealing failed.
#[verifier::loop_isolation(false)]
pub fn run_creation(
    stage: CreateStage,
    event: CreateEvent,
    submission: &PasteSubmission,
    sealed: Option<String>,
) -> (r: (CreateStage, CreateAction))
    ensures
        (r.0@, r.1@) == create_run(
            stage@,
            event,
            chars_of(submission.name),
            submission.language@,
            chars_of(sealed),
        ),
        !(r.1 is Continue),
{
    let ghost name = chars_of(submission.name);
    let ghost language = submission.language@;
    let ghost given = chars_of(sealed);
    let ghost whole = create_run(stage@, event, name, language, given);
    let mut current = stage;
    let mut pending = event;
    let mut unread = sealed;
    loop
        invariant
            current@.rank() <= 2 ==> chars_of(unread) == given,
            create_run(current@, pending, name, language, given) == whole,
        decreases 6 - current@.rank(),
    {
        let ghost before = current@;
        let reads = match current {
            CreateStage::QuotaChecked => true,
            _ => false,
        };
        let handed = if reads {
            unread.take()
        } else {
            None
        };
        proof {
            if !reads {
                lemma_sealed_is_read_once(before, pending, name, language, None, given);
            }
        }
        let (next, action) = decide_creation(current, pending, submission, handed);
        match action {
            CreateAction::Continue => {
                current = next;
                pending = CreateEvent::Proceed;
            },
            _ => {
                return (next, action);
            },
        }
    }
}

/// A creation that seals and cannot ends with `EncryptionFailure`.
pub proof fn lemma_unsealed_is_rejected(
    stage: StageView,
    event: CreateEvent,
    name: Option<Seq<char>>,
    language: Seq<char>,
)
    requires
        seals(stage, event),
    ensures
        create_run(stage, event, name, language, None) == rejected(PasteError::EncryptionFailure),
{
    reveal_with_fuel(create_run, 3);
}

/// One step of a creation, as its driver sees it: the stage at which the
/// creation comes to rest after `event` came in at `stage`, and the action to
/// take then. On its way from `QuotaChecked` the text is sealed under `key`
/// and a fresh nonce.
///
/// Every failure to seal ends the creation with `EncryptionFailure`; a key of
/// another length than 256 bits is one. A text that was sealed opens again to
/// the submitted text under `key`.
pub fn create_step(
    stage: CreateStage,
    event: CreateEvent,
    submission: &PasteSubmission,
    key: &[u8],
) -> (r: (CreateStage, CreateAction))
    ensures
        !(r.1 is Continue),
        !seals(stage@, event) ==> (r.0@, r.1@) == create_run(
            stage@,
            event,
            chars_of(submission.name),
            submission.language@,
            None,
        ),
        seals(stage@, event) ==> (r.0@, r.1@) == rejected(PasteError::EncryptionFailure) || exists|
            blob: Seq<char>,
        |
            {
                &&& is_sealing(key@, encode_utf8(submission.paste@), blob)
                &&& opened_text(key@, blob) == Ok::<Seq<char>, PasteError>(submission.paste@)
                &&& (r.0@, r.1@) == #[trigger] create_run(
                    stage@,
                    event,
                    chars_of(submission.name),
                    submission.language@,
                    Some(blob),
                )
            },
        seals(stage@, event) && key@.len() != KEY_LEN ==> (r.0@, r.1@) == rejected(
            PasteError::EncryptionFailure,
        ),
{
    let sealing = match &stage {
        CreateStage::QuotaChecked => match event {
            CreateEvent::Proceed => true,
            _ => false,
        },
        CreateStage::AbuseChecked => match event {
            CreateEvent::SlotConsumed(Some(count)) => check_rate_limit(count).is_ok(),
            _ => false,
        },
        _ => false,
    };
    let sealed = if sealing {
        match encrypt_paste(submission.paste.as_str(), key) {
            Ok(blob) => Some(blob),
            Err(_) => None,
        }
    } else {
        None
    };
    proof {
        if sealing && sealed is None {
            lemma_unsealed_is_rejected(
                stage@,
                event,
                chars_of(submission.name),
                submission.language@,
            );
        }
    }
    run_creation(stage, event, submission, sealed)
}

/// What the store answered to a fetch.
#[derive(Clone, Debug, PartialEq, Eq)]
pub enum FetchOutcome {
    /// The record stored under the identifier.
    Found(StoredPaste),
    /// No record is stored under the identifier.
    Missing,
    /// The store failed.
    Failed,
}

/// How a failure to open a stored text ends a retrieval: a tag that does not
/// match stays an `IntegrityFailure`; whatever else went wrong, the stored
/// text or the key is not in order, which is reported as `StoreFailure`.
pub open spec fn retrieval_failure(cause: PasteError) -> PasteError {
    if cause == PasteError::IntegrityFailure {
        PasteError::IntegrityFailure
    } else {
        PasteError::StoreFailure
    }
}

/// First step of a retrieval: the identifier to fetch.
///
/// Fails with `InvalidToken` when the token has a character that is no digit,
/// or stands for a number that is no identifier.
pub fn begin_retrieve(short_id: &str) -> (r: Result<i64, PasteError>)
    ensures
        r == decoded(short_id@),
        r matches Ok(id) ==> id >= 0,
{
    decode_id(short_id)
}

/// Last step of a retrieval: the paste to answer with.
///
/// Fails with `NotFound` when the store holds no such paste or failed, and as
/// `retrieval_failure` says when the stored text does not open under `key`.
/// Name, language and time are handed on as the store gave them.
pub fn finish_retrieve(outcome: FetchOutcome, key: &[u8]) -> (r: Result<PasteContent, PasteError>)
    ensures
        match outcome {
            FetchOutcome::Found(stored) => match opened_text(key@, stored.ciphertext@) {
                Ok(text) => r matches Ok(content) && content.paste@ == text && content.name
                    == stored.name && content.language == stored.language && content.created_at
                    == stored.created_at,
                Err(cause) => r matches Err(e) && e == retrieval_failure(cause),
            },
            _ => r matches Err(e) && e == PasteError::NotFound,
        },
{
    match outcome {
        FetchOutcome::Found(stored) => match decrypt_paste(stored.ciphertext.as_str(), key) {
            Ok(text) => Ok(
                PasteContent {
                    name: stored.name,
                    paste: text,
                    language: stored.language,
                    created_at: stored.created_at,
                },
            ),
            Err(PasteError::IntegrityFailure) => Err(PasteError::IntegrityFailure),
            Err(_) => Err(PasteError::StoreFailure),
        },
        _ => Err(PasteError::NotFound),
    }
}

/// A creation that is over stays as it is, whatever comes in, and neither
/// stores a paste nor hands out a token.
pub proof fn lemma_outcome_is_final(
    stage: StageView,
    event: CreateEvent,
    name: Option<Seq<char>>,
    language: Seq<char>,
    sealed: Option<Seq<char>>,
)
    requires
        stage.is_final(),
    ensures
        create_next(stage, event, name, language, sealed).0 == stage,
        create_run(stage, event, name, language, sealed) == create_next(
            stage,
            event,
            name,
            language,
            sealed,
        ),
        !(create_next(stage, event, name, language, sealed).1 is Respond),
        !(create_next(stage, event, name, language, sealed).1 is Insert),
{
}

/// No step is taken twice, and none is left out: a creation that is not over
/// moves to the very next stage or is rejected.
pub proof fn lemma_step_moves_on(
    stage: StageView,
    event: CreateEvent,
    name: Option<Seq<char>>,
    language: Seq<char>,
    sealed: Option<Seq<char>>,
)
    requires
        !stage.is_final(),
    ensures
        ({
            let next = create_next(stage, event, name, language, sealed).0;
            next is Rejected || next.rank() == stage.rank() + 1
        }),
{
}

/// A creation rests only where the outside has something to do: with a quota
/// slot to consume, a paste to insert, or an answer to give.
pub proof fn lemma_run_comes_to_rest(
    stage: StageView,
    event: CreateEvent,
    name: Option<Seq<char>>,
    language: Seq<char>,
    sealed: Option<Seq<char>>,
)
    ensures
        ({
            let (rest, action) = create_run(stage, event, name, language, sealed);
            match action {
                ActionView::ConsumeSlot => rest is AbuseChecked,
                ActionView::Insert { .. } => rest is Encrypted,
                ActionView::Respond(_) => rest is Done,
                ActionView::Reject(reason) => rest == StageView::Rejected(reason),
                ActionView::Idle => rest is Done,
                ActionView::Continue => false,
            }
        }),
    decreases 6 - stage.rank(),
{
    let next = create_next(stage, event, name, language, sealed);
    if next.1 is Continue {
        lemma_run_comes_to_rest(next.0, CreateEvent::Proceed, name, language, sealed);
    }
}

/// A paste is stored only after the abuse gate and the quota let it pass, and
/// what is stored is the sealed text under the name and language to store.
pub proof fn lemma_insert_follows_checks(
    stage: StageView,
    event: CreateEvent,
    name: Option<Seq<char>>,
    language: Seq<char>,
    sealed: Option<Seq<char>>,
)
    requires
        create_next(stage, event, name, language, sealed).1 is Insert,
    ensures
        stage is QuotaChecked,
        sealed matches Some(ciphertext) && create_next(stage, event, name, language, sealed).1
            == (ActionView::Insert { name: stored_name(name), ciphertext, language }),
{
}

/// A short token is made only for a paste that the store has taken, and it is
/// the token of the identifier that the store assigned: decoding it gives
/// that identifier back.
pub proof fn lemma_token_names_stored_paste(
    stage: StageView,
    event: CreateEvent,
    name: Option<Seq<char>>,
    language: Seq<char>,
    sealed: Option<Seq<char>>,
)
    ensures
        ({
            let next = create_next(stage, event, name, language, sealed).0;
            &&& next matches StageView::Persisted(id) ==> id >= 0 && stage is Encrypted && event
                == CreateEvent::Inserted(Some(id))
            &&& next matches StageView::Encoded(token) ==> (stage matches StageView::Persisted(id)
                && id >= 0 && token == base62_text(id as nat) && decoded(token) == Ok::<
                i64,
                PasteError,
            >(id))
        }),
        create_next(stage, event, name, language, sealed).1 matches ActionView::Respond(token)
            ==> stage == StageView::Encoded(token),
{
    if let StageView::Persisted(id) = stage {
        if id >= 0 {
            crate::codec::lemma_decode_encode(id as nat);
        }
    }
}

/// What the driver sees of the last step: the store's answer turns into the
/// token of the identifier it assigned.
pub proof fn lemma_stored_paste_is_answered(
    id: i64,
    name: Option<Seq<char>>,
    language: Seq<char>,
    sealed: Option<Seq<char>>,
)
    requires
        id >= 0,
    ensures
        create_run(
            StageView::Encrypted,
            CreateEvent::Inserted(Some(id)),
            name,
            language,
            sealed,
        ) == (StageView::Done, ActionView::Respond(base62_text(id as nat))),
{
    reveal_with_fuel(create_run, 4);
}

} // verus!

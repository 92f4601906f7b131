use pasteit::crypto::encrypt_paste;
use pasteit::error::PasteError;
use pasteit::paste::{display_name, NewPaste, PasteContent, PasteSubmission, StoredPaste};
use pasteit::pipeline::{
    begin_retrieve, create_step, decide_creation, finish_retrieve, run_creation, CreateAction,
    CreateEvent, CreateStage, FetchOutcome,
};
use pasteit::quota::{consume_slot, QuotaRecord};

const NOW: i64 = 1_700_000_000_000_000;

fn key() -> Vec<u8> {
    (100..132u8).collect()
}

fn submission(name: Option<&str>, paste: &str, language: &str) -> PasteSubmission {
    PasteSubmission {
        name: name.map(|n| n.to_string()),
        paste: paste.to_string(),
        language: language.to_string(),
        abuse_token: "token".to_string(),
    }
}

/// A store and a quota ledger in memory, and an abuse gate that knows one token.
struct Outside {
    pastes: Vec<StoredPaste>,
    quota: Option<QuotaRecord>,
    now: i64,
}

impl Outside {
    fn new() -> Outside {
        Outside { pastes: Vec::new(), quota: None, now: NOW }
    }

    fn insert(&mut self, paste: NewPaste) -> i64 {
        self.pastes.push(StoredPaste {
            name: Some(paste.name),
            ciphertext: paste.ciphertext,
            language: Some(paste.language),
            created_at: self.now,
        });
        self.pastes.len() as i64
    }

    fn fetch(&self, id: i64) -> FetchOutcome {
        if id >= 1 && (id as usize) <= self.pastes.len() {
            FetchOutcome::Found(self.pastes[id as usize - 1].clone())
        } else {
            FetchOutcome::Missing
        }
    }

    fn create(&mut self, request: &PasteSubmission, key: &[u8]) -> Result<String, PasteError> {
        let mut stage = CreateStage::Start;
        let mut event = CreateEvent::AbuseVerdict(Some(request.abuse_token == "token"));
        loop {
            let (next, action) = create_step(stage, event, request, key);
            stage = next;
            event = match action {
                CreateAction::ConsumeSlot => {
                    self.now += 1;
                    let record = consume_slot(self.quota, self.now).unwrap();
                    self.quota = Some(record);
                    CreateEvent::SlotConsumed(Some(record.count))
                }
                CreateAction::Insert(paste) => CreateEvent::Inserted(Some(self.insert(paste))),
                CreateAction::Respond(short_id) => {
                    assert_eq!(stage, CreateStage::Done);
                    return Ok(short_id);
                }
                CreateAction::Reject(reason) => {
                    assert_eq!(stage, CreateStage::Rejected(reason));
                    return Err(reason);
                }
                CreateAction::Continue | CreateAction::Idle => unreachable!(),
            };
        }
    }

    fn retrieve(&self, short_id: &str, key: &[u8]) -> Result<PasteContent, PasteError> {
        let id = begin_retrieve(short_id)?;
        finish_retrieve(self.fetch(id), key)
    }
}

#[test]
fn created_paste_is_retrieved_as_submitted() {
    let mut outside = Outside::new();
    let short_id = outside.create(&submission(Some("t"), "hello", "text"), &key()).unwrap();
    assert_eq!(short_id, "1");
    assert_eq!(
        outside.retrieve(&short_id, &key()),
        Ok(PasteContent {
            name: Some("t".to_string()),
            paste: "hello".to_string(),
            language: Some("text".to_string()),
            created_at: outside.pastes[0].created_at,
        })
    );
    assert_ne!(outside.pastes[0].ciphertext, "hello");
}

#[test]
fn sixth_creation_of_a_day_is_refused() {
    let mut outside = Outside::new();
    for n in 1..=5 {
        let request = submission(None, &format!("paste {}", n), "text");
        assert_eq!(outside.create(&request, &key()), Ok(n.to_string()));
    }
    let request = submission(None, "one too many", "text");
    assert_eq!(outside.create(&request, &key()), Err(PasteError::QuotaExceeded));
    assert_eq!(outside.pastes.len(), 5);
    assert_eq!(outside.quota.unwrap().count, 6);
    for n in 1..=5 {
        let content = outside.retrieve(&n.to_string(), &key()).unwrap();
        assert_eq!(content.paste, format!("paste {}", n));
        assert_eq!(content.name, Some("Untitled".to_string()));
    }
}

#[test]
fn token_that_fails_the_abuse_check_creates_nothing() {
    let mut outside = Outside::new();
    let mut request = submission(None, "hello", "text");
    request.abuse_token = "forged".to_string();
    assert_eq!(outside.create(&request, &key()), Err(PasteError::AbuseCheckFailed));
    assert!(outside.pastes.is_empty());
    assert_eq!(outside.quota, None);
}

#[test]
fn identifier_never_inserted_is_not_found() {
    let mut outside = Outside::new();
    outside.create(&submission(None, "hello", "text"), &key()).unwrap();
    assert_eq!(outside.retrieve("2", &key()), Err(PasteError::NotFound));
    assert_eq!(outside.retrieve("0", &key()), Err(PasteError::NotFound));
    assert_eq!(outside.retrieve("LZ", &key()), Err(PasteError::NotFound));
    assert_eq!(outside.retrieve("AzL8n0Y58m7", &key()), Err(PasteError::NotFound));
}

#[test]
fn malformed_token_is_refused_before_the_store_is_asked() {
    assert_eq!(begin_retrieve("no-token"), Err(PasteError::InvalidToken));
    assert_eq!(begin_retrieve("AzL8n0Y58m8"), Err(PasteError::InvalidToken));
    assert_eq!(begin_retrieve("LZ"), Ok(1337));
}

#[test]
fn abuse_verdict_decides_the_first_step() {
    let request = submission(None, "hello", "text");
    assert_eq!(
        create_step(CreateStage::Start, CreateEvent::AbuseVerdict(Some(true)), &request, &key()),
        (CreateStage::AbuseChecked, CreateAction::ConsumeSlot)
    );
    for verdict in [Some(false), None] {
        assert_eq!(
            create_step(CreateStage::Start, CreateEvent::AbuseVerdict(verdict), &request, &key()),
            (
                CreateStage::Rejected(PasteError::AbuseCheckFailed),
                CreateAction::Reject(PasteError::AbuseCheckFailed)
            )
        );
    }
}

#[test]
fn quota_count_decides_the_second_step() {
    let request = submission(Some("n"), "hello", "rust");
    for count in [1, 5] {
        let (stage, action) = create_step(
            CreateStage::AbuseChecked,
            CreateEvent::SlotConsumed(Some(count)),
            &request,
            &key(),
        );
        assert_eq!(stage, CreateStage::Encrypted);
        match action {
            CreateAction::Insert(paste) => {
                assert_eq!(paste.name, "n");
                assert_eq!(paste.language, "rust");
                assert_eq!(paste.ciphertext.len(), 2 * (12 + 5 + 16));
                let stored = StoredPaste {
                    name: None,
                    ciphertext: paste.ciphertext,
                    language: None,
                    created_at: 7,
                };
                let content = finish_retrieve(FetchOutcome::Found(stored), &key()).unwrap();
                assert_eq!(content.paste, "hello");
                assert_eq!(content.name, None);
                assert_eq!(content.language, None);
                assert_eq!(content.created_at, 7);
            }
            other => panic!("unexpected action {:?}", other),
        }
    }
    for count in [6, 7, i32::MAX] {
        assert_eq!(
            create_step(
                CreateStage::AbuseChecked,
                CreateEvent::SlotConsumed(Some(count)),
                &request,
                &key()
            ),
            (
                CreateStage::Rejected(PasteError::QuotaExceeded),
                CreateAction::Reject(PasteError::QuotaExceeded)
            )
        );
    }
    assert_eq!(
        create_step(CreateStage::AbuseChecked, CreateEvent::SlotConsumed(None), &request, &key()),
        (
            CreateStage::Rejected(PasteError::StoreFailure),
            CreateAction::Reject(PasteError::StoreFailure)
        )
    );
}

#[test]
fn unusable_key_ends_in_encryption_failure() {
    let request = submission(None, "hello", "text");
    assert_eq!(
        create_step(
            CreateStage::AbuseChecked,
            CreateEvent::SlotConsumed(Some(1)),
            &request,
            &[1u8; 16]
        ),
        (
            CreateStage::Rejected(PasteError::EncryptionFailure),
            CreateAction::Reject(PasteError::EncryptionFailure)
        )
    );
}

#[test]
fn quota_is_judged_before_the_key_is_read() {
    let request = submission(None, "hello", "text");
    let (stage, _) = create_step(
        CreateStage::AbuseChecked,
        CreateEvent::SlotConsumed(Some(6)),
        &request,
        &[1u8; 16],
    );
    assert_eq!(stage, CreateStage::Rejected(PasteError::QuotaExceeded));
}

#[test]
fn store_answer_decides_the_last_step() {
    let request = submission(None, "hello", "text");
    assert_eq!(
        create_step(CreateStage::Encrypted, CreateEvent::Inserted(Some(1337)), &request, &key()),
        (CreateStage::Done, CreateAction::Respond("LZ".to_string()))
    );
    assert_eq!(
        create_step(CreateStage::Encrypted, CreateEvent::Inserted(Some(0)), &request, &key()),
        (CreateStage::Done, CreateAction::Respond("0".to_string()))
    );
    for answer in [None, Some(-1), Some(i64::MIN)] {
        assert_eq!(
            create_step(CreateStage::Encrypted, CreateEvent::Inserted(answer), &request, &key()),
            (
                CreateStage::Rejected(PasteError::StoreFailure),
                CreateAction::Reject(PasteError::StoreFailure)
            )
        );
    }
}

#[test]
fn finished_creation_stays_finished() {
    let request = submission(None, "hello", "text");
    let events = [
        CreateEvent::AbuseVerdict(Some(true)),
        CreateEvent::SlotConsumed(Some(1)),
        CreateEvent::Inserted(Some(1)),
        CreateEvent::Proceed,
    ];
    for event in events {
        assert_eq!(
            create_step(CreateStage::Done, event, &request, &key()),
            (CreateStage::Done, CreateAction::Idle)
        );
        let reason = PasteError::QuotaExceeded;
        assert_eq!(
            create_step(CreateStage::Rejected(reason), event, &request, &key()),
            (CreateStage::Rejected(reason), CreateAction::Reject(reason))
        );
    }
}

#[test]
fn event_out_of_turn_ends_the_creation() {
    let request = submission(None, "hello", "text");
    let failure = (
        CreateStage::Rejected(PasteError::StoreFailure),
        CreateAction::Reject(PasteError::StoreFailure),
    );
    let out_of_turn = [
        (CreateStage::Start, CreateEvent::Inserted(Some(1))),
        (CreateStage::Start, CreateEvent::SlotConsumed(Some(1))),
        (CreateStage::Start, CreateEvent::Proceed),
        (CreateStage::AbuseChecked, CreateEvent::Inserted(Some(1))),
        (CreateStage::AbuseChecked, CreateEvent::AbuseVerdict(Some(true))),
        (CreateStage::AbuseChecked, CreateEvent::Proceed),
        (CreateStage::QuotaChecked, CreateEvent::SlotConsumed(Some(1))),
        (CreateStage::Encrypted, CreateEvent::AbuseVerdict(Some(true))),
        (CreateStage::Encrypted, CreateEvent::Proceed),
        (CreateStage::Persisted(1), CreateEvent::Inserted(Some(1))),
        (CreateStage::Encoded("1".to_string()), CreateEvent::Inserted(Some(1))),
    ];
    for (stage, event) in out_of_turn {
        assert_eq!(create_step(stage.clone(), event, &request, &key()), failure);
        assert_eq!(decide_creation(stage, event, &request, Some("c0ffee".to_string())), failure);
    }
}

#[test]
fn creation_passes_every_stage_in_turn() {
    let request = submission(Some("n"), "hello", "go");
    let sealed = || Some("c0ffee".to_string());

    let step =
        decide_creation(CreateStage::Start, CreateEvent::AbuseVerdict(Some(true)), &request, None);
    assert_eq!(step, (CreateStage::AbuseChecked, CreateAction::ConsumeSlot));

    let step = decide_creation(step.0, CreateEvent::SlotConsumed(Some(3)), &request, None);
    assert_eq!(step, (CreateStage::QuotaChecked, CreateAction::Continue));

    let step = decide_creation(step.0, CreateEvent::Proceed, &request, sealed());
    assert_eq!(
        step,
        (
            CreateStage::Encrypted,
            CreateAction::Insert(NewPaste {
                name: "n".to_string(),
                ciphertext: "c0ffee".to_string(),
                language: "go".to_string(),
            })
        )
    );

    let step = decide_creation(step.0, CreateEvent::Inserted(Some(1337)), &request, None);
    assert_eq!(step, (CreateStage::Persisted(1337), CreateAction::Continue));

    let step = decide_creation(step.0, CreateEvent::Proceed, &request, None);
    assert_eq!(step, (CreateStage::Encoded("LZ".to_string()), CreateAction::Continue));

    let step = decide_creation(step.0, CreateEvent::Proceed, &request, None);
    assert_eq!(step, (CreateStage::Done, CreateAction::Respond("LZ".to_string())));

    let step = decide_creation(step.0, CreateEvent::Proceed, &request, None);
    assert_eq!(step, (CreateStage::Done, CreateAction::Idle));
}

#[test]
fn sealing_that_failed_ends_in_encryption_failure() {
    let request = submission(None, "hello", "go");
    let failure = (
        CreateStage::Rejected(PasteError::EncryptionFailure),
        CreateAction::Reject(PasteError::EncryptionFailure),
    );
    assert_eq!(
        decide_creation(CreateStage::QuotaChecked, CreateEvent::Proceed, &request, None),
        failure
    );
    assert_eq!(
        run_creation(CreateStage::AbuseChecked, CreateEvent::SlotConsumed(Some(3)), &request, None),
        failure
    );
}

#[test]
fn run_goes_on_until_the_outside_is_needed() {
    let request = submission(None, "hello", "go");
    let insert = CreateAction::Insert(NewPaste {
        name: "Untitled".to_string(),
        ciphertext: "c0ffee".to_string(),
        language: "go".to_string(),
    });
    assert_eq!(
        run_creation(
            CreateStage::AbuseChecked,
            CreateEvent::SlotConsumed(Some(5)),
            &request,
            Some("c0ffee".to_string())
        ),
        (CreateStage::Encrypted, insert.clone())
    );
    assert_eq!(
        run_creation(
            CreateStage::QuotaChecked,
            CreateEvent::Proceed,
            &request,
            Some("c0ffee".to_string())
        ),
        (CreateStage::Encrypted, insert)
    );
    assert_eq!(
        run_creation(CreateStage::Encrypted, CreateEvent::Inserted(Some(62)), &request, None),
        (CreateStage::Done, CreateAction::Respond("10".to_string()))
    );
    assert_eq!(
        run_creation(CreateStage::Persisted(62), CreateEvent::Proceed, &request, None),
        (CreateStage::Done, CreateAction::Respond("10".to_string()))
    );
    assert_eq!(
        run_creation(
            CreateStage::Encoded("10".to_string()),
            CreateEvent::Proceed,
            &request,
            None
        ),
        (CreateStage::Done, CreateAction::Respond("10".to_string()))
    );
    assert_eq!(
        run_creation(
            CreateStage::Start,
            CreateEvent::AbuseVerdict(Some(true)),
            &request,
            Some("c0ffee".to_string())
        ),
        (CreateStage::AbuseChecked, CreateAction::ConsumeSlot)
    );
    assert_eq!(
        run_creation(CreateStage::Persisted(-1), CreateEvent::Proceed, &request, None),
        (
            CreateStage::Rejected(PasteError::StoreFailure),
            CreateAction::Reject(PasteError::StoreFailure)
        )
    );
}

#[test]
fn step_from_quota_checked_seals_the_text() {
    let request = submission(None, "hello", "text");
    let (stage, action) =
        create_step(CreateStage::QuotaChecked, CreateEvent::Proceed, &request, &key());
    assert_eq!(stage, CreateStage::Encrypted);
    match action {
        CreateAction::Insert(paste) => {
            assert_eq!(pasteit::crypto::decrypt_paste(&paste.ciphertext, &key()).unwrap(), "hello")
        }
        other => panic!("unexpected action {:?}", other),
    }
}

#[test]
fn store_failure_on_fetch_is_not_found() {
    assert_eq!(finish_retrieve(FetchOutcome::Failed, &key()), Err(PasteError::NotFound));
    assert_eq!(finish_retrieve(FetchOutcome::Missing, &key()), Err(PasteError::NotFound));
}

#[test]
fn tampered_record_fails_the_integrity_check() {
    let blob = encrypt_paste("hello", &key()).unwrap();
    let last = if blob.ends_with('0') { "1" } else { "0" };
    let tampered = format!("{}{}", &blob[..blob.len() - 1], last);
    let stored =
        StoredPaste { name: None, ciphertext: tampered, language: None, created_at: NOW };
    assert_eq!(
        finish_retrieve(FetchOutcome::Found(stored), &key()),
        Err(PasteError::IntegrityFailure)
    );
}

#[test]
fn unreadable_record_or_key_is_a_store_failure() {
    let stored = StoredPaste {
        name: None,
        ciphertext: "not hexadecimal".to_string(),
        language: None,
        created_at: NOW,
    };
    assert_eq!(
        finish_retrieve(FetchOutcome::Found(stored), &key()),
        Err(PasteError::StoreFailure)
    );
    let sealed = StoredPaste {
        name: None,
        ciphertext: encrypt_paste("hello", &key()).unwrap(),
        language: None,
        created_at: NOW,
    };
    assert_eq!(
        finish_retrieve(FetchOutcome::Found(sealed), &[0u8; 5]),
        Err(PasteError::StoreFailure)
    );
}

#[test]
fn absent_name_is_untitled() {
    assert_eq!(display_name(&None), "Untitled");
}

#[test]
fn name_is_cut_to_128_characters() {
    let short = "a name".to_string();
    assert_eq!(display_name(&Some(short.clone())), short);
    assert_eq!(display_name(&Some(String::new())), "");
    let exact = "x".repeat(128);
    assert_eq!(display_name(&Some(exact.clone())), exact);
    let long = "y".repeat(129);
    assert_eq!(display_name(&Some(long)), "y".repeat(128));
    let wide = "日本語".repeat(100);
    let cut: String = wide.chars().take(128).collect();
    assert_eq!(display_name(&Some(wide)), cut);
    assert_eq!(cut.chars().count(), 128);
}

#[test]
fn failures_map_to_their_status() {
    assert_eq!(PasteError::ValidationError.status_code(), 400);
    assert_eq!(PasteError::InvalidToken.status_code(), 400);
    assert_eq!(PasteError::AbuseCheckFailed.status_code(), 403);
    assert_eq!(PasteError::NotFound.status_code(), 404);
    assert_eq!(PasteError::QuotaExceeded.status_code(), 429);
    assert_eq!(PasteError::EncryptionFailure.status_code(), 500);
    assert_eq!(PasteError::MalformedEncoding.status_code(), 500);
    assert_eq!(PasteError::IntegrityFailure.status_code(), 500);
    assert_eq!(PasteError::KeyUnavailable.status_code(), 500);
    assert_eq!(PasteError::StoreFailure.status_code(), 500);
    assert_eq!(PasteError::ConfigurationError.status_code(), 500);
}

#[test]
fn failures_of_the_service_are_told_without_detail() {
    let internal = [
        PasteError::EncryptionFailure,
        PasteError::MalformedEncoding,
        PasteError::IntegrityFailure,
        PasteError::KeyUnavailable,
        PasteError::StoreFailure,
        PasteError::ConfigurationError,
    ];
    for reason in internal {
        assert_eq!(reason.status_code(), 500);
        assert_eq!(reason.message(), "Internal error");
    }
}

#[test]
fn failures_of_the_request_are_told_apart() {
    assert_eq!(PasteError::ValidationError.message(), "Malformed request");
    assert_eq!(PasteError::InvalidToken.message(), "Invalid short id");
    assert_eq!(PasteError::AbuseCheckFailed.message(), "Abuse check failed");
    assert_eq!(PasteError::NotFound.message(), "Paste not found");
    assert_eq!(
        PasteError::QuotaExceeded.message(),
        "Rate limit exceeded: maximum 5 creations per day"
    );
}

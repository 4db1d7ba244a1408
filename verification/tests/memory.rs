use qa_store::errors::DBError;
use qa_store::identifier::Identifier;
use qa_store::models::{Answer, AnswerDetail, Question, QuestionDetail};
use qa_store::persistance::answers_dao::{AnswersDao, NewAnswer};
use qa_store::persistance::memory::{decimal, MemoryBackend};
use qa_store::persistance::questions_dao::QuestionsDao;
use qa_store::persistance::store::MemoryStore;

fn question(title: &str) -> Question {
    Question { title: title.to_string(), description: "Explain briefly".to_string() }
}

fn answer(question_uuid: &str, content: &str) -> Answer {
    Answer { question_uuid: question_uuid.to_string(), content: content.to_string() }
}

#[test]
fn decimal_texts() {
    assert_eq!(decimal(0), "0");
    assert_eq!(decimal(7), "7");
    assert_eq!(decimal(10), "10");
    assert_eq!(decimal(1234567890), "1234567890");
    assert_eq!(decimal(u64::MAX), "18446744073709551615");
}

#[test]
fn new_store_is_empty() {
    let store = MemoryStore::new();
    assert_eq!(store.get_questions(), Ok(Vec::new()));
}

#[test]
fn created_question_has_generated_fields() {
    let mut store = MemoryStore::new();
    let created = store.create_question(question("What is Rust ownership?")).unwrap();
    assert_eq!(
        created,
        QuestionDetail {
            question_uuid: "00000000-0000-0000-0000-000000000001".to_string(),
            title: "What is Rust ownership?".to_string(),
            description: "Explain briefly".to_string(),
            created_at: "1".to_string(),
        }
    );
}

#[test]
fn created_questions_have_fresh_identifiers() {
    let mut store = MemoryStore::new();
    let mut seen: Vec<String> = Vec::new();
    for round in 0..20 {
        let created = store.create_question(question("again")).unwrap();
        assert!(!created.created_at.is_empty());
        assert!(!seen.contains(&created.question_uuid));
        assert!(Identifier::parse(&created.question_uuid).is_ok());
        if round % 3 == 0 {
            assert_eq!(store.delete_question(created.question_uuid.clone()), Ok(()));
        }
        seen.push(created.question_uuid);
    }
}

#[test]
fn answer_to_a_missing_question_is_refused_with_its_identifier() {
    let mut store = MemoryStore::new();
    store.create_question(question("first")).unwrap();
    let created =
        store.create_answer(answer("67E5504410B1426F9247BB680E5FE0C8", "Each value has one owner."));
    assert_eq!(
        created,
        Err(DBError::InvalidUUID("67e55044-10b1-426f-9247-bb680e5fe0c8".to_string()))
    );
    assert_eq!(store.get_answers("67e55044-10b1-426f-9247-bb680e5fe0c8".to_string()), Ok(Vec::new()));
}

#[test]
fn answer_to_malformed_text_is_refused_with_the_text() {
    let mut store = MemoryStore::new();
    assert_eq!(
        store.create_answer(answer("question one", "x")),
        Err(DBError::InvalidUUID("question one".to_string()))
    );
}

#[test]
fn deleting_a_question_twice_succeeds() {
    let mut store = MemoryStore::new();
    let kept = store.create_question(question("kept")).unwrap();
    let gone = store.create_question(question("gone")).unwrap();
    assert_eq!(store.delete_question(gone.question_uuid.clone()), Ok(()));
    assert_eq!(store.get_questions(), Ok(vec![kept.clone()]));
    assert_eq!(store.delete_question(gone.question_uuid.clone()), Ok(()));
    assert_eq!(store.get_questions(), Ok(vec![kept]));
}

#[test]
fn deleting_a_question_that_never_was_succeeds() {
    let mut store = MemoryStore::new();
    assert_eq!(store.delete_question("67e55044-10b1-426f-9247-bb680e5fe0c8".to_string()), Ok(()));
    assert_eq!(store.get_questions(), Ok(Vec::new()));
}

#[test]
fn deleting_with_malformed_text_is_refused() {
    let mut store = MemoryStore::new();
    let kept = store.create_question(question("kept")).unwrap();
    assert_eq!(
        store.delete_question("1".to_string()),
        Err(DBError::InvalidUUID("1".to_string()))
    );
    assert_eq!(
        store.delete_answer("{00000000-0000-0000-0000-000000000001}".to_string()),
        Err(DBError::InvalidUUID("{00000000-0000-0000-0000-000000000001}".to_string()))
    );
    assert_eq!(store.get_questions(), Ok(vec![kept]));
}

#[test]
fn question_without_answers_has_an_empty_list() {
    let mut store = MemoryStore::new();
    let first = store.create_question(question("first")).unwrap();
    let second = store.create_question(question("second")).unwrap();
    store.create_answer(answer(&second.question_uuid, "only for the second")).unwrap();
    assert_eq!(store.get_answers(first.question_uuid), Ok(Vec::new()));
}

#[test]
fn answers_of_malformed_text_are_refused() {
    let store = MemoryStore::new();
    assert_eq!(
        store.get_answers("".to_string()),
        Err(DBError::InvalidUUID(String::new()))
    );
}

#[test]
fn question_answer_scenario() {
    let mut store = MemoryStore::new();
    let q = store
        .create_question(Question {
            title: "What is Rust ownership?".to_string(),
            description: "Explain briefly".to_string(),
        })
        .unwrap();
    assert_eq!(q.title, "What is Rust ownership?");
    assert_eq!(q.description, "Explain briefly");
    assert!(!q.created_at.is_empty());

    let a = store.create_answer(answer(&q.question_uuid, "Each value has one owner.")).unwrap();
    assert_eq!(
        a,
        AnswerDetail {
            answer_uuid: "00000000-0000-0000-0000-000000000002".to_string(),
            question_uuid: q.question_uuid.clone(),
            content: "Each value has one owner.".to_string(),
            created_at: "2".to_string(),
        }
    );
    assert_eq!(store.get_answers(q.question_uuid.clone()), Ok(vec![a]));

    let survivor = store.create_question(question("survivor")).unwrap();
    assert_eq!(store.delete_question(q.question_uuid.clone()), Ok(()));
    assert_eq!(store.get_questions(), Ok(vec![survivor]));
}

#[test]
fn deleting_a_question_deletes_its_answers() {
    let mut store = MemoryStore::new();
    let first = store.create_question(question("first")).unwrap();
    let second = store.create_question(question("second")).unwrap();
    store.create_answer(answer(&first.question_uuid, "one")).unwrap();
    let kept = store.create_answer(answer(&second.question_uuid, "two")).unwrap();
    store.create_answer(answer(&first.question_uuid, "three")).unwrap();

    assert_eq!(store.delete_question(first.question_uuid.clone()), Ok(()));
    assert_eq!(store.get_answers(first.question_uuid.clone()), Ok(Vec::new()));
    assert_eq!(store.get_answers(second.question_uuid.clone()), Ok(vec![kept]));
    assert_eq!(
        store.create_answer(answer(&first.question_uuid, "late")),
        Err(DBError::InvalidUUID(first.question_uuid))
    );
}

#[test]
fn answers_come_in_the_order_of_insertion() {
    let mut store = MemoryStore::new();
    let q = store.create_question(question("q")).unwrap();
    let other = store.create_question(question("other")).unwrap();
    let one = store.create_answer(answer(&q.question_uuid, "one")).unwrap();
    store.create_answer(answer(&other.question_uuid, "elsewhere")).unwrap();
    let two = store.create_answer(answer(&q.question_uuid, "two")).unwrap();
    assert_eq!(store.get_answers(q.question_uuid), Ok(vec![one, two]));
}

#[test]
fn deleting_an_answer_twice_succeeds() {
    let mut store = MemoryStore::new();
    let q = store.create_question(question("q")).unwrap();
    let one = store.create_answer(answer(&q.question_uuid, "one")).unwrap();
    let two = store.create_answer(answer(&q.question_uuid, "two")).unwrap();
    assert_eq!(store.delete_answer(one.answer_uuid.clone()), Ok(()));
    assert_eq!(store.delete_answer(one.answer_uuid.clone()), Ok(()));
    assert_eq!(store.get_answers(q.question_uuid), Ok(vec![two]));
}

#[test]
fn listing_after_deleting_everything_is_empty() {
    let mut store = MemoryStore::new();
    let first = store.create_question(question("first")).unwrap();
    let second = store.create_question(question("second")).unwrap();
    assert_eq!(store.get_questions(), Ok(vec![first.clone(), second.clone()]));
    assert_eq!(store.delete_question(second.question_uuid), Ok(()));
    assert_eq!(store.delete_question(first.question_uuid), Ok(()));
    assert_eq!(store.get_questions(), Ok(Vec::new()));
}

#[test]
fn backend_counts_the_rows_it_deletes() {
    let mut backend = MemoryBackend::new();
    let q = backend.insert_question(question("q")).unwrap();
    assert!(backend.has_question(q.question_uuid));
    let a = backend
        .insert_answer(NewAnswer { question_uuid: q.question_uuid, content: "a".to_string() })
        .unwrap();
    assert_eq!(backend.delete_answer(Identifier::from_u128(99)), Ok(0));
    assert_eq!(backend.delete_answer(a.answer_uuid), Ok(1));
    assert_eq!(backend.delete_question(q.question_uuid), Ok(1));
    assert_eq!(backend.delete_question(q.question_uuid), Ok(0));
    assert!(!backend.has_question(q.question_uuid));
    assert_eq!(backend.select_questions(), Ok(Vec::new()));
}

#[test]
fn backend_refuses_an_answer_without_its_question() {
    let mut backend = MemoryBackend::new();
    let refused = backend
        .insert_answer(NewAnswer { question_uuid: Identifier::from_u128(5), content: "a".to_string() })
        .unwrap_err();
    assert_eq!(refused.code, Some("23503".to_string()));
    assert!(refused.is_foreign_key_violation());
    assert_eq!(backend.select_answers(Identifier::from_u128(5)), Ok(Vec::new()));
}

fn ask_and_forget<S: QuestionsDao + AnswersDao>(store: &mut S) -> Vec<QuestionDetail> {
    let asked = store.create_question(question("through the interface")).unwrap();
    store.create_answer(answer(&asked.question_uuid, "answered")).unwrap();
    assert_eq!(store.delete_question(asked.question_uuid), Ok(()));
    store.get_questions().unwrap()
}

#[test]
fn store_is_usable_through_its_interfaces() {
    let mut store = MemoryStore::new();
    let kept = store.create_question(question("kept")).unwrap();
    assert_eq!(ask_and_forget(&mut store), vec![kept]);
}

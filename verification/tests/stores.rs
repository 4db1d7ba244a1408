use qa_store::errors::DBError;
use qa_store::identifier::Identifier;
use qa_store::models::{Answer, AnswerDetail, QuestionDetail};
use qa_store::persistance::answers_dao::{
    answer_created, answer_deleted, answer_to_create, answers_got, NewAnswer,
};
use qa_store::persistance::backend::{AnswerRecord, BackendError, QuestionRecord};
use qa_store::persistance::questions_dao::{question_created, question_deleted, questions_listed};

const Q: u128 = 0x67e55044_10b1_426f_9247_bb680e5fe0c8;
const Q_TEXT: &str = "67e55044-10b1-426f-9247-bb680e5fe0c8";
const A: u128 = 0x0a000000_0000_4000_8000_00000000000b;
const A_TEXT: &str = "0a000000-0000-4000-8000-00000000000b";

fn question_record() -> QuestionRecord {
    QuestionRecord {
        question_uuid: Identifier::from_u128(Q),
        title: "What is Rust ownership?".to_string(),
        description: "Explain briefly".to_string(),
        created_at: "2024-01-02 03:04:05.0".to_string(),
    }
}

fn answer_record() -> AnswerRecord {
    AnswerRecord {
        answer_uuid: Identifier::from_u128(A),
        question_uuid: Identifier::from_u128(Q),
        content: "Each value has one owner.".to_string(),
        created_at: "2024-01-02 03:04:06.0".to_string(),
    }
}

fn failure(code: Option<&str>) -> BackendError {
    BackendError { code: code.map(|c| c.to_string()) }
}

#[test]
fn foreign_key_violation_is_told_by_its_code_alone() {
    assert!(failure(Some("23503")).is_foreign_key_violation());
    assert!(!failure(Some("23505")).is_foreign_key_violation());
    assert!(!failure(Some("2350")).is_foreign_key_violation());
    assert!(!failure(Some("235030")).is_foreign_key_violation());
    assert!(!failure(Some("")).is_foreign_key_violation());
    assert!(!failure(None).is_foreign_key_violation());
}

#[test]
fn record_detail_renders_the_identifiers() {
    assert_eq!(
        question_record().detail(),
        QuestionDetail {
            question_uuid: Q_TEXT.to_string(),
            title: "What is Rust ownership?".to_string(),
            description: "Explain briefly".to_string(),
            created_at: "2024-01-02 03:04:05.0".to_string(),
        }
    );
    assert_eq!(
        answer_record().detail(),
        AnswerDetail {
            answer_uuid: A_TEXT.to_string(),
            question_uuid: Q_TEXT.to_string(),
            content: "Each value has one owner.".to_string(),
            created_at: "2024-01-02 03:04:06.0".to_string(),
        }
    );
}

#[test]
fn duplicate_has_the_same_fields() {
    assert_eq!(question_record().duplicate(), question_record());
    assert_eq!(answer_record().duplicate(), answer_record());
}

#[test]
fn created_question_is_handed_back() {
    assert_eq!(question_created(Ok(question_record())), Ok(question_record().detail()));
}

#[test]
fn failed_question_insert_is_a_storage_failure() {
    assert_eq!(question_created(Err(failure(None))), Err(DBError::Other));
    assert_eq!(question_created(Err(failure(Some("23503")))), Err(DBError::Other));
    assert_eq!(question_created(Err(failure(Some("23505")))), Err(DBError::Other));
}

#[test]
fn listed_questions_keep_count_and_order() {
    let mut second = question_record();
    second.question_uuid = Identifier::from_u128(7);
    second.title = "Second".to_string();
    let listed = questions_listed(Ok(vec![question_record(), second.duplicate()])).unwrap();
    assert_eq!(listed, vec![question_record().detail(), second.detail()]);
    assert_eq!(listed[1].question_uuid, "00000000-0000-0000-0000-000000000007");
}

#[test]
fn no_questions_is_an_empty_list() {
    assert_eq!(questions_listed(Ok(Vec::new())), Ok(Vec::new()));
}

#[test]
fn failed_question_select_is_a_storage_failure() {
    assert_eq!(questions_listed(Err(failure(Some("08006")))), Err(DBError::Other));
}

#[test]
fn question_delete_succeeds_whatever_was_deleted() {
    assert_eq!(question_deleted(Ok(1)), Ok(()));
    assert_eq!(question_deleted(Ok(0)), Ok(()));
    assert_eq!(question_deleted(Ok(u64::MAX)), Ok(()));
}

#[test]
fn failed_question_delete_is_a_storage_failure() {
    assert_eq!(question_deleted(Err(failure(None))), Err(DBError::Other));
    assert_eq!(question_deleted(Err(failure(Some("23503")))), Err(DBError::Other));
}

#[test]
fn answer_with_well_formed_question_may_be_inserted() {
    let answer = Answer {
        question_uuid: "67E5504410B1426F9247BB680E5FE0C8".to_string(),
        content: "Each value has one owner.".to_string(),
    };
    assert_eq!(
        answer_to_create(answer),
        Ok(NewAnswer {
            question_uuid: Identifier::from_u128(Q),
            content: "Each value has one owner.".to_string(),
        })
    );
}

#[test]
fn answer_with_malformed_question_is_refused_with_the_text() {
    let answer = Answer { question_uuid: "67e55044".to_string(), content: "x".to_string() };
    assert_eq!(answer_to_create(answer), Err(DBError::InvalidUUID("67e55044".to_string())));
}

#[test]
fn created_answer_is_handed_back() {
    assert_eq!(
        answer_created(Identifier::from_u128(Q), Ok(answer_record())),
        Ok(answer_record().detail())
    );
}

#[test]
fn missing_question_is_an_invalid_identifier_in_canonical_text() {
    assert_eq!(
        answer_created(Identifier::from_u128(Q), Err(failure(Some("23503")))),
        Err(DBError::InvalidUUID(Q_TEXT.to_string()))
    );
}

#[test]
fn other_failed_answer_insert_is_a_storage_failure() {
    for code in [None, Some("23505"), Some("23502"), Some("08006"), Some("40001"), Some("")] {
        assert_eq!(
            answer_created(Identifier::from_u128(Q), Err(failure(code))),
            Err(DBError::Other)
        );
    }
}

#[test]
fn answer_delete_succeeds_whatever_was_deleted() {
    assert_eq!(answer_deleted(Ok(1)), Ok(()));
    assert_eq!(answer_deleted(Ok(0)), Ok(()));
}

#[test]
fn failed_answer_delete_is_a_storage_failure() {
    assert_eq!(answer_deleted(Err(failure(Some("57014")))), Err(DBError::Other));
}

#[test]
fn got_answers_keep_count_and_order() {
    let mut second = answer_record();
    second.answer_uuid = Identifier::from_u128(9);
    second.content = "Second".to_string();
    let got = answers_got(Ok(vec![answer_record(), second.duplicate()])).unwrap();
    assert_eq!(got, vec![answer_record().detail(), second.detail()]);
    assert_eq!(got[1].answer_uuid, "00000000-0000-0000-0000-000000000009");
    assert_eq!(got[1].question_uuid, Q_TEXT);
}

#[test]
fn no_answers_is_an_empty_list_and_no_failure() {
    assert_eq!(answers_got(Ok(Vec::new())), Ok(Vec::new()));
}

#[test]
fn failed_answer_select_is_a_storage_failure() {
    assert_eq!(answers_got(Err(failure(None))), Err(DBError::Other));
}

use crossscp::prompts::{FixedPromptBroker, PromptBroker, PromptRequest, PromptResponse};
use crossscp::protocol::numbered_conflict_path;

#[test]
fn fixed_prompt_broker_returns_configured_response() {
    let broker = FixedPromptBroker::accept();

    assert_eq!(
        broker.prompt(PromptRequest::Confirm {
            title: "Confirm".to_string(),
            message: "Continue?".to_string(),
        }),
        Ok(PromptResponse::Accept)
    );
}

#[test]
fn numbered_conflict_paths_preserve_file_extensions() {
    assert_eq!(
        numbered_conflict_path("/uploads/report.pdf", 1, false),
        "/uploads/report (1).pdf"
    );
    assert_eq!(
        numbered_conflict_path("/uploads/archive.tar.gz", 2, false),
        "/uploads/archive.tar (2).gz"
    );
    assert_eq!(
        numbered_conflict_path("/uploads/.env", 1, false),
        "/uploads/.env (1)"
    );
}

#[test]
fn numbered_conflict_paths_suffix_directories() {
    assert_eq!(
        numbered_conflict_path("/uploads/photos", 3, true),
        "/uploads/photos (3)"
    );
    assert_eq!(
        numbered_conflict_path("/uploads/photos/", 1, true),
        "/uploads/photos (1)"
    );
}

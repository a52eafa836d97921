use mojo_arena::metadata::build_metadata_json;
use mojo_arena::orchestrator::{
    orchestrator_step, start_character_metadata, OrchestratorAction, OrchestratorState,
    UploadOutcome,
};
use mojo_arena::upload::UploadError;

fn start() -> (OrchestratorState, OrchestratorAction) {
    start_character_metadata("Freya", "Norse warrior goddess", 100, 18, 12, b"png bytes".to_vec())
}

/// Drives a whole run against a scripted transport, counting the uploads
/// that were actually issued.
fn run(
    mut outcomes: Vec<UploadOutcome>,
) -> (OrchestratorState, usize) {
    let (mut state, mut action) = start();
    let mut uploads = 0usize;
    loop {
        match action {
            OrchestratorAction::Upload { .. } => {
                uploads += 1;
                let outcome = outcomes.remove(0);
                let next = orchestrator_step(state, outcome);
                state = next.0;
                action = next.1;
            }
            OrchestratorAction::Stop => return (state, uploads),
        }
    }
}

#[test]
fn starts_with_the_image_upload() {
    let (state, action) = start();
    assert!(matches!(state, OrchestratorState::AwaitingImage { .. }));
    match action {
        OrchestratorAction::Upload { payload, content_type } => {
            assert_eq!(payload, b"png bytes".to_vec());
            assert_eq!(content_type, "image/png");
        }
        OrchestratorAction::Stop => panic!("expected an upload action"),
    }
}

#[test]
fn failing_image_upload_stops_before_metadata() {
    let error = UploadError::RemoteRejected(500, "boom".to_string());
    let (state, uploads) = run(vec![UploadOutcome::Failed { error: error.clone() }]);
    // Exactly one network call was made: the metadata upload never started.
    assert_eq!(uploads, 1);
    match state {
        OrchestratorState::Failed { error: e } => assert_eq!(e, error),
        _ => panic!("expected the run to fail"),
    }
}

#[test]
fn successful_run_uploads_twice_and_returns_metadata_url() {
    let (state, uploads) = run(vec![
        UploadOutcome::Succeeded { url: "https://gateway.irys.xyz/img".to_string() },
        UploadOutcome::Succeeded { url: "https://gateway.irys.xyz/meta".to_string() },
    ]);
    assert_eq!(uploads, 2);
    match state {
        OrchestratorState::Done { url } => assert_eq!(url, "https://gateway.irys.xyz/meta"),
        _ => panic!("expected the run to finish"),
    }
}

#[test]
fn metadata_payload_embeds_the_image_url() {
    let (state, _) = start();
    let (next, action) = orchestrator_step(
        state,
        UploadOutcome::Succeeded { url: "https://gateway.irys.xyz/img".to_string() },
    );
    assert!(matches!(next, OrchestratorState::AwaitingMetadata));
    match action {
        OrchestratorAction::Upload { payload, content_type } => {
            assert_eq!(content_type, "application/json");
            let expected = "{\"name\":\"Freya\",\"description\":\"Norse warrior goddess\",\
                \"image\":\"https://gateway.irys.xyz/img\",\
                \"attributes\":[{\"trait_type\":\"HP\",\"value\":100},\
                {\"trait_type\":\"ATK\",\"value\":18},\
                {\"trait_type\":\"DEF\",\"value\":12}]}";
            assert_eq!(String::from_utf8(payload).unwrap(), expected);
        }
        OrchestratorAction::Stop => panic!("expected the metadata upload"),
    }
}

#[test]
fn failing_metadata_upload_fails_the_run() {
    let (state, uploads) = run(vec![
        UploadOutcome::Succeeded { url: "u".to_string() },
        UploadOutcome::Failed { error: UploadError::MalformedResponse },
    ]);
    assert_eq!(uploads, 2);
    assert!(matches!(state, OrchestratorState::Failed { error: UploadError::MalformedResponse }));
}

#[test]
fn metadata_json_escapes_its_fields() {
    let json = build_metadata_json("a\"b\\c", "line\nbreak\tand \u{1}", "url", 1, 2, 3);
    let expected = "{\"name\":\"a\\\"b\\\\c\",\
        \"description\":\"line\\nbreak\\tand \\u0001\",\
        \"image\":\"url\",\
        \"attributes\":[{\"trait_type\":\"HP\",\"value\":1},\
        {\"trait_type\":\"ATK\",\"value\":2},\
        {\"trait_type\":\"DEF\",\"value\":3}]}";
    assert_eq!(String::from_utf8(json).unwrap(), expected);
}

#[test]
fn metadata_json_matches_reference_serializer() {
    let json = build_metadata_json("Chloé ✓", "desc \"q\" \\", "https://x/y", 7, 8, 9);
    let value: serde_json::Value = serde_json::from_slice(&json).unwrap();
    assert_eq!(value["name"], "Chloé ✓");
    assert_eq!(value["description"], "desc \"q\" \\");
    assert_eq!(value["image"], "https://x/y");
    assert_eq!(value["attributes"][0]["trait_type"], "HP");
    assert_eq!(value["attributes"][0]["value"], 7);
    assert_eq!(value["attributes"][2]["value"], 9);
}

#[test]
fn finished_runs_stay_finished() {
    let done = OrchestratorState::Done { url: "u".to_string() };
    let (next, action) = orchestrator_step(
        done,
        UploadOutcome::Succeeded { url: "other".to_string() },
    );
    match next {
        OrchestratorState::Done { url } => assert_eq!(url, "u"),
        _ => panic!("expected the run to stay done"),
    }
    assert!(matches!(action, OrchestratorAction::Stop));
}

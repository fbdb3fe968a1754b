use quicklime::mode::{Backend, Mode};
use quicklime::prompt::{build, endpoint, model, Role};
use quicklime::response::{handle_response, BackendError};

#[test]
fn endpoints_and_models_per_backend() {
    assert_eq!(endpoint(Backend::ChatGpt), "https://api.openai.com/v1/chat/completions");
    assert_eq!(endpoint(Backend::Grok), "https://api.x.ai/v1/chat/completions");
    assert_eq!(model(Backend::ChatGpt), "gpt-4o-mini");
    assert_eq!(model(Backend::Grok), "grok-2-latest");
}

#[test]
fn role_wire_names() {
    assert_eq!(Role::System.name(), "system");
    assert_eq!(Role::Assistant.name(), "assistant");
    assert_eq!(Role::User.name(), "user");
}

#[test]
fn translation_prompt_embeds_the_target_language() {
    let r = build(Mode::Translation, "hello", "French", Backend::ChatGpt);
    assert_eq!(r.model, "gpt-4o-mini");
    assert_eq!(r.messages.len(), 3);
    assert_eq!(r.messages[0].role, Role::System);
    assert_eq!(
        r.messages[0].content,
        "You are a professional translation engine. Please translate the text into French without explanation."
    );
    assert_eq!(r.messages[1].role, Role::Assistant);
    assert_eq!(
        r.messages[1].content,
        "Yes, I understand. Please give me the sentence. I reply only the translated sentence, otherwise reply empty string."
    );
    assert_eq!(r.messages[2].role, Role::User);
    assert_eq!(r.messages[2].content, "hello");
}

#[test]
fn polishing_prompt_ignores_the_language() {
    let r = build(Mode::Polishing, "helo world", "French", Backend::ChatGpt);
    assert_eq!(
        r.messages[0].content,
        "You are a professional polishing engine. Please polish the text."
    );
    assert_eq!(
        r.messages[1].content,
        "Yes, I understand. Please give me the sentence. I reply only the polished sentence, otherwise reply empty string."
    );
    assert_eq!(r.messages[2].content, "helo world");
}

#[test]
fn completion_prompt_texts() {
    let r = build(Mode::Completion, "once upon", "German", Backend::ChatGpt);
    assert_eq!(
        r.messages[0].content,
        "You are a professional completion engine. Please complete the text."
    );
    assert_eq!(r.messages[1].content, "Yes, I understand. Please give me the sentence.");
}

#[test]
fn grok_prompt_uses_its_model_and_short_priming() {
    let r = build(Mode::Translation, "hello", "Spanish", Backend::Grok);
    assert_eq!(r.model, "grok-2-latest");
    assert_eq!(
        r.messages[0].content,
        "You are a professional translation engine. Please translate the text into Spanish without explanation."
    );
    assert_eq!(r.messages[1].content, "Yes, I understand. Please give me the sentence.");
}

#[test]
fn identical_inputs_build_identical_payloads() {
    let a = build(Mode::Translation, "hi", "French", Backend::Grok);
    let b = build(Mode::Translation, "hi", "French", Backend::Grok);
    assert_eq!(a.model, b.model);
    assert_eq!(a.messages.len(), b.messages.len());
    for (x, y) in a.messages.iter().zip(b.messages.iter()) {
        assert_eq!(x.role, y.role);
        assert_eq!(x.content, y.content);
    }
}

#[test]
fn success_response_yields_the_answer_text() {
    let body = "{\"choices\":[{\"message\":{\"content\":\"bonjour\"}}]}";
    let r = handle_response(200, body);
    assert_eq!(r.unwrap(), "bonjour");
}

#[test]
fn first_nonempty_answer_is_selected() {
    let body = "{\"choices\":[{\"message\":{\"content\":\"\"}},{\"message\":{\"content\":\"second\"}}]}";
    let r = handle_response(200, body);
    assert_eq!(r.unwrap(), "second");
}

#[test]
fn non_string_answers_are_skipped() {
    let body = "{\"choices\":[{\"message\":{\"content\":7}},{\"message\":{\"content\":\"ok\"}}]}";
    let r = handle_response(200, body);
    assert_eq!(r.unwrap(), "ok");
}

#[test]
fn missing_answer_yields_the_empty_string() {
    let body = "{\"choices\":[]}";
    let r = handle_response(200, body);
    assert_eq!(r.unwrap(), "");
}

#[test]
fn answerless_document_yields_the_empty_string() {
    let body = "{\"id\":\"x\"}";
    let r = handle_response(204, body);
    assert_eq!(r.unwrap(), "");
}

#[test]
fn rejected_status_keeps_status_and_body() {
    let r = handle_response(401, "denied");
    match r {
        Err(BackendError::Rejected { status, body }) => {
            assert_eq!(status, 401);
            assert_eq!(body, "denied");
        }
        other => panic!("expected a rejection, got {:?}", other),
    }
}

#[test]
fn server_error_status_is_rejected_too() {
    assert!(matches!(
        handle_response(500, "{}"),
        Err(BackendError::Rejected { status: 500, .. })
    ));
}

#[test]
fn malformed_body_fails_to_decode() {
    let r = handle_response(200, "not json at all {");
    assert!(matches!(r, Err(BackendError::Decode)));
}

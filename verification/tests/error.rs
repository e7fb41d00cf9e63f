use fgp_workflow::error::decimal_text;
use fgp_workflow::{Cause, Error};

#[test]
fn decimal_text_of_small_and_large_numbers() {
    assert_eq!(decimal_text(0), "0");
    assert_eq!(decimal_text(7), "7");
    assert_eq!(decimal_text(9), "9");
    assert_eq!(decimal_text(10), "10");
    assert_eq!(decimal_text(99), "99");
    assert_eq!(decimal_text(100), "100");
    assert_eq!(decimal_text(1234567890), "1234567890");
    assert_eq!(decimal_text(usize::MAX), usize::MAX.to_string());
}

#[test]
fn validation_messages() {
    assert_eq!(Error::EmptyName.message(), "Workflow name cannot be empty");
    assert_eq!(Error::NoSteps.message(), "Workflow must have at least one step");
    assert_eq!(
        Error::EmptyService { index: 12 }.message(),
        "Step 12 has empty service name"
    );
    assert_eq!(
        Error::EmptyMethod { index: 305 }.message(),
        "Step 305 has empty method name"
    );
}

#[test]
fn template_message_names_the_template() {
    let error = Error::TemplateRender {
        template: "{{#if}}".to_string(),
        reason: "it is malformed".to_string(),
    };
    assert_eq!(
        error.message(),
        "Failed to render template '{{#if}}': it is malformed"
    );
}

#[test]
fn step_messages_name_the_step_and_the_call() {
    let reported = Error::StepExecution {
        index: 0,
        service: "svc".to_string(),
        method: "m1".to_string(),
        cause: Cause::Reported("boom".to_string()),
    };
    assert_eq!(reported.message(), "Step 0 (svc.m1) returned error: boom");

    let silent = Error::StepExecution {
        index: 41,
        service: "gmail".to_string(),
        method: "gmail.inbox".to_string(),
        cause: Cause::Reported(String::new()),
    };
    assert_eq!(silent.message(), "Step 41 (gmail.gmail.inbox) returned error: ");

    let unreachable = Error::StepExecution {
        index: 3,
        service: "svc".to_string(),
        method: "m".to_string(),
        cause: Cause::Unreachable("no socket".to_string()),
    };
    assert_eq!(unreachable.message(), "Step 3 (svc.m) failed: no socket");
}

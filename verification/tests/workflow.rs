use fgp_workflow::{validate, Error, Step, Workflow, WorkflowBuilder};

#[test]
fn test_workflow_builder() {
    let workflow = Workflow::new("test")
        .description("Test workflow")
        .add(
            Step::call("gmail", "gmail.inbox")
                .with_param("limit", 5)
                .output("emails")
                .build(),
        )
        .add(
            Step::call("browser", "browser.open")
                .with_template_param("url", "{{ emails.0.url }}")
                .build(),
        )
        .build();

    assert_eq!(workflow.name, "test");
    assert_eq!(workflow.steps.len(), 2);
    assert_eq!(workflow.steps[0].service, "gmail");
    assert_eq!(workflow.steps[1].service, "browser");
}

#[test]
fn test_validate_empty_name() {
    let workflow = Workflow::new("")
        .add(Step::call("test", "test.action"))
        .build();

    let result = validate(&workflow);
    assert!(result.is_err());
    assert!(result
        .unwrap_err()
        .message()
        .contains("name cannot be empty"));
}

#[test]
fn test_validate_no_steps() {
    let workflow = Workflow::empty("empty-workflow");

    let result = validate(&workflow);
    assert!(result.is_err());
    assert!(result
        .unwrap_err()
        .message()
        .contains("at least one step"));
}

#[test]
fn valid_workflow_passes() {
    let workflow = Workflow::new("w")
        .add(Step::call("a", "a.x"))
        .add(Step::call("b", "b.y"))
        .build();
    assert_eq!(validate(&workflow), Ok(()));
}

#[test]
fn empty_name_is_reported_before_anything_else() {
    assert_eq!(validate(&Workflow::empty("")), Err(Error::EmptyName));
    let workflow = Workflow::new("").add(Step::call("", "")).build();
    assert_eq!(validate(&workflow), Err(Error::EmptyName));
}

#[test]
fn no_steps_is_reported_for_a_named_workflow() {
    assert_eq!(validate(&Workflow::empty("w")), Err(Error::NoSteps));
    assert_eq!(validate(&Workflow::new("w").build()), Err(Error::NoSteps));
}

#[test]
fn empty_service_is_reported_with_the_step() {
    let workflow = Workflow::new("w")
        .add(Step::call("a", "a.x"))
        .add(Step::call("", "b.y"))
        .add(Step::call("", ""))
        .build();
    assert_eq!(validate(&workflow), Err(Error::EmptyService { index: 1 }));
    assert_eq!(
        validate(&workflow).unwrap_err().message(),
        "Step 1 has empty service name"
    );
}

#[test]
fn empty_method_is_reported_with_the_step() {
    let workflow = Workflow::new("w")
        .add(Step::call("a", ""))
        .add(Step::call("", "b.y"))
        .build();
    assert_eq!(validate(&workflow), Err(Error::EmptyMethod { index: 0 }));
    assert_eq!(
        validate(&workflow).unwrap_err().message(),
        "Step 0 has empty method name"
    );
}

#[test]
fn service_is_checked_before_method() {
    let workflow = Workflow::new("w").add(Step::call("", "")).build();
    assert_eq!(validate(&workflow), Err(Error::EmptyService { index: 0 }));
}

#[test]
fn first_faulty_step_is_reported() {
    let workflow = Workflow::new("w")
        .add(Step::call("a", "a.x"))
        .add(Step::call("b", "b.x"))
        .add(Step::call("c", ""))
        .add(Step::call("", "d.x"))
        .build();
    assert_eq!(validate(&workflow), Err(Error::EmptyMethod { index: 2 }));
}

#[test]
fn empty_workflow_has_a_name_and_nothing_else() {
    let workflow = Workflow::empty("bare");
    assert_eq!(
        workflow,
        Workflow { name: "bare".to_string(), description: None, steps: vec![] }
    );
    assert_eq!(WorkflowBuilder::new("bare").build(), workflow);
    assert_eq!(Workflow::new("bare").build(), workflow);
}

#[test]
fn steps_are_added_at_the_end() {
    let first = Step::call("a", "a.x");
    let second = Step::call("b", "b.y").output("out");
    let workflow = Workflow::new("w")
        .step(first.clone())
        .add(second.clone())
        .add(first.clone().build())
        .build();
    assert_eq!(
        workflow.steps,
        vec![first.clone().build(), second.build(), first.build()]
    );
}

#[test]
fn description_is_set_last_wins() {
    let workflow = Workflow::new("w").description("one").description("two").build();
    assert_eq!(workflow.description, Some("two".to_string()));
    assert_eq!(workflow.name, "w");
}

#[test]
fn workflow_builder_turns_into_a_workflow() {
    let builder = Workflow::new("w").add(Step::call("a", "a.x"));
    let built = builder.clone().build();
    let converted: Workflow = builder.into();
    assert_eq!(converted, built);
    assert_eq!(converted.clone(), built);
}

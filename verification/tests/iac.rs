use macro_kit::iac::{
    add_permission_request, bucket_region_name, create_bucket_request, create_function_request, lambda_region_name,
    link_bucket_request, Bucket, IacError, IacInput, Lambda,
};

fn lambda(memory: Option<u16>, time: Option<u16>) -> Lambda {
    Lambda { name: "my-fn".to_string(), memory, time }
}

#[test]
fn resources_are_there_when_a_bucket_or_a_lambda_is() {
    let none = IacInput { bucket: None, lambda: None };
    assert!(!none.has_resources(false));
    let bucket = IacInput { bucket: Some(Bucket { name: "b".to_string(), has_event: false }), lambda: None };
    assert!(bucket.has_resources(false));
    let function = IacInput { bucket: None, lambda: Some(lambda(None, None)) };
    assert!(function.has_resources(false));
}

#[test]
fn an_ide_completion_run_creates_nothing() {
    let both = IacInput { bucket: Some(Bucket { name: "b".to_string(), has_event: true }), lambda: Some(lambda(None, None)) };
    assert!(!both.has_resources(true));
}

#[test]
fn error_messages_name_the_resource() {
    assert_eq!(IacError::BucketError("x".to_string()).message(), "bucket could not be created: x");
    assert_eq!(IacError::LambdaError("y".to_string()).message(), "lambda could not be created: y");
    assert_eq!(IacError::EventError("z".to_string()).message(), "event could not be created: z");
}

#[test]
fn errors_become_compile_errors() {
    assert_eq!(
        IacError::BucketError("x".to_string()).into_compile_error(),
        ":: core :: compile_error ! { \"bucket could not be created: x\" }"
    );
    assert_eq!(
        IacError::EventError("say \"hi\"".to_string()).into_compile_error(),
        ":: core :: compile_error ! { \"event could not be created: say \\\"hi\\\"\" }"
    );
}

#[test]
fn regions() {
    assert_eq!(lambda_region_name(), "eu-south-2");
    assert_eq!(bucket_region_name(), "eu-south-2");
}

#[test]
fn create_function_request_carries_the_optional_settings() {
    let r = create_function_request(&lambda(Some(512), Some(30)));
    assert_eq!(r.function_name, "my-fn");
    assert_eq!(r.role, "arn:aws:iam:1111111111:role/change");
    assert_eq!(r.code_bucket, "my-lambda_bucket");
    assert_eq!(r.code_key, "example.zip");
    assert_eq!(r.timeout, Some(30));
    assert_eq!(r.memory_size, Some(512));
    let bare = create_function_request(&lambda(None, None));
    assert_eq!(bare.timeout, None);
    assert_eq!(bare.memory_size, None);
    assert_eq!(create_function_request(&lambda(Some(u16::MAX), None)).memory_size, Some(65535));
}

#[test]
fn permission_request_names_the_bucket() {
    let r = add_permission_request(&lambda(None, None), "my-bucket");
    assert_eq!(r.function_name, "my-fn");
    assert_eq!(r.principal, "*");
    assert_eq!(r.statement_id, "StatementId");
    assert_eq!(r.action, "lambda:InvokeFunction");
    assert_eq!(r.source_arn, "arn:aws:s3::::my-bucket");
}

#[test]
fn bucket_requests() {
    let b = Bucket { name: "my-bucket".to_string(), has_event: true };
    let c = create_bucket_request(&b, "eu-south-2");
    assert_eq!(c.bucket, "my-bucket");
    assert_eq!(c.location_constraint, "eu-south-2");
    let n = link_bucket_request(&b, "arn:aws:lambda:fn");
    assert_eq!(n.bucket, "my-bucket");
    assert_eq!(n.lambda_function_arn, "arn:aws:lambda:fn");
    assert_eq!(n.event, "s3:ObjectCreated:*");
}

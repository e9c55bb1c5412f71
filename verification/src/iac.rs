//! The infrastructure-as-code macro: the resources it is asked for, the
//! requests it sends to create them, and the errors it reports.

use vstd::prelude::*;
use crate::tokens::{error_invocation, error_invocation_of};

verus! {

/// A storage bucket, and whether an event should call the function when
/// objects are created in it.
#[derive(Debug)]
pub struct Bucket {
    pub name: String,
    pub has_event: bool,
}

/// A function, with its memory size in megabytes and timeout in seconds
/// when they are given.
#[derive(Debug)]
pub struct Lambda {
    pub name: String,
    pub memory: Option<u16>,
    pub time: Option<u16>,
}

/// The resources that the macro is asked to create.
#[derive(Debug)]
pub struct IacInput {
    pub bucket: Option<Bucket>,
    pub lambda: Option<Lambda>,
}

impl IacInput {
    /// Whether there is anything to create: a bucket or a function, unless
    /// the macro runs for an IDE's completion (`ide_completion`).
    pub fn has_resources(&self, ide_completion: bool) -> (res: bool)
        ensures
            res == (!ide_completion && (self.bucket is Some || self.lambda is Some)),
    {
        !ide_completion && (self.bucket.is_some() || self.lambda.is_some())
    }
}

/// Why a resource could not be created, with the service's message.
#[derive(Debug)]
pub enum IacError {
    BucketError(String),
    LambdaError(String),
    EventError(String),
}

/// The message that reports an error.
pub open spec fn iac_message(e: IacError) -> Seq<char> {
    match e {
        IacError::BucketError(m) => "bucket could not be created: "@ + m@,
        IacError::LambdaError(m) => "lambda could not be created: "@ + m@,
        IacError::EventError(m) => "event could not be created: "@ + m@,
    }
}

impl IacError {
    /// The message that reports this error.
    pub fn message(&self) -> (res: String)
        ensures
            res@ == iac_message(*self),
    {
        match self {
            IacError::BucketError(m) => {
                let mut out = String::from_str("bucket could not be created: ");
                out.append(m.as_str());
                out
            },
            IacError::LambdaError(m) => {
                let mut out = String::from_str("lambda could not be created: ");
                out.append(m.as_str());
                out
            },
            IacError::EventError(m) => {
                let mut out = String::from_str("event could not be created: ");
                out.append(m.as_str());
                out
            },
        }
    }

    /// The `compile_error!` that reports this error.
    pub fn into_compile_error(self) -> (res: String)
        ensures
            res@ == error_invocation_of(iac_message(self)),
    {
        let m = self.message();
        error_invocation(m.as_str())
    }
}

/// The region in which the functions are created.
pub open spec fn lambda_region() -> Seq<char> {
    "eu-south-2"@
}

/// The region in which the buckets are created.
pub open spec fn bucket_region() -> Seq<char> {
    "eu-south-2"@
}

/// The region in which the functions are created.
pub fn lambda_region_name() -> (res: String)
    ensures
        res@ == lambda_region(),
{
    String::from_str("eu-south-2")
}

/// The region in which the buckets are created.
pub fn bucket_region_name() -> (res: String)
    ensures
        res@ == bucket_region(),
{
    String::from_str("eu-south-2")
}

/// The request that creates a function: its name, the role it runs under,
/// the archive of its code, and its timeout and memory size when given.
pub struct CreateFunctionRequest {
    pub function_name: String,
    pub role: String,
    pub code_bucket: String,
    pub code_key: String,
    pub timeout: Option<i32>,
    pub memory_size: Option<i32>,
}

/// The request that creates `lambda`.
pub fn create_function_request(lambda: &Lambda) -> (res: CreateFunctionRequest)
    ensures
        res.function_name@ == lambda.name@,
        res.role@ == "arn:aws:iam:1111111111:role/change"@,
        res.code_bucket@ == "my-lambda_bucket"@,
        res.code_key@ == "example.zip"@,
        res.timeout == (match lambda.time { Some(t) => Some(t as i32), None => None::<i32> }),
        res.memory_size == (match lambda.memory { Some(m) => Some(m as i32), None => None::<i32> }),
{
    let timeout = match lambda.time {
        Some(t) => Some(t as i32),
        None => None,
    };
    let memory_size = match lambda.memory {
        Some(m) => Some(m as i32),
        None => None,
    };
    CreateFunctionRequest {
        function_name: lambda.name.clone(),
        role: String::from_str("arn:aws:iam:1111111111:role/change"),
        code_bucket: String::from_str("my-lambda_bucket"),
        code_key: String::from_str("example.zip"),
        timeout,
        memory_size,
    }
}

/// The request that lets a bucket invoke a function.
pub struct AddPermissionRequest {
    pub function_name: String,
    pub principal: String,
    pub statement_id: String,
    pub action: String,
    pub source_arn: String,
}

/// The request that lets the bucket `bucket` invoke `lambda`.
pub fn add_permission_request(lambda: &Lambda, bucket: &str) -> (res: AddPermissionRequest)
    ensures
        res.function_name@ == lambda.name@,
        res.principal@ == "*"@,
        res.statement_id@ == "StatementId"@,
        res.action@ == "lambda:InvokeFunction"@,
        res.source_arn@ == "arn:aws:s3::::"@ + bucket@,
{
    let mut source_arn = String::from_str("arn:aws:s3::::");
    source_arn.append(bucket);
    AddPermissionRequest {
        function_name: lambda.name.clone(),
        principal: String::from_str("*"),
        statement_id: String::from_str("StatementId"),
        action: String::from_str("lambda:InvokeFunction"),
        source_arn,
    }
}

/// The request that creates a bucket in a region.
pub struct CreateBucketRequest {
    pub bucket: String,
    pub location_constraint: String,
}

/// The request that creates `bucket` in `region`.
pub fn create_bucket_request(bucket: &Bucket, region: &str) -> (res: CreateBucketRequest)
    ensures
        res.bucket@ == bucket.name@,
        res.location_constraint@ == region@,
{
    CreateBucketRequest { bucket: bucket.name.clone(), location_constraint: String::from_str(region) }
}

/// The request that makes a bucket call a function on an event.
pub struct NotificationRequest {
    pub bucket: String,
    pub lambda_function_arn: String,
    pub event: String,
}

/// The request that makes `bucket` call the function `lambda_arn` whenever
/// an object is created in it.
pub fn link_bucket_request(bucket: &Bucket, lambda_arn: &str) -> (res: NotificationRequest)
    ensures
        res.bucket@ == bucket.name@,
        res.lambda_function_arn@ == lambda_arn@,
        res.event@ == "s3:ObjectCreated:*"@,
{
    NotificationRequest {
        bucket: bucket.name.clone(),
        lambda_function_arn: String::from_str(lambda_arn),
        event: String::from_str("s3:ObjectCreated:*"),
    }
}

} // verus!

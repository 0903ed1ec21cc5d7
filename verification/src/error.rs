use vstd::prelude::*;
use rusoto_core::RusotoError;
use rusoto_dynamodb::DescribeTableError;
use rusoto_dynamodb::GetItemError;
use rusoto_dynamodb::PutItemError;
use std::num::ParseIntError;

verus! {

/// The errors of the DHT layer: failures reported by DynamoDB, and failures
/// to read the data that it holds.
#[derive(Debug)]
pub enum BbDhtError {
    InternalServerError(String),
    ItemCollectionSizeLimitExceeded(String),
    ProvisionedThroughputExceeded(String),
    ConditionalCheckFailed(String),
    TransactionConflict(String),
    RequestLimitExceeded(String),
    ResourceNotFound(String),
    HttpDispatch(String),
    Credentials(String),
    Validation(String),
    ParseError(String),
    Unknown(String),
    MissingData(String),
    CorruptData(String),
}

impl BbDhtError {
    /// The message that every variant carries.
    pub open spec fn message(&self) -> Seq<char> {
        match self {
            BbDhtError::InternalServerError(s) => s@,
            BbDhtError::ItemCollectionSizeLimitExceeded(s) => s@,
            BbDhtError::ProvisionedThroughputExceeded(s) => s@,
            BbDhtError::ConditionalCheckFailed(s) => s@,
            BbDhtError::TransactionConflict(s) => s@,
            BbDhtError::RequestLimitExceeded(s) => s@,
            BbDhtError::ResourceNotFound(s) => s@,
            BbDhtError::HttpDispatch(s) => s@,
            BbDhtError::Credentials(s) => s@,
            BbDhtError::Validation(s) => s@,
            BbDhtError::ParseError(s) => s@,
            BbDhtError::Unknown(s) => s@,
            BbDhtError::MissingData(s) => s@,
            BbDhtError::CorruptData(s) => s@,
        }
    }

    /// The error as text: the message that it carries, whatever the variant.
    pub fn to_string(&self) -> (r: String)
        ensures
            r@ == self.message(),
    {
        match self {
            BbDhtError::InternalServerError(s) => s.clone(),
            BbDhtError::ProvisionedThroughputExceeded(s) => s.clone(),
            BbDhtError::ItemCollectionSizeLimitExceeded(s) => s.clone(),
            BbDhtError::ConditionalCheckFailed(s) => s.clone(),
            BbDhtError::TransactionConflict(s) => s.clone(),
            BbDhtError::RequestLimitExceeded(s) => s.clone(),
            BbDhtError::ResourceNotFound(s) => s.clone(),
            BbDhtError::HttpDispatch(s) => s.clone(),
            BbDhtError::Credentials(s) => s.clone(),
            BbDhtError::Validation(s) => s.clone(),
            BbDhtError::ParseError(s) => s.clone(),
            BbDhtError::Unknown(s) => s.clone(),
            BbDhtError::MissingData(s) => s.clone(),
            BbDhtError::CorruptData(s) => s.clone(),
        }
    }
}

/// `std::num::ParseIntError`, carried through opaque.
#[verifier::external_type_specification]
#[verifier::external_body]
pub struct ExParseIntError(ParseIntError);

impl From<ParseIntError> for BbDhtError {
    fn from(int_error: ParseIntError) -> (r: Self)
        ensures
            r matches BbDhtError::CorruptData(m) && vstd::string::to_string_from_display_ensures::<ParseIntError>(
                &int_error,
                m,
            ),
    {
        BbDhtError::CorruptData(int_error.to_string())
    }
}

/// The message of a `ParseIntError` is std's text for it, which no spec
/// function here names; so this conversion claims no `from_spec`, and its own
/// `ensures` says which variant comes out and that its message is that text.
impl vstd::std_specs::convert::FromSpecImpl<ParseIntError> for BbDhtError {
    open spec fn obeys_from_spec() -> bool {
        false
    }

    open spec fn from_spec(v: ParseIntError) -> Self {
        arbitrary()
    }
}


/// A service error that DynamoDB reported, with its message.
#[derive(Debug)]
pub enum ServiceFailure {
    ConditionalCheckFailed(String),
    InternalServerError(String),
    ItemCollectionSizeLimitExceeded(String),
    ProvisionedThroughputExceeded(String),
    RequestLimitExceeded(String),
    ResourceNotFound(String),
    TransactionConflict(String),
}

/// A failed DynamoDB request as plain values: the service error, or the
/// message of a failure on the way to the service.
#[derive(Debug)]
pub enum RusotoFailure<S> {
    Service(S),
    HttpDispatch(String),
    Credentials(String),
    Validation(String),
    ParseError(String),
    Unknown(String),
}

/// The DHT error that a failed DynamoDB request maps to: each service error
/// to the variant of the same name, each other failure to the variant of its
/// kind, the message kept.
pub open spec fn spec_from_rusoto_failure(f: RusotoFailure<ServiceFailure>) -> BbDhtError {
    match f {
        RusotoFailure::Service(s) => match s {
            ServiceFailure::ConditionalCheckFailed(m) => BbDhtError::ConditionalCheckFailed(m),
            ServiceFailure::InternalServerError(m) => BbDhtError::InternalServerError(m),
            ServiceFailure::ItemCollectionSizeLimitExceeded(m) => BbDhtError::ItemCollectionSizeLimitExceeded(m),
            ServiceFailure::ProvisionedThroughputExceeded(m) => BbDhtError::ProvisionedThroughputExceeded(m),
            ServiceFailure::RequestLimitExceeded(m) => BbDhtError::RequestLimitExceeded(m),
            ServiceFailure::ResourceNotFound(m) => BbDhtError::ResourceNotFound(m),
            ServiceFailure::TransactionConflict(m) => BbDhtError::TransactionConflict(m),
        },
        RusotoFailure::HttpDispatch(m) => BbDhtError::HttpDispatch(m),
        RusotoFailure::Credentials(m) => BbDhtError::Credentials(m),
        RusotoFailure::Validation(m) => BbDhtError::Validation(m),
        RusotoFailure::ParseError(m) => BbDhtError::ParseError(m),
        RusotoFailure::Unknown(m) => BbDhtError::Unknown(m),
    }
}

/// The message that a failed DynamoDB request carries.
pub open spec fn failure_message(f: RusotoFailure<ServiceFailure>) -> Seq<char> {
    match f {
        RusotoFailure::Service(s) => match s {
            ServiceFailure::ConditionalCheckFailed(m) => m@,
            ServiceFailure::InternalServerError(m) => m@,
            ServiceFailure::ItemCollectionSizeLimitExceeded(m) => m@,
            ServiceFailure::ProvisionedThroughputExceeded(m) => m@,
            ServiceFailure::RequestLimitExceeded(m) => m@,
            ServiceFailure::ResourceNotFound(m) => m@,
            ServiceFailure::TransactionConflict(m) => m@,
        },
        RusotoFailure::HttpDispatch(m) => m@,
        RusotoFailure::Credentials(m) => m@,
        RusotoFailure::Validation(m) => m@,
        RusotoFailure::ParseError(m) => m@,
        RusotoFailure::Unknown(m) => m@,
    }
}

/// A failed request maps to a DHT error that carries the same message, and a
/// service error to an error of the service's kinds.
pub proof fn lemma_mapping_keeps_message(f: RusotoFailure<ServiceFailure>)
    ensures
        spec_from_rusoto_failure(f).message() == failure_message(f),
        f is Service <==> !spec_from_rusoto_failure(f).is_transport_failure(),
        !(spec_from_rusoto_failure(f) is MissingData) && !(spec_from_rusoto_failure(f) is CorruptData),
{
}

impl BbDhtError {
    /// Maps a failed DynamoDB request to the DHT error of the same kind.
    pub fn from_rusoto_failure(f: RusotoFailure<ServiceFailure>) -> (r: BbDhtError)
        ensures
            r == spec_from_rusoto_failure(f),
    {
        match f {
            RusotoFailure::Service(s) => match s {
                ServiceFailure::ConditionalCheckFailed(m) => BbDhtError::ConditionalCheckFailed(m),
                ServiceFailure::InternalServerError(m) => BbDhtError::InternalServerError(m),
                ServiceFailure::ItemCollectionSizeLimitExceeded(m) => BbDhtError::ItemCollectionSizeLimitExceeded(m),
                ServiceFailure::ProvisionedThroughputExceeded(m) => BbDhtError::ProvisionedThroughputExceeded(m),
                ServiceFailure::RequestLimitExceeded(m) => BbDhtError::RequestLimitExceeded(m),
                ServiceFailure::ResourceNotFound(m) => BbDhtError::ResourceNotFound(m),
                ServiceFailure::TransactionConflict(m) => BbDhtError::TransactionConflict(m),
            },
            RusotoFailure::HttpDispatch(m) => BbDhtError::HttpDispatch(m),
            RusotoFailure::Credentials(m) => BbDhtError::Credentials(m),
            RusotoFailure::Validation(m) => BbDhtError::Validation(m),
            RusotoFailure::ParseError(m) => BbDhtError::ParseError(m),
            RusotoFailure::Unknown(m) => BbDhtError::Unknown(m),
        }
    }

    /// The kinds of error that a failed `GetItem` request can map to.
    pub open spec fn is_get_item_failure(&self) -> bool {
        ||| self is InternalServerError
        ||| self is ProvisionedThroughputExceeded
        ||| self is RequestLimitExceeded
        ||| self is ResourceNotFound
        ||| self.is_transport_failure()
    }

    /// The kinds of error that a failed `PutItem` request can map to.
    pub open spec fn is_put_item_failure(&self) -> bool {
        ||| self is ConditionalCheckFailed
        ||| self is InternalServerError
        ||| self is ItemCollectionSizeLimitExceeded
        ||| self is ProvisionedThroughputExceeded
        ||| self is RequestLimitExceeded
        ||| self is ResourceNotFound
        ||| self is TransactionConflict
        ||| self.is_transport_failure()
    }

    /// The kinds of error that a failed `DescribeTable` request can map to.
    pub open spec fn is_describe_table_failure(&self) -> bool {
        ||| self is InternalServerError
        ||| self is ResourceNotFound
        ||| self.is_transport_failure()
    }

    /// The kinds of error that do not come from the service itself.
    pub open spec fn is_transport_failure(&self) -> bool {
        ||| self is HttpDispatch
        ||| self is Credentials
        ||| self is Validation
        ||| self is ParseError
        ||| self is Unknown
    }
}

/// `rusoto_core::RusotoError`, the failure of a rusoto request, carried
/// through opaque; the `*_failure` wrappers take it apart.
#[verifier::external_type_specification]
#[verifier::external_body]
#[verifier::reject_recursive_types(E)]
pub struct ExRusotoError<E>(RusotoError<E>);

/// `rusoto_dynamodb::GetItemError`, carried through opaque.
#[verifier::external_type_specification]
#[verifier::external_body]
pub struct ExGetItemError(GetItemError);

/// `rusoto_dynamodb::PutItemError`, carried through opaque.
#[verifier::external_type_specification]
#[verifier::external_body]
pub struct ExPutItemError(PutItemError);

/// `rusoto_dynamodb::DescribeTableError`, carried through opaque.
#[verifier::external_type_specification]
#[verifier::external_body]
pub struct ExDescribeTableError(DescribeTableError);

/// What a failed `GetItem` request carries, as plain values.
pub uninterp spec fn get_item_failure_of(e: RusotoError<GetItemError>) -> RusotoFailure<ServiceFailure>;

/// What a failed `PutItem` request carries, as plain values.
pub uninterp spec fn put_item_failure_of(e: RusotoError<PutItemError>) -> RusotoFailure<ServiceFailure>;

/// What a failed `DescribeTable` request carries, as plain values.
pub uninterp spec fn describe_table_failure_of(e: RusotoError<DescribeTableError>) -> RusotoFailure<ServiceFailure>;

/// Takes a `rusoto_core::RusotoError<GetItemError>` apart, one arm per
/// variant: each service error to the `ServiceFailure` of the same name with
/// its message moved; a dispatch error to its `Display` text, a credentials
/// error to its message (which is its `Display` text);
/// a validation or parse message moved; an unknown response to its `Debug`
/// text. The result is `get_item_failure_of` of the error; `GetItemError` has
/// the four variants named in the clause only.
#[verifier::external_body]
fn get_item_failure(e: RusotoError<GetItemError>) -> (r: RusotoFailure<ServiceFailure>)
    ensures
        r == get_item_failure_of(e),
        r matches RusotoFailure::Service(s) ==> (s is InternalServerError || s is ProvisionedThroughputExceeded
            || s is RequestLimitExceeded || s is ResourceNotFound),
{
    match e {
        RusotoError::Service(s) => RusotoFailure::Service(match s {
            GetItemError::InternalServerError(m) => ServiceFailure::InternalServerError(m),
            GetItemError::ProvisionedThroughputExceeded(m) => ServiceFailure::ProvisionedThroughputExceeded(m),
            GetItemError::RequestLimitExceeded(m) => ServiceFailure::RequestLimitExceeded(m),
            GetItemError::ResourceNotFound(m) => ServiceFailure::ResourceNotFound(m),
        }),
        RusotoError::HttpDispatch(h) => RusotoFailure::HttpDispatch(h.to_string()),
        RusotoError::Credentials(c) => RusotoFailure::Credentials(c.message),
        RusotoError::Validation(m) => RusotoFailure::Validation(m),
        RusotoError::ParseError(m) => RusotoFailure::ParseError(m),
        RusotoError::Unknown(r) => RusotoFailure::Unknown(format!("{:?}", r)),
    }
}

/// Takes a `rusoto_core::RusotoError<PutItemError>` apart as
/// `get_item_failure` does. The result is `put_item_failure_of` of the error;
/// each of the seven variants of `PutItemError` has a `ServiceFailure` of the
/// same name, so no clause narrows the service error.
#[verifier::external_body]
fn put_item_failure(e: RusotoError<PutItemError>) -> (r: RusotoFailure<ServiceFailure>)
    ensures
        r == put_item_failure_of(e),
{
    match e {
        RusotoError::Service(s) => RusotoFailure::Service(match s {
            PutItemError::ConditionalCheckFailed(m) => ServiceFailure::ConditionalCheckFailed(m),
            PutItemError::InternalServerError(m) => ServiceFailure::InternalServerError(m),
            PutItemError::ItemCollectionSizeLimitExceeded(m) => ServiceFailure::ItemCollectionSizeLimitExceeded(m),
            PutItemError::ProvisionedThroughputExceeded(m) => ServiceFailure::ProvisionedThroughputExceeded(m),
            PutItemError::RequestLimitExceeded(m) => ServiceFailure::RequestLimitExceeded(m),
            PutItemError::ResourceNotFound(m) => ServiceFailure::ResourceNotFound(m),
            PutItemError::TransactionConflict(m) => ServiceFailure::TransactionConflict(m),
        }),
        RusotoError::HttpDispatch(h) => RusotoFailure::HttpDispatch(h.to_string()),
        RusotoError::Credentials(c) => RusotoFailure::Credentials(c.message),
        RusotoError::Validation(m) => RusotoFailure::Validation(m), RusotoError::ParseError(m) => RusotoFailure::ParseError(m),
        RusotoError::Unknown(r) => RusotoFailure::Unknown(format!("{:?}", r)),
    }
}

/// Takes a `rusoto_core::RusotoError<DescribeTableError>` apart as
/// `get_item_failure` does. The result is `describe_table_failure_of` of the
/// error; `DescribeTableError` has the two variants named in the clause only.
#[verifier::external_body]
fn describe_table_failure(e: RusotoError<DescribeTableError>) -> (r: RusotoFailure<ServiceFailure>)
    ensures
        r == describe_table_failure_of(e),
        r matches RusotoFailure::Service(s) ==> (s is InternalServerError || s is ResourceNotFound),
{
    match e {
        RusotoError::Service(s) => RusotoFailure::Service(match s {
            DescribeTableError::InternalServerError(m) => ServiceFailure::InternalServerError(m),
            DescribeTableError::ResourceNotFound(m) => ServiceFailure::ResourceNotFound(m),
        }),
        RusotoError::HttpDispatch(h) => RusotoFailure::HttpDispatch(h.to_string()),
        RusotoError::Credentials(c) => RusotoFailure::Credentials(c.message),
        RusotoError::Validation(m) => RusotoFailure::Validation(m),
        RusotoError::ParseError(m) => RusotoFailure::ParseError(m),
        RusotoError::Unknown(r) => RusotoFailure::Unknown(format!("{:?}", r)),
    }
}

impl From<RusotoError<GetItemError>> for BbDhtError {
    fn from(rusoto_error: RusotoError<GetItemError>) -> (r: Self)
        ensures
            r == spec_from_rusoto_failure(get_item_failure_of(rusoto_error)),
            r.is_get_item_failure(),
    {
        BbDhtError::from_rusoto_failure(get_item_failure(rusoto_error))
    }
}

impl From<RusotoError<PutItemError>> for BbDhtError {
    fn from(rusoto_error: RusotoError<PutItemError>) -> (r: Self)
        ensures
            r == spec_from_rusoto_failure(put_item_failure_of(rusoto_error)),
            r.is_put_item_failure(),
    {
        BbDhtError::from_rusoto_failure(put_item_failure(rusoto_error))
    }
}

impl From<RusotoError<DescribeTableError>> for BbDhtError {
    fn from(rusoto_error: RusotoError<DescribeTableError>) -> (r: Self)
        ensures
            r == spec_from_rusoto_failure(describe_table_failure_of(rusoto_error)),
            r.is_describe_table_failure(),
    {
        BbDhtError::from_rusoto_failure(describe_table_failure(rusoto_error))
    }
}

/// A failed `GetItem` request converts to the DHT error of its failure.
impl vstd::std_specs::convert::FromSpecImpl<RusotoError<GetItemError>> for BbDhtError {
    open spec fn obeys_from_spec() -> bool {
        true
    }

    open spec fn from_spec(v: RusotoError<GetItemError>) -> Self {
        spec_from_rusoto_failure(get_item_failure_of(v))
    }
}

/// A failed `PutItem` request converts to the DHT error of its failure.
impl vstd::std_specs::convert::FromSpecImpl<RusotoError<PutItemError>> for BbDhtError {
    open spec fn obeys_from_spec() -> bool {
        true
    }

    open spec fn from_spec(v: RusotoError<PutItemError>) -> Self {
        spec_from_rusoto_failure(put_item_failure_of(v))
    }
}

/// A failed `DescribeTable` request converts to the DHT error of its failure.
impl vstd::std_specs::convert::FromSpecImpl<RusotoError<DescribeTableError>> for BbDhtError {
    open spec fn obeys_from_spec() -> bool {
        true
    }

    open spec fn from_spec(v: RusotoError<DescribeTableError>) -> Self {
        spec_from_rusoto_failure(describe_table_failure_of(v))
    }
}

} // verus!

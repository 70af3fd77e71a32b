use vstd::prelude::*;
use vstd::string::StringExecFns;

verus! {

/// Every failure the library reports to its callers.
#[derive(Debug, Clone, PartialEq, Eq)]
pub enum RoadieAppError {
    BadUserPassword,
    PasswordsDoNotMatch,
    Unauthorized,
    NotFound,
    InternalServerError,
    ValidationFailedError,
    ValidationFailedForField(String),
    ItemNameNonEmpty,
    ItemSizeMustBeSet,
    ItemQntGtZero,
    /// One `(field, message)` pair per invalid field, each field named once.
    MultipleErrors(Vec<(String, String)>),
    /// A failure of the storage or transport layer, with its description.
    ServerError(String),
    SignupsNotEnabled,
}

pub type RoadieResult<T> = Result<T, RoadieAppError>;

pub const OK: u16 = 200;
pub const BAD_REQUEST: u16 = 400;
pub const UNAUTHORIZED: u16 = 401;
pub const NOT_FOUND: u16 = 404;
pub const EXPECTATION_FAILED: u16 = 417;
pub const INTERNAL_SERVER_ERROR: u16 = 500;

impl RoadieAppError {
    /// The human-readable text of this error.
    pub open spec fn message_spec(&self) -> Seq<char> {
        match self {
            RoadieAppError::BadUserPassword => "Username does not exist or password doesn't match"@,
            RoadieAppError::PasswordsDoNotMatch => "Passwords do not match"@,
            RoadieAppError::Unauthorized => "User is unauthorized"@,
            RoadieAppError::NotFound => "Not Found"@,
            RoadieAppError::InternalServerError => "Internal Server Error"@,
            RoadieAppError::ValidationFailedError => "Validation failed"@,
            RoadieAppError::ItemNameNonEmpty => "Item name can't be empty"@,
            RoadieAppError::ItemSizeMustBeSet => "Item size must be set"@,
            RoadieAppError::ItemQntGtZero => "Item quantity must be > 0"@,
            RoadieAppError::MultipleErrors(_) => "Multiple errors"@,
            RoadieAppError::SignupsNotEnabled => "Signups are not enabled"@,
            RoadieAppError::ValidationFailedForField(f) => "Validation failed for field "@ + f@,
            RoadieAppError::ServerError(e) => "Server error "@ + e@,
        }
    }

    pub fn message(&self) -> (r: String)
        ensures
            r@ == self.message_spec(),
    {
        match self {
            RoadieAppError::BadUserPassword => String::from_str("Username does not exist or password doesn't match"),
            RoadieAppError::PasswordsDoNotMatch => String::from_str("Passwords do not match"),
            RoadieAppError::Unauthorized => String::from_str("User is unauthorized"),
            RoadieAppError::NotFound => String::from_str("Not Found"),
            RoadieAppError::InternalServerError => String::from_str("Internal Server Error"),
            RoadieAppError::ValidationFailedError => String::from_str("Validation failed"),
            RoadieAppError::ItemNameNonEmpty => String::from_str("Item name can't be empty"),
            RoadieAppError::ItemSizeMustBeSet => String::from_str("Item size must be set"),
            RoadieAppError::ItemQntGtZero => String::from_str("Item quantity must be > 0"),
            RoadieAppError::MultipleErrors(_) => String::from_str("Multiple errors"),
            RoadieAppError::SignupsNotEnabled => String::from_str("Signups are not enabled"),
            RoadieAppError::ValidationFailedForField(f) => String::from_str("Validation failed for field ").concat(f.as_str()),
            RoadieAppError::ServerError(e) => String::from_str("Server error ").concat(e.as_str()),
        }
    }

    /// The HTTP status that a boundary layer answers with for this error.
    pub open spec fn status_spec(&self) -> u16 {
        match self {
            RoadieAppError::NotFound => NOT_FOUND,
            RoadieAppError::BadUserPassword | RoadieAppError::Unauthorized => UNAUTHORIZED,
            RoadieAppError::PasswordsDoNotMatch => EXPECTATION_FAILED,
            RoadieAppError::InternalServerError | RoadieAppError::ServerError(_) => INTERNAL_SERVER_ERROR,
            RoadieAppError::ValidationFailedError
            | RoadieAppError::ItemQntGtZero
            | RoadieAppError::ItemSizeMustBeSet
            | RoadieAppError::ItemNameNonEmpty
            | RoadieAppError::ValidationFailedForField(_)
            | RoadieAppError::MultipleErrors(_) => EXPECTATION_FAILED,
            RoadieAppError::SignupsNotEnabled => BAD_REQUEST,
        }
    }

    pub fn status_code(&self) -> (r: u16)
        ensures
            r == self.status_spec(),
    {
        match self {
            RoadieAppError::NotFound => NOT_FOUND,
            RoadieAppError::BadUserPassword | RoadieAppError::Unauthorized => UNAUTHORIZED,
            RoadieAppError::PasswordsDoNotMatch => EXPECTATION_FAILED,
            RoadieAppError::InternalServerError | RoadieAppError::ServerError(_) => INTERNAL_SERVER_ERROR,
            RoadieAppError::ValidationFailedError
            | RoadieAppError::ItemQntGtZero
            | RoadieAppError::ItemSizeMustBeSet
            | RoadieAppError::ItemNameNonEmpty
            | RoadieAppError::ValidationFailedForField(_)
            | RoadieAppError::MultipleErrors(_) => EXPECTATION_FAILED,
            RoadieAppError::SignupsNotEnabled => BAD_REQUEST,
        }
    }
}

/// A result that crossed a transport layer: the outer error is the transport's
/// own failure, the inner result is what the operation answered.
pub trait IntoRoadie<T> {
    fn into_rr(self) -> RoadieResult<T>;
}

impl<T> IntoRoadie<T> for Result<RoadieResult<T>, String> {
    fn into_rr(self) -> RoadieResult<T> {
        flatten_result(self)
    }
}

/// The same flattening for a result that may not have arrived yet.
pub trait IntoRoadieOption<T> {
    fn into_rr(self) -> Option<RoadieResult<T>>;
}

impl<T> IntoRoadieOption<T> for Option<Result<RoadieResult<T>, String>> {
    fn into_rr(self) -> Option<RoadieResult<T>> {
        flatten_pending(self)
    }
}

/// Flattens a result that may not have arrived yet.
pub fn flatten_pending<T>(res: Option<Result<RoadieResult<T>, String>>) -> (r: Option<RoadieResult<T>>)
    ensures
        res is None ==> r is None,
        res is Some && res->Some_0 is Ok ==> r == Some(res->Some_0->Ok_0),
        res is Some && res->Some_0 is Err ==> r == Some(
            Err::<T, RoadieAppError>(RoadieAppError::ServerError(res->Some_0->Err_0)),
        ),
{
    match res {
        Some(u) => Some(flatten_result(u)),
        None => None,
    }
}

/// Flattens a result that crossed a transport layer.
pub fn flatten_result<T>(res: Result<RoadieResult<T>, String>) -> (r: RoadieResult<T>)
    ensures
        res is Ok ==> r == res->Ok_0,
        res is Err ==> r == Err::<T, RoadieAppError>(RoadieAppError::ServerError(res->Err_0)),
{
    match res {
        Ok(o) => o,
        Err(e) => Err(RoadieAppError::ServerError(e)),
    }
}

} // verus!

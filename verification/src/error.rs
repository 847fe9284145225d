//! The error taxonomy of a convergence run: fatal configuration errors,
//! runtime errors, user errors with a typed reason, and server errors.
//! Every constructor pins the variant and the exact message it carries.
use crate::model::Model;
use vstd::prelude::*;

verus! {

/// A fatal configuration or data-loss error: the run must abort before any
/// further statement is issued.
#[derive(Debug)]
pub struct FatalError(pub String);

/// An unknown server-side failure.
#[derive(Debug)]
pub struct ServerError(pub String);

/// A runtime rule violated by the caller.
#[derive(Debug)]
pub enum RuntimeError {
    ObjectIsNotSaved,
}

impl RuntimeError {
    /// The message the variant carries.
    pub open spec fn message_seq(self) -> Seq<char> {
        match self {
            RuntimeError::ObjectIsNotSaved => "Object is not saved thus can't be deleted."@,
        }
    }

    /// The error's message.
    pub fn message(&self) -> (r: &'static str)
        ensures
            r@ == self.message_seq(),
    {
        match self {
            RuntimeError::ObjectIsNotSaved => "Object is not saved thus can't be deleted.",
        }
    }
}

/// The reason a user error carries.
#[derive(Debug)]
pub enum UserErrorType {
    ValidationError,
    UnexpectedInput,
    DestinationNotFound,
    IncorrectJSONFormat,
    MissingRequiredInput,
    ObjectNotFound,
    InvalidAuthToken,
    PermissionError,
    DeletionDenied,
    CustomInternalServerError,
    CustomValidationError,
    UniqueConstraintError,
    WrongIdentityModel,
    CustomErrorType(String),
}

/// An error caused by the caller's input, with a typed reason, a message,
/// and optional per-key detail.
#[derive(Debug)]
pub struct UserError {
    pub error_type: UserErrorType,
    pub message: String,
    pub errors: Option<Vec<(String, String)>>,
}

/// Any error a convergence run can surface.
#[derive(Debug)]
pub enum Error {
    FatalError(FatalError),
    RuntimeError(RuntimeError),
    UserError(UserError),
    ServerError(ServerError),
}

impl Error {
    /// The message the error carries, whatever its variant.
    pub open spec fn message_seq(self) -> Seq<char> {
        match self {
            Error::FatalError(e) => e.0@,
            Error::ServerError(e) => e.0@,
            Error::RuntimeError(e) => e.message_seq(),
            Error::UserError(e) => e.message@,
        }
    }

    /// A fatal error carrying a fixed message.
    pub fn fatal(message: &'static str) -> (r: Self)
        ensures
            r matches Error::FatalError(e) && e.0@ == message@,
    {
        Error::FatalError(FatalError(String::from_str(message)))
    }

    /// A fatal error carrying a built message.
    pub fn fatal_message(message: String) -> (r: Self)
        ensures
            r matches Error::FatalError(e) && e.0@ == message@,
    {
        Error::FatalError(FatalError(message))
    }

    /// The error's message.
    pub fn message(&self) -> (r: &str)
        ensures
            r@ == self.message_seq(),
    {
        match self {
            Error::FatalError(e) => e.0.as_str(),
            Error::ServerError(e) => e.0.as_str(),
            Error::RuntimeError(e) => e.message(),
            Error::UserError(e) => e.message.as_str(),
        }
    }

    /// A violated unique constraint on the given field.
    pub fn unique_value_duplicated(field: &'static str) -> (r: Self)
        ensures
            r matches Error::UserError(u) && u.error_type is UniqueConstraintError && u.message@
                == "Value is not unique."@ && (u.errors matches Some(detail) && detail@.len() == 1
                && detail@[0].0@ == field@ && detail@[0].1@ == "value is not unique"@),
    {
        let mut detail: Vec<(String, String)> = Vec::new();
        detail.push((String::from_str(field), String::from_str("value is not unique")));
        Error::UserError(
            UserError {
                error_type: UserErrorType::UniqueConstraintError,
                message: String::from_str("Value is not unique."),
                errors: Some(detail),
            },
        )
    }

    /// A server error carrying the given reason.
    pub fn internal_server_error(reason: String) -> (r: Self)
        ensures
            r matches Error::ServerError(e) && e.0@ == reason@,
    {
        Error::ServerError(ServerError(reason))
    }

    /// A write against the database failed for an unknown reason.
    pub fn unknown_database_write_error() -> (r: Self)
        ensures
            r matches Error::ServerError(e) && e.0@
                == "An unknown database write error occurred."@,
    {
        Error::ServerError(ServerError(String::from_str("An unknown database write error occurred.")))
    }

    /// A delete against the database failed for an unknown reason.
    pub fn unknown_database_delete_error() -> (r: Self)
        ensures
            r matches Error::ServerError(e) && e.0@
                == "An unknown database delete error occurred."@,
    {
        Error::ServerError(
            ServerError(String::from_str("An unknown database delete error occurred.")),
        )
    }

    /// A find against the database failed for an unknown reason.
    pub fn unknown_database_find_error() -> (r: Self)
        ensures
            r matches Error::ServerError(e) && e.0@ == "An unknown database find error occurred."@,
    {
        Error::ServerError(ServerError(String::from_str("An unknown database find error occurred.")))
    }

    /// A unique find against the database failed for an unknown reason.
    pub fn unknown_database_find_unique_error() -> (r: Self)
        ensures
            r matches Error::ServerError(e) && e.0@
                == "An unknown database find unique error occurred."@,
    {
        Error::ServerError(
            ServerError(String::from_str("An unknown database find unique error occurred.")),
        )
    }

    /// The requested destination does not exist.
    pub fn destination_not_found() -> (r: Self)
        ensures
            r matches Error::UserError(u) && u.error_type is DestinationNotFound && u.message@
                == "The request destination is not found."@ && u.errors is None,
    {
        Error::UserError(
            UserError {
                error_type: UserErrorType::DestinationNotFound,
                message: String::from_str("The request destination is not found."),
                errors: None,
            },
        )
    }

    /// The requested object does not exist.
    pub fn object_not_found() -> (r: Self)
        ensures
            r matches Error::UserError(u) && u.error_type is ObjectNotFound && u.message@
                == "The request object is not found."@ && u.errors is None,
    {
        Error::UserError(
            UserError {
                error_type: UserErrorType::ObjectNotFound,
                message: String::from_str("The request object is not found."),
                errors: None,
            },
        )
    }

    /// An unsaved object cannot be deleted.
    pub fn object_is_not_saved_thus_cant_be_deleted() -> (r: Self)
        ensures
            r matches Error::RuntimeError(e) && e is ObjectIsNotSaved,
    {
        Error::RuntimeError(RuntimeError::ObjectIsNotSaved)
    }

    /// The presented auth token is invalid.
    pub fn invalid_auth_token() -> (r: Self)
        ensures
            r matches Error::UserError(u) && u.error_type is InvalidAuthToken && u.message@
                == "This auth token is invalid."@ && u.errors is None,
    {
        Error::UserError(
            UserError {
                error_type: UserErrorType::InvalidAuthToken,
                message: String::from_str("This auth token is invalid."),
                errors: None,
            },
        )
    }

    /// A server error raised by application code, carrying its message.
    pub fn custom_internal_server_error(message: String) -> (r: Self)
        ensures
            r matches Error::UserError(u) && u.error_type is CustomInternalServerError
                && u.message@ == message@ && u.errors is None,
    {
        Error::UserError(
            UserError {
                error_type: UserErrorType::CustomInternalServerError,
                message,
                errors: None,
            },
        )
    }

    /// A validation error raised by application code, carrying its message.
    pub fn custom_validation_error(message: String) -> (r: Self)
        ensures
            r matches Error::UserError(u) && u.error_type is CustomValidationError && u.message@
                == message@ && u.errors is None,
    {
        Error::UserError(
            UserError {
                error_type: UserErrorType::CustomValidationError,
                message,
                errors: None,
            },
        )
    }

    /// The identity is valid but belongs to another model.
    pub fn wrong_identity_model() -> (r: Self)
        ensures
            r matches Error::UserError(u) && u.error_type is WrongIdentityModel && u.message@
                == "This identity is valid but is not of this model."@ && u.errors is None,
    {
        Error::UserError(
            UserError {
                error_type: UserErrorType::WrongIdentityModel,
                message: String::from_str("This identity is valid but is not of this model."),
                errors: None,
            },
        )
    }

    /// The request body is not well-formed JSON.
    pub fn incorrect_json_format() -> (r: Self)
        ensures
            r matches Error::UserError(u) && u.error_type is IncorrectJSONFormat && u.message@
                == "The request JSON body format is incorrect."@ && u.errors is None,
    {
        Error::UserError(
            UserError {
                error_type: UserErrorType::IncorrectJSONFormat,
                message: String::from_str("The request JSON body format is incorrect."),
                errors: None,
            },
        )
    }

    /// The root of the input has the wrong type.
    pub fn unexpected_input_root_type(expected: &str) -> (r: Self)
        ensures
            r matches Error::UserError(u) && u.error_type is UnexpectedInput && u.message@
                == "Unexpected root input type. Expect "@ + expected@ + "."@ && u.errors is None,
    {
        let mut message = String::from_str("Unexpected root input type. Expect ");
        message.append(expected);
        message.append(".");
        Error::UserError(
            UserError { error_type: UserErrorType::UnexpectedInput, message, errors: None },
        )
    }

    /// A required relation cannot disconnect its previous value.
    pub fn cannot_disconnect_previous_relation() -> (r: Self)
        ensures
            r matches Error::UserError(u) && u.error_type is UnexpectedInput && u.message@
                == "Required relation cannot disconnect previous connected value."@ && u.errors is None,
    {
        Error::UserError(
            UserError {
                error_type: UserErrorType::UnexpectedInput,
                message: String::from_str(
                    "Required relation cannot disconnect previous connected value.",
                ),
                errors: None,
            },
        )
    }

    /// A key that the model does not define was accessed.
    pub fn invalid_key(unexpected_key: &str, model: &Model) -> (r: Self)
        ensures
            r matches Error::UserError(u) && (u.error_type matches UserErrorType::CustomErrorType(
                t,
            ) && t@ == "InvalidKey"@) && u.message@ == "Invalid key '"@ + unexpected_key@
                + "' accessed on model `"@ + model@.name + "'"@ && u.errors is None,
    {
        let mut message = String::from_str("Invalid key '");
        message.append(unexpected_key);
        message.append("' accessed on model `");
        message.append(model.name());
        message.append("'");
        Error::UserError(
            UserError {
                error_type: UserErrorType::CustomErrorType(String::from_str("InvalidKey")),
                message,
                errors: None,
            },
        )
    }

    /// The requested operation is not valid here.
    pub fn invalid_operation(reason: &str) -> (r: Self)
        ensures
            r matches Error::UserError(u) && (u.error_type matches UserErrorType::CustomErrorType(
                t,
            ) && t@ == "InvalidOperation"@) && u.message@ == reason@ && u.errors is None,
    {
        Error::UserError(
            UserError {
                error_type: UserErrorType::CustomErrorType(String::from_str("InvalidOperation")),
                message: String::from_str(reason),
                errors: None,
            },
        )
    }

    /// A relation denies the deletion.
    pub fn deletion_denied(relation_name: &str) -> (r: Self)
        ensures
            r matches Error::UserError(u) && u.error_type is DeletionDenied && u.message@
                == "Deletion denied by `"@ + relation_name@ + "'."@ && u.errors is None,
    {
        let mut message = String::from_str("Deletion denied by `");
        message.append(relation_name);
        message.append("'.");
        Error::UserError(
            UserError { error_type: UserErrorType::DeletionDenied, message, errors: None },
        )
    }

    /// Whether this is a server error raised by application code.
    pub fn is_custom_internal_server_error(&self) -> (r: bool)
        ensures
            r == match self {
                Error::UserError(u) => u.error_type is CustomInternalServerError,
                _ => false,
            },
    {
        match self {
            Error::UserError(u) => matches!(u.error_type, UserErrorType::CustomInternalServerError),
            _ => false,
        }
    }

    /// Whether this is a validation error raised by application code.
    pub fn is_custom_validation_error(&self) -> (r: bool)
        ensures
            r == match self {
                Error::UserError(u) => u.error_type is CustomValidationError,
                _ => false,
            },
    {
        match self {
            Error::UserError(u) => matches!(u.error_type, UserErrorType::CustomValidationError),
            _ => false,
        }
    }
}

} // verus!

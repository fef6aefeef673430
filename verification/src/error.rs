//! The errors of the engine, and how a failure of the data access layer maps
//! onto them.
use vstd::prelude::*;

verus! {

/// The errors that the engine reports.
#[derive(Debug, PartialEq, Eq)]
pub enum NatureError {
    /// Input that does not meet the engine's requirements.
    VerifyError(String),
    /// A converter returned something that breaks the conversion rules.
    ConverterLogicalError(String),
    /// The record exists already.
    DaoDuplicated,
    /// The data store failed for a reason outside the engine.
    DaoEnvironmentError(String),
    /// The data access failed for any other reason.
    DaoLogicalError(String),
}

impl NatureError {
    /// A copy of the error, variant and text alike.
    pub fn duplicate(&self) -> (r: NatureError)
        ensures
            r == *self,
    {
        match self {
            NatureError::VerifyError(m) => NatureError::VerifyError(m.clone()),
            NatureError::ConverterLogicalError(m) => NatureError::ConverterLogicalError(m.clone()),
            NatureError::DaoDuplicated => NatureError::DaoDuplicated,
            NatureError::DaoEnvironmentError(m) => NatureError::DaoEnvironmentError(m.clone()),
            NatureError::DaoLogicalError(m) => NatureError::DaoLogicalError(m.clone()),
        }
    }
}

impl Clone for NatureError {
    fn clone(&self) -> (r: NatureError)
        ensures
            r == *self,
    {
        self.duplicate()
    }
}

/// The kind of error that a database reported.
#[derive(Debug, Clone, Copy, PartialEq, Eq, Structural)]
pub enum DbErrorKind {
    /// A unique constraint was violated.
    UniqueViolation,
    /// A foreign key constraint was violated.
    ForeignKeyViolation,
    /// The query could not be sent to the database.
    UnableToSendCommand,
    /// A serializable transaction failed to commit.
    SerializationFailure,
    /// Any kind that the database layer does not name.
    Unknown,
}

/// A failure of the data access layer, held as plain values.
#[derive(Debug, Clone, PartialEq, Eq)]
pub enum DaoFault {
    /// The database returned an error: its kind, and the debug rendering of
    /// the information that came with it.
    Database(DbErrorKind, String),
    /// Any other failure, by the text that it displays.
    Other(String),
}

/// The engine error that a data access failure becomes: a unique violation
/// is a duplicate; an error of unknown kind comes from the environment;
/// everything else is a logical error, carrying the failure's text.
pub open spec fn nature_error_of(fault: DaoFault) -> NatureError {
    match fault {
        DaoFault::Database(kind, info) => match kind {
            DbErrorKind::UniqueViolation => NatureError::DaoDuplicated,
            DbErrorKind::Unknown => NatureError::DaoEnvironmentError(info),
            _ => NatureError::DaoLogicalError(info),
        },
        DaoFault::Other(text) => NatureError::DaoLogicalError(text),
    }
}

impl From<DaoFault> for NatureError {
    fn from(fault: DaoFault) -> (r: NatureError) {
        match fault {
            DaoFault::Database(kind, info) => match kind {
                DbErrorKind::UniqueViolation => NatureError::DaoDuplicated,
                DbErrorKind::Unknown => NatureError::DaoEnvironmentError(info),
                _ => NatureError::DaoLogicalError(info),
            },
            DaoFault::Other(text) => NatureError::DaoLogicalError(text),
        }
    }
}

impl vstd::std_specs::convert::FromSpecImpl<DaoFault> for NatureError {
    open spec fn obeys_from_spec() -> bool {
        true
    }

    open spec fn from_spec(v: DaoFault) -> NatureError {
        nature_error_of(v)
    }
}

/// Which engine error a data access failure becomes: a duplicate exactly for
/// a unique violation, an environment error exactly for a database error of
/// unknown kind, and for every other failure a logical error that carries
/// the failure's information or text.
pub proof fn lemma_dao_error_kinds(fault: DaoFault)
    ensures
        nature_error_of(fault) is DaoDuplicated <==> (fault matches DaoFault::Database(k, _) && k
            == DbErrorKind::UniqueViolation),
        nature_error_of(fault) is DaoEnvironmentError <==> (fault matches DaoFault::Database(k, _)
            && k == DbErrorKind::Unknown),
        (fault matches DaoFault::Database(k, info) && k != DbErrorKind::UniqueViolation && k
            != DbErrorKind::Unknown) ==> nature_error_of(fault) == NatureError::DaoLogicalError(
            fault->Database_1,
        ),
        fault is Other ==> nature_error_of(fault) == NatureError::DaoLogicalError(fault->Other_0),
        nature_error_of(fault) is DaoEnvironmentError ==> nature_error_of(fault)
            == NatureError::DaoEnvironmentError(fault->Database_1),
        !(nature_error_of(fault) is VerifyError) && !(nature_error_of(fault) is ConverterLogicalError),
{
}

} // verus!

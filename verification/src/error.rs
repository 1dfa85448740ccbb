//! The ways in which resolving a configuration fails.

use vstd::prelude::*;
use vstd::string::StringExecFns;

verus! {

/// A field of the configuration record, in the order of declaration.
#[derive(Debug, Clone, Copy, PartialEq, Eq, Structural)]
pub enum Field {
    PgDbPort,
    PgDbHost,
    PgDbName,
    PgDbUsername,
    PgDbPassword,
    Port,
    Host,
}

impl Field {
    /// The field's place in the record, counted from zero.
    pub open spec fn index(self) -> int {
        match self {
            Field::PgDbPort => 0,
            Field::PgDbHost => 1,
            Field::PgDbName => 2,
            Field::PgDbUsername => 3,
            Field::PgDbPassword => 4,
            Field::Port => 5,
            Field::Host => 6,
        }
    }

    /// The field's name, as a variable carries it once the prefix is gone.
    pub open spec fn name(self) -> Seq<char> {
        match self {
            Field::PgDbPort => "pg_db_port"@,
            Field::PgDbHost => "pg_db_host"@,
            Field::PgDbName => "pg_db_name"@,
            Field::PgDbUsername => "pg_db_username"@,
            Field::PgDbPassword => "pg_db_password"@,
            Field::Port => "port"@,
            Field::Host => "host"@,
        }
    }

    /// The field's name as text.
    pub fn as_str(self) -> (name: &'static str)
        ensures
            name@ == self.name(),
    {
        match self {
            Field::PgDbPort => "pg_db_port",
            Field::PgDbHost => "pg_db_host",
            Field::PgDbName => "pg_db_name",
            Field::PgDbUsername => "pg_db_username",
            Field::PgDbPassword => "pg_db_password",
            Field::Port => "port",
            Field::Host => "host",
        }
    }
}

/// What is wrong with a field that could not be filled from the environment.
#[derive(Debug, Clone, Copy, PartialEq, Eq, Structural)]
pub enum Fault {
    /// No variable carries the field's name.
    Missing,
    /// The variable's value is not a value of the field's type.
    Malformed,
    /// A second variable carries the field's name.
    Duplicate,
}

/// Why no configuration was resolved.
#[derive(Debug, Clone, Copy, PartialEq, Eq, Structural)]
pub enum ConfigError {
    /// The environment does not give the named field a value.
    ConfigParseError { field: Field, fault: Fault },
    /// The authority was not reached, or answered with a status other than 200.
    TransportError,
    /// The authority answered 200 with a body that is no configuration record.
    DecodeError,
}

impl ConfigError {
    /// What the error says to a person.
    pub open spec fn message_text(self) -> Seq<char> {
        match self {
            ConfigError::ConfigParseError { field, fault } => match fault {
                Fault::Missing => "missing value for field "@ + field.name(),
                Fault::Malformed => "malformed value for field "@ + field.name(),
                Fault::Duplicate => "duplicate field "@ + field.name(),
            },
            ConfigError::TransportError => "no answer with status 200 from the configuration authority"@,
            ConfigError::DecodeError => "the answer of the configuration authority holds no configuration"@,
        }
    }

    /// Says what went wrong, naming the field where one is at fault.
    pub fn message(&self) -> (text: String)
        ensures
            text@ == self.message_text(),
    {
        match self {
            ConfigError::ConfigParseError { field, fault } => {
                let start = match fault {
                    Fault::Missing => "missing value for field ",
                    Fault::Malformed => "malformed value for field ",
                    Fault::Duplicate => "duplicate field ",
                };
                start.to_owned().concat(field.as_str())
            },
            ConfigError::TransportError => {
                "no answer with status 200 from the configuration authority".to_owned()
            },
            ConfigError::DecodeError => {
                "the answer of the configuration authority holds no configuration".to_owned()
            },
        }
    }
}

} // verus!

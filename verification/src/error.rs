use vstd::prelude::*;

use crate::text::{owned, push_str};

verus! {

/// The application's error. Failures of the database, the network, the file
/// system and JSON decoding carry the message their source gave.
#[derive(Debug)]
pub enum AppError {
    Msg(String),
    Db(String),
    Http(String),
    Io(String),
    Json(String),
}

pub type AppResult<T> = Result<T, AppError>;

/// The text shown for an error (what the front end receives).
pub open spec fn error_text(e: AppError) -> Seq<char> {
    match e {
        AppError::Msg(s) => s@,
        AppError::Db(s) => "Datenbankfehler: "@ + s@,
        AppError::Http(s) => "Netzwerkfehler: "@ + s@,
        AppError::Io(s) => "Dateisystemfehler: "@ + s@,
        AppError::Json(s) => "JSON-Fehler: "@ + s@,
    }
}

/// The message of a plain error (`AppError::Msg`), if it is one.
pub open spec fn msg_of(e: AppError) -> Option<Seq<char>> {
    match e {
        AppError::Msg(s) => Some(s@),
        _ => None,
    }
}

impl AppError {
    /// A plain error with the given message.
    pub fn msg(s: String) -> (res: AppError)
        ensures
            res matches AppError::Msg(m) && m@ == s@,
    {
        AppError::Msg(s)
    }

    /// A plain error with a copy of the given message.
    pub fn msg_str(s: &str) -> (res: AppError)
        ensures
            res matches AppError::Msg(m) && m@ == s@,
    {
        AppError::Msg(owned(s))
    }

    /// The text of the error, with the prefix that names its source.
    pub fn message(&self) -> (res: String)
        ensures
            res@ == error_text(*self),
    {
        let mut out = String::new();
        match self {
            AppError::Msg(s) => push_str(&mut out, s.as_str()),
            AppError::Db(s) => {
                push_str(&mut out, "Datenbankfehler: ");
                push_str(&mut out, s.as_str());
            },
            AppError::Http(s) => {
                push_str(&mut out, "Netzwerkfehler: ");
                push_str(&mut out, s.as_str());
            },
            AppError::Io(s) => {
                push_str(&mut out, "Dateisystemfehler: ");
                push_str(&mut out, s.as_str());
            },
            AppError::Json(s) => {
                push_str(&mut out, "JSON-Fehler: ");
                push_str(&mut out, s.as_str());
            },
        }
        proof {
            assert(Seq::<char>::empty() + error_text(*self) =~= error_text(*self));
        }
        out
    }
}

} // verus!

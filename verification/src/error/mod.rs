//! Application errors.

pub mod laws;
pub mod module_id;
pub mod recovery;
pub mod ringlog;

use vstd::prelude::*;
use vstd::std_specs::convert::FromSpecImpl;
use vstd::string::to_string_from_display_ensures;

verus! {

/// `std::io::Error`, carried but not looked into.
#[verifier::external_type_specification]
#[verifier::external_body]
pub struct ExIoError(std::io::Error);

/// `anyhow::Error`, carried but not looked into.
#[verifier::external_type_specification]
#[verifier::external_body]
pub struct ExAnyhowError(anyhow::Error);

/// What failed, and a description.
#[derive(Debug)]
pub enum AppError {
    Hal(String),
    Ethernet(String),
    BleMesh(String),
    Modbus(String),
    Rs485(String),
    Io(String),
    Channel(String),
    Config(String),
    Sys(String),
    Ota(String),
    IoErr(std::io::Error),
    Other(String),
}

pub type AppResult<T> = Result<T, AppError>;

/// A string made of a label and a text.
fn labelled(label: &str, text: &str) -> (r: String)
    ensures
        r@ == label@ + text@,
{
    let mut s = label.to_owned();
    s.push_str(text);
    s
}

impl AppError {
    /// The label that starts the message.
    pub open spec fn label(&self) -> Seq<char> {
        match self {
            AppError::Hal(_) => "hal: "@,
            AppError::Ethernet(_) => "ethernet: "@,
            AppError::BleMesh(_) => "ble-mesh: "@,
            AppError::Modbus(_) => "modbus: "@,
            AppError::Rs485(_) => "rs485: "@,
            AppError::Io(_) => "io: "@,
            AppError::Channel(_) => "channel: "@,
            AppError::Config(_) => "config: "@,
            AppError::Sys(_) => "sys: "@,
            AppError::Ota(_) => "ota: "@,
            AppError::IoErr(_) => "io-err: "@,
            AppError::Other(_) => "other: "@,
        }
    }

    /// Whether `text` describes the error: its own text, or what the IO error
    /// displays as.
    pub open spec fn described_by(&self, text: Seq<char>) -> bool {
        match self {
            AppError::Hal(s) => text == s@,
            AppError::Ethernet(s) => text == s@,
            AppError::BleMesh(s) => text == s@,
            AppError::Modbus(s) => text == s@,
            AppError::Rs485(s) => text == s@,
            AppError::Io(s) => text == s@,
            AppError::Channel(s) => text == s@,
            AppError::Config(s) => text == s@,
            AppError::Sys(s) => text == s@,
            AppError::Ota(s) => text == s@,
            AppError::IoErr(e) => exists|s: String|
                s@ == text && #[trigger] to_string_from_display_ensures::<std::io::Error>(e, s),
            AppError::Other(s) => text == s@,
        }
    }

    /// The message: the label and the description.
    pub fn message(&self) -> (r: String)
        ensures
            exists|text: Seq<char>| #[trigger] self.described_by(text) && r@ == self.label() + text,
    {
        let (label, text): (&str, String) = match self {
            AppError::Hal(s) => ("hal: ", s.clone()),
            AppError::Ethernet(s) => ("ethernet: ", s.clone()),
            AppError::BleMesh(s) => ("ble-mesh: ", s.clone()),
            AppError::Modbus(s) => ("modbus: ", s.clone()),
            AppError::Rs485(s) => ("rs485: ", s.clone()),
            AppError::Io(s) => ("io: ", s.clone()),
            AppError::Channel(s) => ("channel: ", s.clone()),
            AppError::Config(s) => ("config: ", s.clone()),
            AppError::Sys(s) => ("sys: ", s.clone()),
            AppError::Ota(s) => ("ota: ", s.clone()),
            AppError::IoErr(e) => ("io-err: ", e.to_string()),
            AppError::Other(s) => ("other: ", s.clone()),
        };
        assert(self.described_by(text@));
        labelled(label, text.as_str())
    }

    /// An error with a description only.
    pub fn other(s: &str) -> (r: AppError)
        ensures
            r matches AppError::Other(t) && t@ == s@,
    {
        AppError::Other(s.to_owned())
    }

    /// An error described by what another error displays as.
    pub fn from_anyhow(e: anyhow::Error) -> (r: AppError)
        ensures
            r matches AppError::Other(t) && to_string_from_display_ensures::<anyhow::Error>(&e, t),
    {
        AppError::Other(e.to_string())
    }
}

impl From<std::io::Error> for AppError {
    fn from(e: std::io::Error) -> (r: Self) {
        AppError::IoErr(e)
    }
}

impl FromSpecImpl<std::io::Error> for AppError {
    open spec fn obeys_from_spec() -> bool {
        true
    }

    open spec fn from_spec(e: std::io::Error) -> AppError {
        AppError::IoErr(e)
    }
}

impl From<String> for AppError {
    fn from(s: String) -> (r: Self) {
        AppError::Other(s)
    }
}

impl FromSpecImpl<String> for AppError {
    open spec fn obeys_from_spec() -> bool {
        true
    }

    open spec fn from_spec(s: String) -> AppError {
        AppError::Other(s)
    }
}

} // verus!

//! Host names that are handed to a resolver.

use hyper_util::client::legacy::connect::dns::InvalidNameError as HyperInvalidNameError;
use hyper_util::client::legacy::connect::dns::Name as HyperName;
use std::str::FromStr;
use vstd::prelude::*;

verus! {

/// `hyper_util`'s domain name: an immutable piece of text.
#[verifier::external_type_specification]
#[verifier::external_body]
pub struct ExHyperName(HyperName);

/// The error type of `hyper_util`'s name parser. It carries nothing.
#[verifier::external_type_specification]
#[verifier::external_body]
pub struct ExHyperInvalidNameError(HyperInvalidNameError);

/// The characters that a `hyper_util` name holds.
pub uninterp spec fn hyper_name_text(name: HyperName) -> Seq<char>;

/// `hyper_util`'s `Name::as_str` gives back the characters that the name holds.
pub assume_specification[ HyperName::as_str ](name: &HyperName) -> (text: &str)
    ensures
        text@ == hyper_name_text(*name),
;

/// `hyper_util`'s `FromStr` for its `Name` copies the text as it stands. It
/// checks nothing and never fails.
#[verifier::external_body]
fn parse_hyper_name(host: &str) -> (parsed: Result<HyperName, HyperInvalidNameError>)
    ensures
        parsed is Ok,
        hyper_name_text(parsed->Ok_0) == host@,
{
    HyperName::from_str(host)
}

/// A text that is no DNS name.
#[derive(Debug)]
pub struct InvalidNameError {
    _ext: (),
}

impl InvalidNameError {
    /// What the error is called in front of a user.
    pub fn message(&self) -> (text: String)
        ensures
            text@ == "invalid DNS name"@,
    {
        "invalid DNS name".to_string()
    }
}

/// A name that must be resolved to addresses.
#[derive(Debug)]
pub struct Name(pub HyperName);

impl View for Name {
    type V = Seq<char>;

    open spec fn view(&self) -> Seq<char> {
        hyper_name_text(self.0)
    }
}

impl Name {
    /// View the name as a string.
    pub fn as_str(&self) -> (text: &str)
        ensures
            text@ == self@,
    {
        self.0.as_str()
    }

    /// The name that a parser found, or the error that stands for any failure
    /// of the parser.
    pub fn from_parsed<E>(parsed: Result<HyperName, E>) -> (name: Result<Name, InvalidNameError>)
        ensures
            name is Ok <==> parsed is Ok,
            parsed matches Ok(inner) ==> name->Ok_0 == Name(inner),
    {
        match parsed {
            Ok(inner) => Ok(Name(inner)),
            Err(_) => Err(InvalidNameError { _ext: () }),
        }
    }
}

impl FromStr for Name {
    type Err = InvalidNameError;

    /// Every text is a name, and the name holds that text.
    fn from_str(host: &str) -> (name: Result<Name, InvalidNameError>)
        ensures
            name is Ok,
            name->Ok_0@ == host@,
    {
        Name::from_parsed(parse_hyper_name(host))
    }
}

} // verus!

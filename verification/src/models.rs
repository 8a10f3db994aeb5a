use crate::text::texts_view;
use vstd::prelude::*;

verus! {

/// The payload of one explorer answer: the contract's name and its source,
/// which is either raw source text or a JSON bundle of several files.
#[derive(Debug)]
pub struct ContractData {
    pub name: String,
    pub code: String,
}

/// The shape of a contract's source as the explorer delivered it.
#[derive(Debug, Clone, Copy, PartialEq, Eq, Structural)]
pub enum ContractType {
    /// A JSON bundle of relative paths and file contents.
    Splitted,
    /// One flat source file.
    United,
}

/// Where the files of a retrieval are rooted.
#[derive(Debug)]
pub enum ParserMode {
    /// Under `<address>/`.
    Single,
    /// Under `<folder>/<address>/`, for contracts found on a listing page.
    Immunefi(String),
}

/// One file to write: where it goes and what it holds.
#[derive(Debug)]
pub struct FileWrite {
    /// The directory that has to exist before the file is written.
    pub dir: String,
    /// The path of the file.
    pub path: String,
    /// The contents of the file.
    pub content: String,
}

/// The mathematical value of a file to write.
pub struct FileWriteValue {
    pub dir: Seq<char>,
    pub path: Seq<char>,
    pub content: Seq<char>,
}

impl View for FileWrite {
    type V = FileWriteValue;

    open spec fn view(&self) -> FileWriteValue {
        FileWriteValue { dir: self.dir@, path: self.path@, content: self.content@ }
    }
}

impl FileWrite {
    /// The line that reports the file as written.
    pub fn report(&self) -> (r: String)
        ensures
            r@ == self.path@ + " has been created!"@,
    {
        let mut r = self.path.clone();
        r.append(" has been created!");
        r
    }
}

/// What the caller has to do for one step of a retrieval.
#[derive(Debug)]
pub enum Effect {
    /// Write this file.
    Save(FileWrite),
    /// Tell the operator; the retrieval goes on.
    Warn(String),
}

/// The mathematical value of an effect.
pub enum EffectValue {
    Save(FileWriteValue),
    Warn(Seq<char>),
}

impl View for Effect {
    type V = EffectValue;

    open spec fn view(&self) -> EffectValue {
        match self {
            Effect::Save(w) => EffectValue::Save(w@),
            Effect::Warn(m) => EffectValue::Warn(m@),
        }
    }
}

/// The values of a list of effects.
pub open spec fn effects_view(effects: Seq<Effect>) -> Seq<EffectValue> {
    Seq::new(effects.len(), |i: int| effects[i]@)
}

/// Why a retrieval, or a traversal of a listing page, failed.
#[derive(Debug, Clone, Copy, PartialEq, Eq, Structural)]
pub enum ParseError {
    /// Neither the URL nor the contract page yields an address.
    NoAddressFound,
    /// The contract page lacks the element that holds the address.
    ScrapeError,
    /// No credential entry matches the URL.
    NoRouteFound,
    /// A page or an API answer could not be fetched.
    FetchError,
    /// An API answer, or a bundle of sources, is not well-formed JSON.
    DecodeError,
    /// The listing page lacks the element that enumerates the contracts.
    ListingPageError,
    /// A directory could not be created or a file could not be written.
    PersistError,
}

/// A result with the text it holds as a sequence of characters.
pub open spec fn text_result(r: Result<String, ParseError>) -> Result<Seq<char>, ParseError> {
    match r {
        Ok(s) => Ok(s@),
        Err(e) => Err(e),
    }
}

/// A result with the texts it holds as sequences of characters.
pub open spec fn texts_result(r: Result<Vec<String>, ParseError>) -> Result<
    Seq<Seq<char>>,
    ParseError,
> {
    match r {
        Ok(texts) => Ok(texts_view(texts@)),
        Err(e) => Err(e),
    }
}

/// A result with the effects it holds as values.
pub open spec fn effects_result(r: Result<Vec<Effect>, ParseError>) -> Result<
    Seq<EffectValue>,
    ParseError,
> {
    match r {
        Ok(effects) => Ok(effects_view(effects@)),
        Err(e) => Err(e),
    }
}

impl ParseError {
    /// The reason as a text for the operator.
    pub open spec fn reason(self) -> Seq<char> {
        match self {
            ParseError::NoAddressFound => "no contract address found"@,
            ParseError::ScrapeError => "wrong smart contract page or selector"@,
            ParseError::NoRouteFound => "no api in database matches the url"@,
            ParseError::FetchError => "request failed"@,
            ParseError::DecodeError => "malformed JSON"@,
            ParseError::ListingPageError => "wrong immunefi page or selector"@,
            ParseError::PersistError => "could not write to disk"@,
        }
    }

    /// The reason as a text for the operator.
    pub fn message(&self) -> (r: String)
        ensures
            r@ == self.reason(),
    {
        match self {
            ParseError::NoAddressFound => "no contract address found".to_owned(),
            ParseError::ScrapeError => "wrong smart contract page or selector".to_owned(),
            ParseError::NoRouteFound => "no api in database matches the url".to_owned(),
            ParseError::FetchError => "request failed".to_owned(),
            ParseError::DecodeError => "malformed JSON".to_owned(),
            ParseError::ListingPageError => "wrong immunefi page or selector".to_owned(),
            ParseError::PersistError => "could not write to disk".to_owned(),
        }
    }
}

} // verus!

//! Reading one Set, and its shape: a JSON object, another text, or opaque bytes.

use vstd::prelude::*;
use vstd::string::*;

use crate::auth::error::{SessionError, SessionErrorView};
use crate::auth::wire::{RawSecret, RawSecretView};
use crate::model::config::Mapping;
use crate::outside::json::{is_object, json_parsed, parse_json, Json};
use crate::outside::secret::{PlainBytes, Plaintext};

verus! {

/// The shape of a Set.
#[derive(Debug)]
pub enum SecretShape {
    /// A text that is a JSON object.
    Json(Plaintext),
    /// Any other text.
    Raw(Plaintext),
    /// Bytes, kept as they are.
    Binary(PlainBytes),
}

/// A [`SecretShape`] as a mathematical value.
#[verifier::ext_equal]
pub enum SecretShapeView {
    Json(Seq<char>),
    Raw(Seq<char>),
    Binary(Seq<u8>),
}

impl View for SecretShape {
    type V = SecretShapeView;

    open spec fn view(&self) -> SecretShapeView {
        match self {
            SecretShape::Json(s) => SecretShapeView::Json(s@),
            SecretShape::Raw(s) => SecretShapeView::Raw(s@),
            SecretShape::Binary(b) => SecretShapeView::Binary(b@),
        }
    }
}

/// The shape of a text, for what a JSON parser makes of it.
pub open spec fn text_shape(text: Seq<char>, parsed: Option<Json>) -> SecretShapeView {
    match parsed {
        Some(Json::Object(_)) => SecretShapeView::Json(text),
        _ => SecretShapeView::Raw(text),
    }
}

/// The shape of a payload: the text where there is one, else the bytes. A payload with
/// neither is no Set at all.
pub open spec fn shape_of(raw: RawSecretView) -> Result<SecretShapeView, SessionErrorView> {
    match (raw.secret_string, raw.secret_binary) {
        (Some(s), _) => Ok(text_shape(s, json_parsed(s))),
        (None, Some(b)) => Ok(SecretShapeView::Binary(b)),
        (None, None) => Err(SessionErrorView::NotFound),
    }
}

/// A shape or an error as a mathematical value.
pub open spec fn shape_result(r: Result<SecretShape, SessionError>) -> Result<
    SecretShapeView,
    SessionErrorView,
> {
    match r {
        Ok(shape) => Ok(shape@),
        Err(e) => Err(e@),
    }
}

impl SecretShape {
    /// The shape of a text, told by whether it is a JSON object.
    pub fn of_text(text: Plaintext, object: bool) -> (result: SecretShape)
        ensures
            result@ == (if object {
                SecretShapeView::Json(text@)
            } else {
                SecretShapeView::Raw(text@)
            }),
    {
        if object {
            SecretShape::Json(text)
        } else {
            SecretShape::Raw(text)
        }
    }

    /// The shape of a secret that is a text.
    pub fn from_secret_string(text: Plaintext) -> (result: SecretShape)
        ensures
            result@ == text_shape(text@, json_parsed(text@)),
            result@ is Json <==> json_parsed(text@) is Some && json_parsed(text@)->0 is Object,
    {
        let object = match parse_json(text.expose()) {
            Some(v) => is_object(&v),
            None => false,
        };
        SecretShape::of_text(text, object)
    }

    /// The shape of a secret that is bytes.
    pub fn from_secret_binary(bytes: PlainBytes) -> (result: SecretShape)
        ensures
            result@ == SecretShapeView::Binary(bytes@),
    {
        SecretShape::Binary(bytes)
    }
}

/// The shape of a payload.
pub fn shape(raw: RawSecret) -> (result: Result<SecretShape, SessionError>)
    ensures
        shape_result(result) == shape_of(raw@),
{
    match raw.secret_string {
        Some(s) => Ok(SecretShape::from_secret_string(s)),
        None => match raw.secret_binary {
            Some(b) => Ok(SecretShape::from_secret_binary(b)),
            None => Err(SessionError::NotFound),
        },
    }
}

/// Reads and shapes Sets.
#[derive(Debug, Clone, Copy)]
pub struct SecretsClient {}

/// A read that waits for the secret's value.
#[derive(Debug)]
pub struct SecretTurn {
    secret_id: String,
    region: String,
}

impl SecretTurn {
    pub closed spec fn wanted(&self) -> (Seq<char>, Seq<char>) {
        (self.secret_id@, self.region@)
    }

    /// The secret to read.
    pub fn secret_id(&self) -> (result: &str)
        ensures
            result@ == self.wanted().0,
    {
        self.secret_id.as_str()
    }

    /// The region to read it in.
    pub fn region(&self) -> (result: &str)
        ensures
            result@ == self.wanted().1,
    {
        self.region.as_str()
    }

    /// Take the outcome of the read.
    pub fn resume(self, reply: Result<RawSecret, SessionError>) -> (result: Result<
        SecretShape,
        SessionError,
    >)
        ensures
            match reply {
                Ok(raw) => shape_result(result) == shape_of(raw@),
                Err(e) => result == Err::<SecretShape, SessionError>(e),
            },
    {
        match reply {
            Ok(raw) => shape(raw),
            Err(e) => Err(e),
        }
    }
}

impl SecretsClient {
    pub fn new() -> (result: SecretsClient)
        ensures
            result == (SecretsClient {  }),
    {
        SecretsClient {  }
    }

    /// Begin to read the Set a Mapping names.
    pub fn fetch(&self, mapping: &Mapping) -> (result: SecretTurn)
        ensures
            result.wanted() == (mapping@.secret_id, mapping@.region),
    {
        SecretTurn { secret_id: mapping.secret_id.clone(), region: mapping.region.clone() }
    }
}

// ---------------------------------------------------------------------------
// Laws
// ---------------------------------------------------------------------------

/// A text that is a JSON object has the JSON shape, whatever its values are, and any other
/// text the raw one. Either way nothing of the text is changed.
pub proof fn a_json_object_has_the_json_shape(text: Seq<char>, binary: Option<Seq<u8>>)
    ensures
        ({
            let raw = RawSecretView { secret_string: Some(text), secret_binary: binary };
            let is_json_object = json_parsed(text) is Some && json_parsed(text)->0 is Object;
            &&& shape_of(raw) == Ok::<SecretShapeView, SessionErrorView>(
                SecretShapeView::Json(text),
            ) <==> is_json_object
            &&& shape_of(raw) == Ok::<SecretShapeView, SessionErrorView>(
                SecretShapeView::Raw(text),
            ) <==> !is_json_object
        }),
{
}

/// Every object there is counts: for whatever a parser makes of a text, only that it is an
/// object tells the shape.
pub proof fn only_being_an_object_tells_the_shape(text: Seq<char>, parsed: Option<Json>)
    ensures
        (parsed is Some && parsed->0 is Object) ==> text_shape(text, parsed)
            == SecretShapeView::Json(text),
        !(parsed is Some && parsed->0 is Object) ==> text_shape(text, parsed)
            == SecretShapeView::Raw(text),
{
}

/// A payload without a text is its bytes, as they are, and one with neither is not found.
pub proof fn bytes_are_kept_as_they_are(bytes: Seq<u8>)
    ensures
        shape_of(RawSecretView { secret_string: None, secret_binary: Some(bytes) }) == Ok::<
            SecretShapeView,
            SessionErrorView,
        >(SecretShapeView::Binary(bytes)),
        shape_of(RawSecretView { secret_string: None, secret_binary: None }) == Err::<
            SecretShapeView,
            SessionErrorView,
        >(SessionErrorView::NotFound),
{
}

} // verus!

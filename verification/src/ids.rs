use crate::error::{DistributedError, ErrorKind};
use vstd::prelude::*;

verus! {

/// A universally unique identifier, held as its sixteen bytes in network order.
#[derive(Clone, Copy, PartialEq, Eq, Debug)]
pub struct Uuid {
    pub bytes: [u8; 16],
}

/// The error that the `uuid` crate reports for bytes that are no identifier.
#[verifier::external_type_specification]
#[verifier::external_body]
pub struct ExUuidError(uuid::Error);

/// Calls `uuid::Uuid::from_slice`, which succeeds exactly on sixteen bytes and then keeps them
/// as they are.
#[verifier::external_body]
fn uuid_from_slice(id: &[u8]) -> (result: Result<[u8; 16], uuid::Error>)
    ensures
        result is Ok <==> id@.len() == 16,
        result matches Ok(bytes) ==> bytes@ == id@,
{
    uuid::Uuid::from_slice(id).map(|id| id.into_bytes())
}

/// Calls `uuid::Uuid::as_bytes`, which hands out the sixteen bytes that the identifier was made
/// from, in the same order.
#[verifier::external_body]
fn uuid_as_bytes(bytes: [u8; 16]) -> (result: Vec<u8>)
    ensures
        result@ == bytes@,
{
    uuid::Uuid::from_bytes(bytes).as_bytes().to_vec()
}

/// Calls `uuid::Uuid::new_v4`. The bits that mark a random identifier are fixed, the others
/// differ from call to call.
#[verifier::external_body]
fn uuid_new_v4() -> (result: [u8; 16])
    ensures
        result@[6] / 16 == 4,
        result@[8] / 64 == 2,
{
    uuid::Uuid::new_v4().into_bytes()
}

impl Uuid {
    /// The identifier whose bytes are all zero.
    pub fn nil() -> (result: Uuid)
        ensures
            forall|i: int| 0 <= i < 16 ==> result.bytes@[i] == 0,
    {
        Uuid { bytes: [0u8; 16] }
    }

    /// A fresh random identifier: version 4 in the seventh byte, the RFC variant in the ninth.
    pub fn new_v4() -> (result: Uuid)
        ensures
            result.bytes@[6] / 16 == 4,
            result.bytes@[8] / 64 == 2,
    {
        Uuid { bytes: uuid_new_v4() }
    }
}

/// Reads an identifier out of its bytes. Anything but sixteen bytes is an error.
pub fn deserialize_uuid(id: &[u8]) -> (result: Result<Uuid, DistributedError>)
    ensures
        id@.len() == 16 ==> (result matches Ok(uuid) && uuid.bytes@ == id@ && uuid == uuid_of(id@)),
        id@.len() != 16 ==> (result matches Err(error) && error@ == (ErrorKind::InvalidUuid {
            len: id@.len() as usize,
        }).plain()),
{
    match uuid_from_slice(id) {
        Ok(bytes) => {
            let uuid = Uuid { bytes };
            proof {
                uuid_of_its_bytes(uuid);
            }
            Ok(uuid)
        },
        Err(_) => Err(DistributedError::new(ErrorKind::InvalidUuid { len: id.len() })),
    }
}

/// The sixteen bytes of an identifier.
pub fn serialize_uuid(id: &Uuid) -> (result: Vec<u8>)
    ensures
        result@ == id.bytes@,
{
    uuid_as_bytes(id.bytes)
}

/// The identifier with these sixteen bytes.
pub open spec fn uuid_of(bytes: Seq<u8>) -> Uuid {
    choose|id: Uuid| id.bytes@ == bytes
}

/// An identifier is known by its bytes.
pub proof fn uuid_of_its_bytes(id: Uuid)
    ensures
        uuid_of(id.bytes@) == id,
{
    let other = uuid_of(id.bytes@);
    assert(other.bytes@ == id.bytes@);
    assert(other.bytes =~= id.bytes);
}

/// Reading back what was written gives the identifier that was written.
pub proof fn uuid_round_trip(id: Uuid, written: Seq<u8>, read: Uuid)
    requires
        written == id.bytes@,
        read.bytes@ == written,
    ensures
        read == id,
{
    assert(read.bytes =~= id.bytes);
}

/// What `url::Url::parse` makes of a text: the URL in its normal form, or nothing where the text
/// is no absolute URL.
pub uninterp spec fn parsed_url(text: Seq<char>) -> Option<Seq<char>>;

/// The error that the `url` crate reports for a text that is no URL.
#[verifier::external_type_specification]
#[verifier::external_body]
pub struct ExUrlParseError(url::ParseError);

/// Calls `url::Url::parse` and hands out the URL in its normal form. What the normal form of a
/// text is, and which texts have one, is left to [`parsed_url`].
#[verifier::external_body]
fn url_parse(text: &str) -> (result: Result<String, url::ParseError>)
    ensures
        match result {
            Ok(url) => parsed_url(text@) == Some(url@),
            Err(_) => parsed_url(text@) is None,
        },
{
    url::Url::parse(text).map(|url| url.to_string())
}

/// The normal form of a URL, and nothing for a text that is no URL.
pub fn parse_url(text: &str) -> (result: Option<String>)
    ensures
        match result {
            Some(url) => parsed_url(text@) == Some(url@),
            None => parsed_url(text@) is None,
        },
{
    match url_parse(text) {
        Ok(url) => Some(url),
        Err(_) => None,
    }
}

} // verus!

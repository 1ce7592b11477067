//! The authentication of a meter reporter to its collector.
use tonic::metadata::{Ascii, MetadataMap, MetadataValue};
use vstd::prelude::*;
use vstd::utf8::encode_utf8;

verus! {

/// `tonic::metadata::MetadataMap`, the headers of a gRPC request.
#[verifier::external_type_specification]
#[verifier::external_body]
pub struct ExMetadataMap(tonic::metadata::MetadataMap);

/// The entries of a `MetadataMap`: for each header name, in lower case, the
/// bytes of its values in order.
pub uninterp spec fn metadata_entries(map: MetadataMap) -> Map<Seq<char>, Seq<Seq<u8>>>;

/// With so many names or fewer, a `MetadataMap` always takes one more. It
/// refuses to grow past a fixed size, and where hashes collide it grows before
/// it is full; up to this bound neither can end in a refusal. With more names
/// it mostly takes one more too.
pub const METADATA_ROOM: usize = 6553;

/// The header that carries the authentication.
pub const AUTHENTICATION_KEY: &'static str = "authentication";

/// The bytes that a header value may hold: no control character but the tab.
pub open spec fn is_header_value(bytes: Seq<u8>) -> bool {
    forall|i: int|
        0 <= i < bytes.len() ==> (32 <= #[trigger] bytes[i] && bytes[i] != 127) || bytes[i] == 9
}

/// A header name of lower-case letters.
pub open spec fn is_plain_key(key: Seq<char>) -> bool {
    &&& 0 < key.len() <= 65535
    &&& forall|i: int| 0 <= i < key.len() ==> 'a' as u32 <= #[trigger] key[i] as u32 <= 'z' as u32
}

/// Calls `<MetadataValue<Ascii> as FromStr>::from_str` and takes the bytes of
/// the value.
///
/// The text is accepted exactly where its UTF-8 bytes may stand in a header
/// value, and the value then holds those bytes.
#[verifier::external_body]
fn parse_metadata_value(text: &str) -> (r: Option<Vec<u8>>)
    ensures
        match r {
            Some(value) => is_header_value(encode_utf8(text@)) && value@ == encode_utf8(text@),
            None => !is_header_value(encode_utf8(text@)),
        },
{
    match text.parse::<MetadataValue<Ascii>>() {
        Ok(value) => Some(value.as_encoded_bytes().to_vec()),
        Err(_) => None,
    }
}

/// Puts one value under a name, by `HeaderMap::try_insert` on the headers that
/// `MetadataMap::into_headers` gives, with the value that
/// `HeaderValue::try_from` makes of `value`; `MetadataMap::from_headers` takes
/// the headers back. `MetadataMap::insert` does the same, but panics where
/// `try_insert` returns an error.
///
/// Where it succeeds, the name has this one value; values it had before are
/// gone, and other names keep theirs. Where the headers cannot grow it fails,
/// and they stay as they were; with `METADATA_ROOM` names or fewer it does not
/// fail. With more it rests on what the map has allocated and on how its names
/// collide, which is left unsaid. The call panics on a name that is no header
/// name: the conditions leave that out, and bytes of which no value can be made.
#[verifier::external_body]
fn insert_metadata(map: &mut MetadataMap, key: &'static str, value: &[u8]) -> (r: bool)
    requires
        is_plain_key(key@),
        is_header_value(value@),
    ensures
        r ==> metadata_entries(*final(map)) == metadata_entries(*old(map)).insert(
            key@,
            seq![value@],
        ),
        !r ==> metadata_entries(*final(map)) == metadata_entries(*old(map)),
        metadata_entries(*old(map)).dom().len() <= METADATA_ROOM ==> r,
{
    let mut headers = std::mem::take(map).into_headers();
    let inserted = match value.try_into() {
        Ok(value) => headers.try_insert(key, value).is_ok(),
        Err(_) => false,
    };
    *map = MetadataMap::from_headers(headers);
    inserted
}

/// Puts the authentication, if there is one, into the headers of a request.
#[derive(Clone)]
pub struct AuthInterceptor {
    authentication: Option<String>,
}

/// There is an authentication, and it can stand in a header.
pub open spec fn is_carried(authentication: Option<Seq<char>>) -> bool {
    authentication matches Some(text) && is_header_value(encode_utf8(text))
}

/// The entries of a request with an authentication. One that cannot stand in
/// a header is left out.
pub open spec fn authenticated(
    entries: Map<Seq<char>, Seq<Seq<u8>>>,
    authentication: Option<Seq<char>>,
) -> Map<Seq<char>, Seq<Seq<u8>>> {
    if is_carried(authentication) {
        entries.insert("authentication"@, seq![encode_utf8(authentication->0)])
    } else {
        entries
    }
}

impl View for AuthInterceptor {
    type V = Option<Seq<char>>;

    closed spec fn view(&self) -> Option<Seq<char>> {
        match self.authentication {
            Some(text) => Some(text@),
            None => None,
        }
    }
}

impl Default for AuthInterceptor {
    fn default() -> (r: Self)
        ensures
            r@ is None,
    {
        AuthInterceptor { authentication: None }
    }
}

impl AuthInterceptor {
    /// An empty text is no authentication.
    pub fn new(authentication: String) -> (r: Self)
        ensures
            r@ == if authentication@.len() == 0 {
                None
            } else {
                Some(authentication@)
            },
    {
        if authentication.as_str().is_empty() {
            AuthInterceptor { authentication: None }
        } else {
            AuthInterceptor { authentication: Some(authentication) }
        }
    }

    /// The header value of the authentication, if it can stand in a header.
    fn header_value(&self) -> (r: Option<Vec<u8>>)
        ensures
            match r {
                Some(value) => {
                    &&& is_carried(self@)
                    &&& is_header_value(value@)
                    &&& value@ == encode_utf8(self@->0)
                },
                None => !is_carried(self@),
            },
    {
        match &self.authentication {
            Some(authentication) => parse_metadata_value(authentication.as_str()),
            None => None,
        }
    }

    /// Puts the authentication into the headers of a request. Returns `false`,
    /// and changes nothing, where there is an authentication to carry and the
    /// headers refuse to grow.
    pub fn call(&self, metadata: &mut MetadataMap) -> (r: bool)
        ensures
            metadata_entries(*final(metadata)) == if r {
                authenticated(metadata_entries(*old(metadata)), self@)
            } else {
                metadata_entries(*old(metadata))
            },
            !r ==> is_carried(self@) && metadata_entries(*old(metadata)).dom().len()
                > METADATA_ROOM,
            r && is_carried(self@) ==> metadata_entries(*final(metadata)).contains_key(
                "authentication"@,
            ) && metadata_entries(*final(metadata))["authentication"@] == seq![
                encode_utf8(self@->0),
            ],
    {
        match self.header_value() {
            Some(value) => {
                proof {
                    reveal_strlit("authentication");
                }
                insert_metadata(metadata, AUTHENTICATION_KEY, value.as_slice())
            },
            None => true,
        }
    }
}

/// An authentication is sent as it was given: where none of its bytes is a
/// control character but the tab, the one value of the authentication header is
/// its UTF-8, byte for byte, and whatever the header held before is gone.
/// Otherwise, and without an authentication, the headers stay as they were.
pub proof fn law_authentication_is_sent_unchanged(
    entries: Map<Seq<char>, Seq<Seq<u8>>>,
    text: Seq<char>,
)
    ensures
        (forall|i: int|
            0 <= i < encode_utf8(text).len() ==> #[trigger] encode_utf8(text)[i] == 9
                || encode_utf8(text)[i] >= 32 && encode_utf8(text)[i] != 127) ==> {
            let values = authenticated(entries, Some(text))["authentication"@];
            &&& authenticated(entries, Some(text)).contains_key("authentication"@)
            &&& values.len() == 1
            &&& values[0] == encode_utf8(text)
        },
        (exists|i: int|
            0 <= i < encode_utf8(text).len() && #[trigger] encode_utf8(text)[i] != 9 && (
            encode_utf8(text)[i] < 32 || encode_utf8(text)[i] == 127)) ==> authenticated(
            entries,
            Some(text),
        ) == entries,
        authenticated(entries, None) == entries,
{
}

/// Only the authentication header changes, and authenticating a request again
/// changes nothing more.
pub proof fn law_only_authentication_changes(
    entries: Map<Seq<char>, Seq<Seq<u8>>>,
    authentication: Option<Seq<char>>,
    key: Seq<char>,
)
    ensures
        key != "authentication"@ ==> {
            &&& authenticated(entries, authentication).contains_key(key) == entries.contains_key(key)
            &&& authenticated(entries, authentication)[key] == entries[key]
        },
        authenticated(authenticated(entries, authentication), authentication) == authenticated(
            entries,
            authentication,
        ),
{
    assert(authenticated(authenticated(entries, authentication), authentication)
        =~= authenticated(entries, authentication));
}

} // verus!

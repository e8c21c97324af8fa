//! The token cache: durable key-to-token storage across runs.
//!
//! One file per account identifier, at `<cache_dir>/mtd-vat-cli/<key>.access.json`,
//! holding a token record. This module derives the path, writes the record
//! text, and interprets what a reader found; moving bytes to and from disk is
//! the surrounding program's part, and it hands the file's text — or its
//! absence — back in as a plain value.
use vstd::prelude::*;

use crate::auth::Token;
use crate::error::Error;
use crate::json::parse_access_token;
use crate::json::serialize_record;
use crate::json::spec_parse_token;
use crate::json::token_json;
use crate::json::lemma_token_round_trip;

verus! {

/// Relies on `dirs::cache_dir`: the platform cache directory, as text, if the
/// platform names one and it is representable as text.
#[verifier::external_body]
fn platform_cache_dir() -> (r: Option<String>)
{
    dirs::cache_dir().and_then(|p| p.to_str().map(|s| s.to_owned()))
}

/// The tool's own cache directory under a platform cache root.
pub open spec fn spec_cache_dir(root: Seq<char>) -> Seq<char> {
    root + "/mtd-vat-cli"@
}

/// The cache directory of this tool: the platform cache directory with the
/// tool's own subdirectory appended, and none where the platform names no
/// cache directory.
pub fn cache_dir() -> (r: Option<String>)
    ensures
        r matches Some(d) ==> exists|root: Seq<char>| d@ == spec_cache_dir(root),
{
    match platform_cache_dir() {
        Some(root) => {
            let ghost root_view = root@;
            let mut d = root;
            d.append("/mtd-vat-cli");
            proof {
                assert(d@ == spec_cache_dir(root_view));
            }
            Some(d)
        },
        None => None,
    }
}

/// The file name a token for `key` is cached under.
pub open spec fn spec_cache_file_name(key: Seq<char>) -> Seq<char> {
    key + ".access.json"@
}

/// Derives the cache file name of an account identifier.
pub fn cache_file_name(key: &str) -> (r: String)
    ensures
        r@ == spec_cache_file_name(key@),
{
    let mut name = key.to_owned();
    name.append(".access.json");
    name
}

/// Prepares a write of `token` under `key`: the file name the record belongs
/// at, and the record text to store there, overwriting what was there.
pub fn write_token(key: &str, token: &Token) -> (r: (String, String))
    ensures
        r.0@ == spec_cache_file_name(key@),
        r.1@ == token_json(token.access_token@),
{
    (cache_file_name(key), serialize_record(token.access_token.as_str()))
}

/// Interprets what a reader found under a key's cache file name: an absent
/// file is no error and yields nothing; a present file must hold a token
/// record, and any other content is a deserialization error.
pub fn read_token(contents: Option<&str>) -> (r: Result<Option<Token>, Error>)
    ensures
        contents is None ==> r == Ok::<Option<Token>, Error>(None),
        contents matches Some(text) ==> match spec_parse_token(text@) {
            Some(t) => r matches Ok(o) && (o matches Some(tok) && tok.access_token@ == t),
            None => r matches Err(e) && e matches Error::DeserializationError { .. },
        },
{
    match contents {
        None => Ok(None),
        Some(text) => match parse_access_token(text) {
            Some(access_token) => Ok(Some(Token { access_token })),
            None => Err(
                Error::DeserializationError {
                    detail: String::from_str("cache file is not a token record"),
                },
            ),
        },
    }
}

/// Law: a round trip through the cache preserves the token — reading back the
/// very text that a write puts on disk yields the token that was written.
pub proof fn lemma_cache_round_trip(token: Token)
    ensures
        spec_parse_token(token_json(token.access_token@)) == Some(token.access_token@),
{
    lemma_token_round_trip(token.access_token@);
}

} // verus!

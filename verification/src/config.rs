//! The stored configuration: what is read, and whether it was changed meanwhile.
use crate::text::{blank, is_blank, is_white, lemma_not_blank, opt_text};
use crate::types::{outcome, Error};
use vstd::prelude::*;
use vstd::utf8::encode_utf8;

verus! {

/// The SHA-256 digest that `openssl::sha::sha256` computes of the bytes.
pub uninterp spec fn sha256_digest(bytes: Seq<u8>) -> Seq<u8>;

/// `openssl::sha::sha256`: 32 bytes that depend on the data alone. How they are computed is left
/// unsaid: the result has a name.
#[verifier::external_body]
fn sha256(data: &[u8]) -> (r: Vec<u8>)
    ensures
        r@ == sha256_digest(data@),
        r@.len() == 32,
{
    openssl::sha::sha256(data).to_vec()
}

/// A stored configuration as it was read.
#[derive(Debug)]
pub struct LoadedConfig {
    /// The text to parse. Nothing is to be parsed where the file is missing or blank: the
    /// configuration has no jobs then.
    pub content: Option<String>,
    /// The digest of what was read.
    pub digest: Vec<u8>,
}

/// What a file holds; a missing one holds nothing.
pub open spec fn file_text(content: Option<String>) -> Seq<char> {
    match content {
        Some(s) => s@,
        None => Seq::empty(),
    }
}

/// What is to be parsed of a file's text: all of it, unless it is blank.
pub open spec fn text_to_parse(text: Seq<char>) -> Option<Seq<char>> {
    if is_blank(text) {
        None
    } else {
        Some(text)
    }
}

/// The digest of a file's text.
pub open spec fn digest_of(text: Seq<char>) -> Seq<u8> {
    sha256_digest(encode_utf8(text))
}

/// What the file of the configuration holds, and the digest of it. The text is handed on as it was
/// stored; to write jobs as text and to parse a text into jobs is the caller's.
pub fn config(content: Option<String>) -> (r: LoadedConfig)
    ensures
        r.digest@ == digest_of(file_text(content)),
        opt_text(r.content) == text_to_parse(file_text(content)),
{
    let text = match content {
        Some(s) => s,
        None => String::new(),
    };
    assert(text@ =~= file_text(content));
    let digest = sha256(text.as_str().as_bytes());
    if blank(text.as_str()) {
        LoadedConfig { content: None, digest }
    } else {
        LoadedConfig { content: Some(text), digest }
    }
}

/// The digest that the caller started from is not that of the present configuration.
pub open spec fn is_modified(expected: Seq<u8>, given: Option<Seq<u8>>) -> bool {
    given matches Some(digest) && digest != expected
}

/// The message that the configuration was changed meanwhile.
pub const MODIFIED_MESSAGE: &'static str =
    "detected modified configuration - file changed by other user? Try again.";

pub open spec fn opt_bytes(o: Option<Vec<u8>>) -> Option<Seq<u8>> {
    match o {
        Some(v) => Some(v@),
        None => None,
    }
}

/// Refuses a change that started from another configuration than the present one. A caller that
/// gives no digest is not refused.
pub fn detect_modification(expected: &Vec<u8>, given: &Option<Vec<u8>>) -> (r: Result<(), Error>)
    ensures
        outcome(r) == (if is_modified(expected@, opt_bytes(*given)) {
            Err(MODIFIED_MESSAGE@)
        } else {
            Ok(())
        }),
{
    match given {
        None => Ok(()),
        Some(digest) => {
            if digest.len() != expected.len() {
                return Err(Error::new(MODIFIED_MESSAGE));
            }
            let mut i: usize = 0;
            while i < digest.len()
                invariant
                    i <= digest.len() == expected.len(),
                    opt_bytes(*given) == Some(digest@),
                    forall|k: int| 0 <= k < i ==> digest@[k] == expected@[k],
                decreases digest.len() - i,
            {
                if digest[i] != expected[i] {
                    return Err(Error::new(MODIFIED_MESSAGE));
                }
                i += 1;
            }
            assert(digest@ =~= expected@);
            Ok(())
        },
    }
}

/// A caller that hands back the digest it read is not refused while the file stays the same.
pub proof fn law_unchanged_config_is_not_modified(content: Seq<char>)
    ensures
        !is_modified(digest_of(content), Some(digest_of(content))),
{
}

/// A text with anything but white space in it that was put in the file is handed on to be parsed as
/// it was put there, and is not taken for a missing configuration.
pub proof fn law_stored_text_is_handed_on(text: String, i: int)
    requires
        0 <= i < text@.len(),
        !is_white(text@[i]),
    ensures
        text_to_parse(file_text(Some(text))) == Some(text@),
{
    lemma_not_blank(text@, i);
}

/// A missing file and a blank one hold nothing to parse.
pub proof fn law_blank_file_is_like_a_missing_one(text: String)
    requires
        is_blank(text@),
    ensures
        text_to_parse(file_text(Some(text))) is None,
        text_to_parse(file_text(None)) is None,
{
}

/// A change that started from any other digest is refused; one that names none is not.
pub proof fn law_other_digests_are_refused(expected: Seq<u8>, given: Seq<u8>)
    ensures
        given != expected ==> is_modified(expected, Some(given)),
        !is_modified(expected, Some(expected)),
        !is_modified(expected, None),
{
}

} // verus!

//! The name of the file in which a node keeps its snapshot.
use vstd::prelude::*;
use sha2::Digest;
use vstd::string::StringSliceAdditionalSpecFns;

verus! {

/// What SHA-224 (`sha2::Sha224::digest`) gives for some bytes.
pub uninterp spec fn sha224_digest(data: Seq<u8>) -> Seq<u8>;

/// The character of a six-bit value in the URL-safe base64 alphabet:
/// 'A'-'Z', 'a'-'z', '0'-'9', '-', '_'.
pub open spec fn url_safe_char(v: int) -> char {
    if v < 26 {
        (65 + v) as char
    } else if v < 52 {
        (97 + v - 26) as char
    } else if v < 62 {
        (48 + v - 52) as char
    } else if v == 62 {
        '-'
    } else {
        '_'
    }
}

/// URL-safe base64 with padding: each group of three bytes, read as 24 bits,
/// gives four characters of six bits each; a last group of one or two bytes
/// gives two or three characters, padded with '=' to four.
pub open spec fn base64_url_safe(data: Seq<u8>) -> Seq<char>
    decreases data.len(),
{
    if data.len() == 0 {
        Seq::empty()
    } else if data.len() == 1 {
        let b0 = data[0] as int;
        seq![url_safe_char(b0 / 4), url_safe_char((b0 % 4) * 16), '=', '=']
    } else if data.len() == 2 {
        let b0 = data[0] as int;
        let b1 = data[1] as int;
        seq![
            url_safe_char(b0 / 4),
            url_safe_char((b0 % 4) * 16 + b1 / 16),
            url_safe_char((b1 % 16) * 4),
            '=',
        ]
    } else {
        let b0 = data[0] as int;
        let b1 = data[1] as int;
        let b2 = data[2] as int;
        seq![
            url_safe_char(b0 / 4),
            url_safe_char((b0 % 4) * 16 + b1 / 16),
            url_safe_char((b1 % 16) * 4 + b2 / 64),
            url_safe_char(b2 % 64),
        ] + base64_url_safe(data.subrange(3, data.len() as int))
    }
}

/// Calls `sha2::Sha224::digest`; the 28-byte digest is named.
#[verifier::external_body]
fn sha224(data: &[u8]) -> (res: Vec<u8>)
    ensures
        res@ == sha224_digest(data@),
        res@.len() == 28,
{
    sha2::Sha224::digest(data).to_vec()
}

/// Calls `base64::encode_config` with `base64::URL_SAFE` (URL-safe alphabet, with
/// padding), which gives the encoding that `base64_url_safe` spells out. The crate
/// panics only when the encoded length overflows, excluded here.
#[verifier::external_body]
fn base64_url(data: &[u8]) -> (res: String)
    requires
        data@.len() <= usize::MAX / 4,
    ensures
        res@ == base64_url_safe(data@),
{
    base64::encode_config(data, base64::URL_SAFE)
}

/// The snapshot file of the node at `address`: "snapshot_", the URL-safe base64
/// text of the SHA-224 digest of the address's UTF-8 bytes, and ".json".
pub fn snapshot_file_name(address: &str) -> (res: String)
    ensures
        res@ == "snapshot_"@ + base64_url_safe(sha224_digest(address.spec_bytes())) + ".json"@,
{
    let digest = sha224(address.as_bytes());
    let encoded = base64_url(digest.as_slice());
    let mut name = "snapshot_".to_owned();
    name.append(encoded.as_str());
    name.append(".json");
    name
}

} // verus!

//! SHA-256 digests in lower-case hex, and the stable identifiers derived from them.
use crate::text::join;
use vstd::prelude::*;
use vstd::string::*;
use vstd::utf8::encode_utf8;

verus! {

/// The SHA-256 digest of a byte string.
pub uninterp spec fn sha256(data: Seq<u8>) -> Seq<u8>;

/// Calls `sha2::Sha256::digest`; the contract claims that the result is the digest that
/// `sha256` names for the input bytes, 32 bytes long (`Output<Sha256>` is `[u8; 32]`).
#[verifier::external_body]
fn sha256_digest(data: &[u8]) -> (r: Vec<u8>)
    ensures
        r@ == sha256(data@),
        r@.len() == 32,
{
    <sha2::Sha256 as sha2::Digest>::digest(data).to_vec()
}

/// The lower-case hex digit of a value below sixteen.
pub open spec fn hex_digit(n: nat) -> char {
    if n < 10 {
        ((n + 48) as u8) as char
    } else {
        ((n + 87) as u8) as char
    }
}

/// Two lower-case hex digits per byte.
pub open spec fn hex_lower(bytes: Seq<u8>) -> Seq<char>
    decreases bytes.len(),
{
    if bytes.len() == 0 {
        Seq::empty()
    } else {
        hex_lower(bytes.drop_last()) + seq![
            hex_digit((bytes.last() / 16) as nat),
            hex_digit((bytes.last() % 16) as nat),
        ]
    }
}

/// Hex doubles the length: two digits per byte.
pub proof fn lemma_hex_lower_len(bytes: Seq<u8>)
    ensures
        hex_lower(bytes).len() == 2 * bytes.len(),
    decreases bytes.len(),
{
    if bytes.len() > 0 {
        lemma_hex_lower_len(bytes.drop_last());
    }
}

/// The lower-case hex SHA-256 digest of the UTF-8 bytes of a text.
pub open spec fn checksum_of(text: Seq<char>) -> Seq<char> {
    hex_lower(sha256(encode_utf8(text)))
}

/// The identifier `<prefix>_<hex>` where `<hex>` is the first 16 bytes, in lower-case
/// hex, of the SHA-256 digest of the parts joined with `|`.
pub open spec fn stable_id_of(prefix: Seq<char>, parts: Seq<Seq<char>>) -> Seq<char> {
    prefix + seq!['_'] + hex_lower(sha256(encode_utf8(join(parts, seq!['|']))).take(16))
}

/// The views of a slice of string slices.
pub open spec fn str_views(parts: Seq<&str>) -> Seq<Seq<char>> {
    parts.map_values(|p: &str| p@)
}

fn hex_char(n: u8) -> (c: char)
    requires
        n < 16,
    ensures
        c == hex_digit(n as nat),
{
    if n < 10 {
        (n + 48) as char
    } else {
        (n + 87) as char
    }
}

/// Appends the lower-case hex form of the first `count` bytes.
fn push_hex(out: &mut String, bytes: &Vec<u8>, count: usize)
    requires
        count <= bytes@.len(),
    ensures
        final(out)@ == old(out)@ + hex_lower(bytes@.take(count as int)),
{
    let mut i: usize = 0;
    assert(bytes@.take(0) =~= Seq::<u8>::empty());
    while i < count
        invariant
            count <= bytes@.len(),
            i <= count,
            out@ == old(out)@ + hex_lower(bytes@.take(i as int)),
        decreases count - i,
    {
        let b = bytes[i];
        out.push(hex_char(b / 16));
        out.push(hex_char(b % 16));
        assert(bytes@.take(i + 1).drop_last() =~= bytes@.take(i as int));
        assert(out@ =~= old(out)@ + hex_lower(bytes@.take(i + 1)));
        i = i + 1;
    }
}

/// The lower-case hex SHA-256 digest of a byte string.
pub fn sha256_hex(data: &[u8]) -> (r: String)
    ensures
        r@ == hex_lower(sha256(data@)),
        r@.len() == 64,
{
    let digest = sha256_digest(data);
    let mut out = String::new();
    push_hex(&mut out, &digest, 32);
    assert(digest@.take(32) =~= digest@);
    proof {
        lemma_hex_lower_len(digest@);
    }
    out
}

/// The lower-case hex SHA-256 digest of the UTF-8 bytes of a text.
pub fn checksum_text(text: &str) -> (r: String)
    ensures
        r@ == checksum_of(text@),
        r@.len() == 64,
{
    sha256_hex(text.as_bytes())
}

/// The parts joined with `sep` between them.
fn join_strs(parts: &[&str], sep: char) -> (r: String)
    ensures
        r@ == join(str_views(parts@), seq![sep]),
{
    let mut out = String::new();
    let ghost vs = str_views(parts@);
    let mut i: usize = 0;
    while i < parts.len()
        invariant
            vs == str_views(parts@),
            i <= parts@.len(),
            out@ == join(vs.take(i as int), seq![sep]),
        decreases parts@.len() - i,
    {
        assert(vs.take(i + 1).drop_last() =~= vs.take(i as int));
        if i > 0 {
            out.push(sep);
        } else {
            assert(vs.take(0) =~= Seq::<Seq<char>>::empty());
        }
        out.append(parts[i]);
        assert(out@ =~= join(vs.take(i + 1), seq![sep]));
        i = i + 1;
    }
    assert(vs.take(parts@.len() as int) =~= vs);
    out
}

/// A stable identifier: the same prefix and parts always give the same identifier.
pub fn stable_id(prefix: &str, parts: &[&str]) -> (r: String)
    ensures
        r@ == stable_id_of(prefix@, str_views(parts@)),
        r@.len() == prefix@.len() + 33,
{
    let joined = join_strs(parts, '|');
    let digest = sha256_digest(joined.as_str().as_bytes());
    let mut out = prefix.to_owned();
    out.push('_');
    push_hex(&mut out, &digest, 16);
    proof {
        lemma_hex_lower_len(digest@.take(16));
    }
    out
}

} // verus!

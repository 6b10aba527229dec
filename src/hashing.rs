//! Content hashes: SHA-224 digests of file contents, and their text form.

use vstd::prelude::*;
use vstd::string::StringSliceAdditionalSpecFns;
use vstd::utf8::{encode_utf8, is_ascii_chars, is_ascii_chars_encode_utf8};

verus! {

#[verifier::external_type_specification]
#[verifier::external_body]
pub struct ExSha224(sha2::Sha224);

#[verifier::external_type_specification]
#[verifier::external_body]
pub struct ExFromHexError(hex::FromHexError);

/// The bytes a SHA-224 hasher has absorbed so far: the hasher's state is
/// modelled as the stream it was fed.
pub uninterp spec fn absorbed(h: sha2::Sha224) -> Seq<u8>;

/// The SHA-224 digest of a byte string.
pub uninterp spec fn sha224_digest(data: Seq<u8>) -> Seq<u8>;

/// Relies on sha2's `Digest::new` for `Sha224`: a hasher that has absorbed
/// nothing yet.
#[verifier::external_body]
fn sha224_new() -> (r: sha2::Sha224)
    ensures
        absorbed(r) == Seq::<u8>::empty(),
{
    <sha2::Sha224 as sha2::Digest>::new()
}

/// Relies on sha2's `Digest::input`: the bytes are appended to what the
/// hasher has absorbed.
#[verifier::external_body]
fn sha224_input(h: &mut sha2::Sha224, data: &[u8])
    ensures
        absorbed(*final(h)) == absorbed(*old(h)) + data@,
{
    sha2::Digest::input(h, data)
}

/// Relies on sha2's `Digest::result`: the 28-byte SHA-224 digest of
/// everything the hasher absorbed.
#[verifier::external_body]
fn sha224_result(h: sha2::Sha224) -> (r: [u8; 28])
    ensures
        r@ == sha224_digest(absorbed(h)),
{
    let out = sha2::Digest::result(h);
    let mut bytes = [0u8; 28];
    bytes.copy_from_slice(out.as_slice());
    bytes
}

/// The lowercase hexadecimal digit for a value below sixteen.
pub open spec fn hex_digit(n: int) -> char {
    if n < 10 {
        (n + 0x30) as char
    } else {
        (n - 10 + 0x61) as char
    }
}

/// Two lowercase hexadecimal digits per byte, high half first.
pub open spec fn hex_lower(b: Seq<u8>) -> Seq<char> {
    Seq::new(
        2 * b.len(),
        |i: int|
            if i % 2 == 0 {
                hex_digit(b[i / 2] as int / 16)
            } else {
                hex_digit(b[i / 2] as int % 16)
            },
    )
}

/// The value of one hexadecimal digit in either case.
pub open spec fn hex_value(c: u8) -> Option<int> {
    if 0x30 <= c <= 0x39 {
        Some(c - 0x30)
    } else if 0x61 <= c <= 0x66 {
        Some(c - 0x61 + 10)
    } else if 0x41 <= c <= 0x46 {
        Some(c - 0x41 + 10)
    } else {
        None
    }
}

/// Text that is an even number of hexadecimal digits.
pub open spec fn is_hex_text(t: Seq<u8>) -> bool {
    &&& t.len() % 2 == 0
    &&& forall|i: int| 0 <= i < t.len() ==> (#[trigger] hex_value(t[i])) is Some
}

/// The bytes that hexadecimal text stands for.
pub open spec fn hex_decoded(t: Seq<u8>) -> Seq<u8> {
    Seq::new(
        t.len() / 2,
        |i: int| (hex_value(t[2 * i])->0 * 16 + hex_value(t[2 * i + 1])->0) as u8,
    )
}

/// Relies on hex::encode: two lowercase digits per byte, high half first.
#[verifier::external_body]
fn encode_hex(b: &[u8]) -> (r: String)
    ensures
        r@ == hex_lower(b@),
{
    hex::encode(b)
}

/// Relies on hex::decode: succeeds exactly on an even number of digits of
/// either case, and gives one byte per pair of digits.
#[verifier::external_body]
fn decode_hex(t: &[u8]) -> (r: Result<Vec<u8>, hex::FromHexError>)
    ensures
        r is Ok <==> is_hex_text(t@),
        r matches Ok(v) ==> v@ == hex_decoded(t@),
{
    hex::decode(t)
}

/// A SHA-224 digest of a file's contents.
#[derive(Clone, Copy, Debug)]
pub struct FileHash {
    pub bytes: [u8; 28],
}

impl View for FileHash {
    type V = Seq<u8>;

    open spec fn view(&self) -> Seq<u8> {
        self.bytes@
    }
}

/// Why hash text could not be read back.
#[derive(Clone, Copy, Debug, PartialEq, Eq, Structural)]
pub enum HashTextError {
    /// Not an even number of hexadecimal digits.
    NotHex,
    /// Hexadecimal, but not 28 bytes' worth.
    WrongLength,
}

impl FileHash {
    pub fn new(bytes: [u8; 28]) -> (r: FileHash)
        ensures
            r@ == bytes@,
    {
        FileHash { bytes }
    }

    /// Whether two digests are the same bytes.
    pub fn same_as(&self, other: &FileHash) -> (r: bool)
        ensures
            r == (self@ == other@),
    {
        let mut i: usize = 0;
        while i < 28
            invariant
                i <= 28,
                self@.len() == 28,
                other@.len() == 28,
                forall|j: int| 0 <= j < i ==> self@[j] == other@[j],
            decreases 28 - i,
        {
            if self.bytes[i] != other.bytes[i] {
                return false;
            }
            i = i + 1;
        }
        assert(self@ =~= other@);
        true
    }

    /// The digest as lowercase hexadecimal text.
    pub fn to_hex(&self) -> (r: String)
        ensures
            r@ == hex_lower(self@),
    {
        encode_hex(self.bytes.as_slice())
    }

    /// Reads a digest back from hexadecimal text of either case.
    pub fn from_hex(text: &str) -> (r: Result<FileHash, HashTextError>)
        ensures
            r is Ok <==> is_hex_text(text.spec_bytes()) && text.spec_bytes().len() == 56,
            r matches Ok(h) ==> h@ == hex_decoded(text.spec_bytes()),
            r == Err::<FileHash, HashTextError>(HashTextError::NotHex) <==> !is_hex_text(
                text.spec_bytes(),
            ),
    {
        match decode_hex(text.as_bytes()) {
            Ok(v) => {
                if v.len() != 28 {
                    return Err(HashTextError::WrongLength);
                }
                let mut bytes = [0u8; 28];
                let mut i: usize = 0;
                while i < 28
                    invariant
                        i <= 28,
                        v@.len() == 28,
                        bytes@.len() == 28,
                        forall|j: int| 0 <= j < i ==> bytes@[j] == v@[j],
                    decreases 28 - i,
                {
                    bytes.set(i, v[i]);
                    i = i + 1;
                }
                assert(bytes@ =~= v@);
                Ok(FileHash { bytes })
            },
            Err(_) => Err(HashTextError::NotHex),
        }
    }
}

impl PartialEq for FileHash {
    fn eq(&self, other: &FileHash) -> (r: bool) {
        self.same_as(other)
    }
}

impl vstd::std_specs::cmp::PartialEqSpecImpl for FileHash {
    open spec fn obeys_eq_spec() -> bool {
        true
    }

    open spec fn eq_spec(&self, other: &FileHash) -> bool {
        self@ == other@
    }
}

impl Eq for FileHash {

}

/// A SHA-224 hash computed over a stream of chunks, as they are read.
pub struct ContentHasher {
    state: sha2::Sha224,
}

impl ContentHasher {
    /// The bytes fed in so far.
    pub closed spec fn fed(&self) -> Seq<u8> {
        absorbed(self.state)
    }

    pub fn new() -> (r: ContentHasher)
        ensures
            r.fed() == Seq::<u8>::empty(),
    {
        ContentHasher { state: sha224_new() }
    }

    /// Feeds the next chunk of the stream.
    pub fn update(&mut self, chunk: &[u8])
        ensures
            final(self).fed() == old(self).fed() + chunk@,
    {
        sha224_input(&mut self.state, chunk);
    }

    /// The digest of everything fed.
    pub fn finish(self) -> (r: FileHash)
        ensures
            r@ == sha224_digest(self.fed()),
    {
        FileHash { bytes: sha224_result(self.state) }
    }
}

/// The digest of bytes held in memory.
pub fn hash_bytes(data: &[u8]) -> (r: FileHash)
    ensures
        r@ == sha224_digest(data@),
{
    let mut h = ContentHasher::new();
    h.update(data);
    assert(Seq::<u8>::empty() + data@ =~= data@);
    h.finish()
}

proof fn lemma_hex_digit_value(n: int)
    requires
        0 <= n < 16,
    ensures
        '\0' <= hex_digit(n) <= '\u{7f}',
        hex_value(hex_digit(n) as u8) == Some(n),
{
}

/// A hash written as hexadecimal text reads back as the same hash: the
/// text is 56 digits, and decodes to the hash's bytes.
pub proof fn lemma_hex_round_trip(h: FileHash)
    ensures
        is_hex_text(encode_utf8(hex_lower(h@))),
        encode_utf8(hex_lower(h@)).len() == 56,
        hex_decoded(encode_utf8(hex_lower(h@))) == h@,
{
    let b = h@;
    let t = hex_lower(b);
    assert forall|i: int| 0 <= i < t.len() implies '\0' <= #[trigger] t[i] <= '\u{7f}' by {
        lemma_hex_digit_value(b[i / 2] as int / 16);
        lemma_hex_digit_value(b[i / 2] as int % 16);
    }
    assert(is_ascii_chars(t));
    is_ascii_chars_encode_utf8(t);
    let e = encode_utf8(t);
    assert forall|i: int| 0 <= i < e.len() implies (#[trigger] hex_value(e[i])) is Some by {
        assert(e[i] == t[i] as u8);
        lemma_hex_digit_value(b[i / 2] as int / 16);
        lemma_hex_digit_value(b[i / 2] as int % 16);
    }
    assert forall|i: int| 0 <= i < b.len() implies #[trigger] hex_decoded(e)[i] == b[i] by {
        assert(e[2 * i] == t[2 * i] as u8);
        assert(e[2 * i + 1] == t[2 * i + 1] as u8);
        assert((2 * i) / 2 == i);
        assert((2 * i + 1) / 2 == i);
        assert((2 * i) % 2 == 0);
        assert((2 * i + 1) % 2 == 1);
        lemma_hex_digit_value(b[i] as int / 16);
        lemma_hex_digit_value(b[i] as int % 16);
        assert(b[i] as int / 16 * 16 + b[i] as int % 16 == b[i] as int);
    }
    assert(hex_decoded(e) =~= b);
}

} // verus!

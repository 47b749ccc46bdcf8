use vstd::prelude::*;
use vstd::utf8::encode_utf8;

verus! {

/// The fields that a credential protects, in their canonical order.
#[derive(Debug, Clone)]
pub struct MakeTokenPlaintext {
    /// Endpoint of the storage node that the credential is good for.
    pub node: String,
    /// Key-id: the key-rotation epoch and client state it was minted under.
    pub fxa_kid: String,
    /// The account identifier as the provider issued it. Never logged.
    pub fxa_uid: String,
    /// Pseudonym of the device.
    pub hashed_device_id: String,
    /// Pseudonym of the account.
    pub hashed_fxa_uid: String,
    /// When the credential lapses, in seconds since the epoch.
    pub expires: u64,
    /// The account's numeric id on its node.
    pub uid: i64,
}

/// What a plaintext holds, as mathematical values.
pub struct PlaintextFields {
    pub node: Seq<char>,
    pub fxa_kid: Seq<char>,
    pub fxa_uid: Seq<char>,
    pub hashed_device_id: Seq<char>,
    pub hashed_fxa_uid: Seq<char>,
    pub expires: u64,
    pub uid: i64,
}

impl View for MakeTokenPlaintext {
    type V = PlaintextFields;

    open spec fn view(&self) -> PlaintextFields {
        PlaintextFields {
            node: self.node@,
            fxa_kid: self.fxa_kid@,
            fxa_uid: self.fxa_uid@,
            hashed_device_id: self.hashed_device_id@,
            hashed_fxa_uid: self.hashed_fxa_uid@,
            expires: self.expires,
            uid: self.uid,
        }
    }
}

/// The eight bytes of a 64-bit number, the most significant first: its digits
/// to the base 256.
#[verifier::opaque]
pub open spec fn be_bytes(n: u64) -> Seq<u8> {
    let q1 = n / 256;
    let q2 = q1 / 256;
    let q3 = q2 / 256;
    let q4 = q3 / 256;
    let q5 = q4 / 256;
    let q6 = q5 / 256;
    let q7 = q6 / 256;
    seq![
        (q7 % 256) as u8,
        (q6 % 256) as u8,
        (q5 % 256) as u8,
        (q4 % 256) as u8,
        (q3 % 256) as u8,
        (q2 % 256) as u8,
        (q1 % 256) as u8,
        (n % 256) as u8,
    ]
}

/// The 64-bit pattern of a signed number in two's complement.
pub open spec fn twos_complement(n: i64) -> u64 {
    if n >= 0 {
        n as u64
    } else {
        (n + 0x1_0000_0000_0000_0000) as u64
    }
}

/// A text field on the wire: the length of its UTF-8 bytes, then the bytes.
pub open spec fn text_field(text: Seq<char>) -> Seq<u8> {
    be_bytes(encode_utf8(text).len() as u64) + encode_utf8(text)
}

/// Whether the UTF-8 bytes of a text can be counted in 64 bits.
pub open spec fn text_fits(text: Seq<char>) -> bool {
    encode_utf8(text).len() <= u64::MAX
}

impl PlaintextFields {
    /// Whether each text field is short enough for its length prefix.
    pub open spec fn fits(self) -> bool {
        &&& text_fits(self.node)
        &&& text_fits(self.fxa_kid)
        &&& text_fits(self.fxa_uid)
        &&& text_fits(self.hashed_device_id)
        &&& text_fits(self.hashed_fxa_uid)
    }

    /// The canonical bytes of a plaintext: its seven fields in order, each
    /// text with its length before it, each number in eight bytes.
    pub open spec fn canonical_bytes(self) -> Seq<u8> {
        text_field(self.node) + (text_field(self.fxa_kid) + (text_field(self.fxa_uid) + (
        text_field(self.hashed_device_id) + (text_field(self.hashed_fxa_uid) + (be_bytes(
            self.expires,
        ) + be_bytes(twos_complement(self.uid)))))))
    }
}

/// The number that eight bytes spell, the most significant first.
pub open spec fn from_be_bytes(bytes: Seq<u8>) -> int {
    ((((((bytes[0] * 256 + bytes[1]) * 256 + bytes[2]) * 256 + bytes[3]) * 256 + bytes[4]) * 256
        + bytes[5]) * 256 + bytes[6]) * 256 + bytes[7]
}

/// The eight bytes of a number spell that number.
pub proof fn lemma_be_bytes_value(n: u64)
    ensures
        be_bytes(n).len() == 8,
        from_be_bytes(be_bytes(n)) == n,
{
    reveal(be_bytes);
    let q1 = n / 256;
    let q2 = q1 / 256;
    let q3 = q2 / 256;
    let q4 = q3 / 256;
    let q5 = q4 / 256;
    let q6 = q5 / 256;
    let q7 = q6 / 256;
    assert(q7 < 256);
    assert(q6 == q7 * 256 + q6 % 256);
    assert(q5 == q6 * 256 + q5 % 256);
    assert(q4 == q5 * 256 + q4 % 256);
    assert(q3 == q4 * 256 + q3 % 256);
    assert(q2 == q3 * 256 + q2 % 256);
    assert(q1 == q2 * 256 + q1 % 256);
    assert(n == q1 * 256 + n % 256);
}

/// A number's eight bytes can be read off the front of any byte string that
/// starts with them: two such strings that are equal start with the same
/// number and go on in the same way.
pub proof fn lemma_be_bytes_prefix(a: u64, b: u64, rest_a: Seq<u8>, rest_b: Seq<u8>)
    requires
        be_bytes(a) + rest_a == be_bytes(b) + rest_b,
    ensures
        a == b,
        rest_a == rest_b,
{
    let whole = be_bytes(a) + rest_a;
    lemma_be_bytes_value(a);
    lemma_be_bytes_value(b);
    assert(be_bytes(a) =~= whole.subrange(0, 8));
    assert(be_bytes(b) =~= (be_bytes(b) + rest_b).subrange(0, 8));
    assert(rest_a =~= whole.subrange(8, whole.len() as int));
    assert(rest_b =~= (be_bytes(b) + rest_b).subrange(8, whole.len() as int));
}

/// A text field can be read off the front of any byte string that starts
/// with it.
pub proof fn lemma_text_field_prefix(
    a: Seq<char>,
    b: Seq<char>,
    rest_a: Seq<u8>,
    rest_b: Seq<u8>,
)
    requires
        text_fits(a),
        text_fits(b),
        text_field(a) + rest_a == text_field(b) + rest_b,
    ensures
        a == b,
        rest_a == rest_b,
{
    let bytes_a = encode_utf8(a);
    let bytes_b = encode_utf8(b);
    assert(text_field(a) + rest_a =~= be_bytes(bytes_a.len() as u64) + (bytes_a + rest_a));
    assert(text_field(b) + rest_b =~= be_bytes(bytes_b.len() as u64) + (bytes_b + rest_b));
    lemma_be_bytes_prefix(
        bytes_a.len() as u64,
        bytes_b.len() as u64,
        bytes_a + rest_a,
        bytes_b + rest_b,
    );
    let whole = bytes_a + rest_a;
    assert(bytes_a.len() == bytes_b.len());
    assert(bytes_a =~= whole.subrange(0, bytes_a.len() as int));
    assert(bytes_b =~= (bytes_b + rest_b).subrange(0, bytes_a.len() as int));
    assert(rest_a =~= whole.subrange(bytes_a.len() as int, whole.len() as int));
    assert(rest_b =~= (bytes_b + rest_b).subrange(bytes_a.len() as int, whole.len() as int));
    vstd::utf8::encode_utf8_decode_utf8(a);
    vstd::utf8::encode_utf8_decode_utf8(b);
}

/// Two signed numbers with the same 64-bit pattern are the same number.
pub proof fn lemma_twos_complement_injective(a: i64, b: i64)
    requires
        twos_complement(a) == twos_complement(b),
    ensures
        a == b,
{
}

/// The canonical bytes of a plaintext can be read off the front of any byte
/// string that starts with them: where two such strings are equal, the
/// plaintexts are equal field by field, and so is what follows them.
pub proof fn lemma_canonical_bytes_prefix(
    a: PlaintextFields,
    b: PlaintextFields,
    rest_a: Seq<u8>,
    rest_b: Seq<u8>,
)
    requires
        a.fits(),
        b.fits(),
        a.canonical_bytes() + rest_a == b.canonical_bytes() + rest_b,
    ensures
        a == b,
        rest_a == rest_b,
{
    let a6 = be_bytes(twos_complement(a.uid)) + rest_a;
    let b6 = be_bytes(twos_complement(b.uid)) + rest_b;
    let a5 = be_bytes(a.expires) + a6;
    let b5 = be_bytes(b.expires) + b6;
    let a4 = text_field(a.hashed_fxa_uid) + a5;
    let b4 = text_field(b.hashed_fxa_uid) + b5;
    let a3 = text_field(a.hashed_device_id) + a4;
    let b3 = text_field(b.hashed_device_id) + b4;
    let a2 = text_field(a.fxa_uid) + a3;
    let b2 = text_field(b.fxa_uid) + b3;
    let a1 = text_field(a.fxa_kid) + a2;
    let b1 = text_field(b.fxa_kid) + b2;
    assert(a.canonical_bytes() + rest_a == text_field(a.node) + a1) by {
        lemma_regroup(a, rest_a);
    }
    assert(b.canonical_bytes() + rest_b == text_field(b.node) + b1) by {
        lemma_regroup(b, rest_b);
    }
    lemma_text_field_prefix(a.node, b.node, a1, b1);
    lemma_text_field_prefix(a.fxa_kid, b.fxa_kid, a2, b2);
    lemma_text_field_prefix(a.fxa_uid, b.fxa_uid, a3, b3);
    lemma_text_field_prefix(a.hashed_device_id, b.hashed_device_id, a4, b4);
    lemma_text_field_prefix(a.hashed_fxa_uid, b.hashed_fxa_uid, a5, b5);
    lemma_be_bytes_prefix(a.expires, b.expires, a6, b6);
    lemma_be_bytes_prefix(twos_complement(a.uid), twos_complement(b.uid), rest_a, rest_b);
    lemma_twos_complement_injective(a.uid, b.uid);
}

/// What follows the canonical bytes of a plaintext can be counted to its last
/// field.
proof fn lemma_regroup(p: PlaintextFields, rest: Seq<u8>)
    ensures
        p.canonical_bytes() + rest == text_field(p.node) + (text_field(p.fxa_kid) + (text_field(
            p.fxa_uid,
        ) + (text_field(p.hashed_device_id) + (text_field(p.hashed_fxa_uid) + (be_bytes(p.expires)
            + (be_bytes(twos_complement(p.uid)) + rest)))))),
{
    lemma_concat_shift(
        text_field(p.node),
        text_field(p.fxa_kid),
        text_field(p.fxa_uid),
        text_field(p.hashed_device_id),
        text_field(p.hashed_fxa_uid),
        be_bytes(p.expires),
        be_bytes(twos_complement(p.uid)),
        rest,
    );
}

/// Joining one more byte string to seven that are joined from the right.
proof fn lemma_concat_shift(
    a: Seq<u8>,
    b: Seq<u8>,
    c: Seq<u8>,
    d: Seq<u8>,
    e: Seq<u8>,
    f: Seq<u8>,
    g: Seq<u8>,
    rest: Seq<u8>,
)
    ensures
        (a + (b + (c + (d + (e + (f + g)))))) + rest == a + (b + (c + (d + (e + (f + (g
            + rest)))))),
{
    assert((a + (b + (c + (d + (e + (f + g)))))) + rest =~= a + (b + (c + (d + (e + (f + (g
        + rest)))))));
}

/// Seven byte strings joined one after the other from the left are the same
/// as joined from the right.
proof fn lemma_concat_nested(
    a: Seq<u8>,
    b: Seq<u8>,
    c: Seq<u8>,
    d: Seq<u8>,
    e: Seq<u8>,
    f: Seq<u8>,
    g: Seq<u8>,
)
    ensures
        Seq::<u8>::empty() + a + b + c + d + e + f + g == a + (b + (c + (d + (e + (f + g))))),
{
    assert(Seq::<u8>::empty() + a + b + c + d + e + f + g =~= a + (b + (c + (d + (e + (f
        + g))))));
}

/// Appends the eight bytes of `n` to `out`, the most significant first.
pub fn push_be_bytes(out: &mut Vec<u8>, n: u64)
    ensures
        final(out)@ == old(out)@ + be_bytes(n),
{
    reveal(be_bytes);
    let q1: u64 = n / 256;
    let q2: u64 = q1 / 256;
    let q3: u64 = q2 / 256;
    let q4: u64 = q3 / 256;
    let q5: u64 = q4 / 256;
    let q6: u64 = q5 / 256;
    let q7: u64 = q6 / 256;
    out.push((q7 % 256) as u8);
    out.push((q6 % 256) as u8);
    out.push((q5 % 256) as u8);
    out.push((q4 % 256) as u8);
    out.push((q3 % 256) as u8);
    out.push((q2 % 256) as u8);
    out.push((q1 % 256) as u8);
    out.push((n % 256) as u8);
    assert(out@ =~= old(out)@ + be_bytes(n));
}

/// Appends a text field to `out`.
pub fn push_text_field(out: &mut Vec<u8>, text: &str)
    ensures
        final(out)@ == old(out)@ + text_field(text@),
        text_fits(text@),
{
    let bytes = text.as_bytes();
    push_be_bytes(out, bytes.len() as u64);
    out.extend_from_slice(bytes);
    assert(out@ =~= old(out)@ + text_field(text@));
}

/// The 64-bit pattern of `n`.
pub fn to_twos_complement(n: i64) -> (bits: u64)
    ensures
        bits == twos_complement(n),
{
    if n >= 0 {
        n as u64
    } else {
        u64::MAX - ((-(n + 1)) as u64)
    }
}

impl MakeTokenPlaintext {
    /// Lays the plaintext out as its canonical bytes.
    pub fn canonical_bytes(&self) -> (bytes: Vec<u8>)
        ensures
            bytes@ == self@.canonical_bytes(),
            self@.fits(),
    {
        let mut tail: Vec<u8> = Vec::new();
        push_text_field(&mut tail, self.node.as_str());
        push_text_field(&mut tail, self.fxa_kid.as_str());
        push_text_field(&mut tail, self.fxa_uid.as_str());
        push_text_field(&mut tail, self.hashed_device_id.as_str());
        push_text_field(&mut tail, self.hashed_fxa_uid.as_str());
        push_be_bytes(&mut tail, self.expires);
        push_be_bytes(&mut tail, to_twos_complement(self.uid));
        proof {
            lemma_concat_nested(
                text_field(self.node@),
                text_field(self.fxa_kid@),
                text_field(self.fxa_uid@),
                text_field(self.hashed_device_id@),
                text_field(self.hashed_fxa_uid@),
                be_bytes(self.expires),
                be_bytes(twos_complement(self.uid)),
            );
        }
        tail
    }
}

} // verus!

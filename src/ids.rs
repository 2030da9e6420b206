use vstd::prelude::*;
use vstd::string::StringExecFns;
use crate::error::{AppResult, ErrorResponse};

verus! {

/// Identifier of a stored record: the twelve bytes of a document identifier,
/// read as one big-endian number.
pub type RecordId = u128;

pub open spec fn is_hex_digit(c: char) -> bool {
    (48 <= c as u32 && c as u32 <= 57) || (97 <= c as u32 && c as u32 <= 102) || (65 <= c as u32
        && c as u32 <= 70)
}

pub open spec fn hex_value(c: char) -> int {
    if c as u32 <= 57 {
        c as u32 - 48
    } else if c as u32 >= 97 {
        c as u32 - 87
    } else {
        c as u32 - 55
    }
}

/// Text that spells an identifier: exactly 24 hexadecimal digits, either case.
pub open spec fn is_object_id_text(s: Seq<char>) -> bool {
    s.len() == 24 && forall|i: int| 0 <= i < 24 ==> #[trigger] is_hex_digit(s[i])
}

/// The twelve bytes that identifier text spells, two digits per byte.
pub open spec fn object_id_bytes(s: Seq<char>) -> Seq<u8> {
    Seq::new(12, |i: int| (hex_value(s[2 * i]) * 16 + hex_value(s[2 * i + 1])) as u8)
}

/// A byte sequence read as a big-endian number.
pub open spec fn bytes_value(b: Seq<u8>) -> nat
    decreases b.len(),
{
    if b.len() == 0 {
        0
    } else {
        bytes_value(b.drop_last()) * 256 + b.last() as nat
    }
}

pub open spec fn pow256(n: nat) -> nat
    decreases n,
{
    if n == 0 {
        1
    } else {
        256 * pow256((n - 1) as nat)
    }
}

proof fn lemma_bytes_value_bound(b: Seq<u8>)
    ensures
        bytes_value(b) < pow256(b.len()),
    decreases b.len(),
{
    if b.len() > 0 {
        lemma_bytes_value_bound(b.drop_last());
        let v = bytes_value(b.drop_last());
        let p = pow256(b.drop_last().len());
        assert(v * 256 + (b.last() as nat) < 256 * p) by (nonlinear_arith)
            requires
                v < p,
                b.last() < 256,
        ;
    }
}

/// The identifier that twelve bytes make.
pub fn record_id_of_bytes(b: &Vec<u8>) -> (r: RecordId)
    requires
        b@.len() == 12,
    ensures
        r == bytes_value(b@),
{
    let mut acc: u128 = 0;
    let mut i: usize = 0;
    proof {
        reveal_with_fuel(pow256, 13);
        assert(pow256(12) == 0x1_0000_0000_0000_0000_0000_0000);
    }
    while i < 12
        invariant
            b@.len() == 12,
            0 <= i <= 12,
            acc == bytes_value(b@.take(i as int)),
            acc < pow256(i as nat),
            pow256(12) == 0x1_0000_0000_0000_0000_0000_0000,
        decreases 12 - i,
    {
        proof {
            lemma_pow256_monotone(i as nat + 1, 12);
            assert(b@.take(i as int + 1).drop_last() == b@.take(i as int));
            lemma_bytes_value_bound(b@.take(i as int + 1));
        }
        acc = acc * 256 + b[i] as u128;
        i = i + 1;
    }
    assert(b@.take(12) == b@);
    acc
}

proof fn lemma_pow256_monotone(m: nat, n: nat)
    requires
        m <= n,
    ensures
        pow256(m) <= pow256(n),
    decreases n,
{
    if m < n {
        lemma_pow256_monotone(m, (n - 1) as nat);
    }
}

/// Relies on bson's `ObjectId::parse_str`: it accepts exactly 24 hexadecimal
/// digits (`hex::decode` takes both cases) and yields the twelve bytes they
/// spell; on any other text it fails, and its error's text is passed on.
#[verifier::external_body]
fn decode_object_id(s: &str) -> (r: Result<Vec<u8>, String>)
    ensures
        r is Ok <==> is_object_id_text(s@),
        r matches Ok(b) ==> b@ == object_id_bytes(s@),
{
    match mongodb::bson::oid::ObjectId::parse_str(s) {
        Ok(oid) => Ok(oid.bytes().to_vec()),
        Err(e) => Err(e.to_string()),
    }
}

/// The message of the error that rejects identifier text.
pub open spec fn invalid_id_message(context: Seq<char>) -> Seq<char> {
    "Invalid "@ + context + " ID format"@
}

/// Parses identifier text; `context` names the kind of record for the error
/// message.
pub fn parse_object_id(id: &str, context: &str) -> (r: AppResult<RecordId>)
    ensures
        r is Ok <==> is_object_id_text(id@),
        r matches Ok(v) ==> v == bytes_value(object_id_bytes(id@)),
        r matches Err(e) ==> e.code == 400 && e.message@ == invalid_id_message(context@)
            && e.details is Some,
{
    match decode_object_id(id) {
        Ok(bytes) => Ok(record_id_of_bytes(&bytes)),
        Err(text) => {
            let mut message = String::from_str("Invalid ");
            message.append(context);
            message.append(" ID format");
            Err(ErrorResponse::new(400, message.as_str(), Some(text)))
        },
    }
}

} // verus!

//! Signatures of robot messages.
use crate::encoding::{base64_text, hmac_sha256, hmac_sha256_base64, MAX_HMAC_BYTES};
use crate::text::{natural_text, natural_to_text, trim, trimmed};
use vstd::prelude::*;
use vstd::string::StringSliceAdditionalSpecFns;
use vstd::utf8::{encode_scalar, encode_utf8};

verus! {

/// The longest secret, in bytes, that can sign. No memory holds a longer one.
pub const MAX_SECRET_BYTES: u64 = 0x1FFF_FFFF_FFFF_FE00;

/// Whether a secret, trimmed, is short enough to sign.
pub open spec fn is_signable(secret: Seq<char>) -> bool {
    encode_utf8(trimmed(secret)).len() <= MAX_SECRET_BYTES
}

/// Whether a secret, trimmed, is short enough to sign.
pub fn can_sign(secret: &str) -> (result: bool)
    ensures
        result == is_signable(secret@),
{
    let bytes = trim(secret).as_bytes();
    bytes.len() as u64 <= MAX_SECRET_BYTES
}

/// A timestamp and a secret, on two lines.
pub open spec fn stamped(timestamp: nat, secret: Seq<char>) -> Seq<char> {
    natural_text(timestamp) + "\n"@ + trimmed(secret)
}

/// The signature of DingTalk: the timestamp and the secret, signed with the secret.
pub open spec fn dingtalk_signature(timestamp: nat, secret: Seq<char>) -> Seq<char> {
    base64_text(
        hmac_sha256(encode_utf8(trimmed(secret)), encode_utf8(stamped(timestamp, secret))),
    )
}

/// The signature of Feishu: nothing, signed with the timestamp and the secret.
pub open spec fn feishu_signature(timestamp: nat, secret: Seq<char>) -> Seq<char> {
    base64_text(hmac_sha256(encode_utf8(stamped(timestamp, secret)), seq![]))
}

fn stamp(timestamp: u128, secret: &str) -> (text: String)
    ensures
        text@ == stamped(timestamp as nat, secret@),
{
    let mut text = natural_to_text(timestamp);
    text.append("\n");
    text.append(trim(secret));
    text
}

/// The signature of DingTalk.
pub fn sign_for_dingtalk(timestamp: u128, secret: &str) -> (signature: String)
    requires
        is_signable(secret@),
    ensures
        signature@ == dingtalk_signature(timestamp as nat, secret@),
{
    let text = stamp(timestamp, secret);
    proof {
        lemma_stamped_len(timestamp, secret@);
    }
    hmac_sha256_base64(trim(secret).as_bytes(), text.as_str().as_bytes())
}

/// The signature of Feishu.
pub fn sign_for_feishu(timestamp: u64, secret: &str) -> (signature: String)
    requires
        is_signable(secret@),
    ensures
        signature@ == feishu_signature(timestamp as nat, secret@),
{
    let text = stamp(timestamp as u128, secret);
    let nothing: Vec<u8> = Vec::new();
    proof {
        lemma_stamped_len(timestamp as u128, secret@);
        assert(nothing@ =~= seq![]);
    }
    hmac_sha256_base64(text.as_str().as_bytes(), nothing.as_slice())
}

/// A timestamp and a secret that can sign make a text that can be signed.
proof fn lemma_stamped_len(timestamp: u128, secret: Seq<char>)
    requires
        is_signable(secret),
    ensures
        encode_utf8(stamped(timestamp as nat, secret)).len() <= MAX_HMAC_BYTES,
{
    let digits = natural_text(timestamp as nat);
    reveal_with_fuel(power_of_ten, 40);
    lemma_natural_text_len(timestamp as nat, 39);
    lemma_encoded_len(digits);
    reveal_strlit("\n");
    lemma_encoded_len("\n"@);
    lemma_encoded_concat(digits, "\n"@);
    lemma_encoded_concat(digits + "\n"@, trimmed(secret));
}

spec fn power_of_ten(n: nat) -> nat
    decreases n,
{
    if n == 0 {
        1
    } else {
        10 * power_of_ten((n - 1) as nat)
    }
}

proof fn lemma_natural_text_len(n: nat, digits: nat)
    requires
        digits > 0,
        n < power_of_ten(digits),
    ensures
        natural_text(n).len() <= digits,
    decreases digits,
{
    if n >= 10 {
        assert(digits > 1) by {
            if digits == 1 {
                assert(power_of_ten(0) == 1);
            }
        }
        assert(n / 10 < power_of_ten((digits - 1) as nat));
        lemma_natural_text_len(n / 10, (digits - 1) as nat);
    }
}

proof fn lemma_encoded_len(text: Seq<char>)
    ensures
        encode_utf8(text).len() <= 4 * text.len(),
    decreases text.len(),
{
    if text.len() > 0 {
        lemma_encoded_len(text.drop_first());
        assert(encode_scalar(text[0] as u32).len() <= 4);
    }
}

proof fn lemma_encoded_concat(a: Seq<char>, b: Seq<char>)
    ensures
        encode_utf8(a + b).len() == encode_utf8(a).len() + encode_utf8(b).len(),
    decreases a.len(),
{
    if a.len() == 0 {
        assert(a + b =~= b);
    } else {
        assert((a + b).drop_first() =~= a.drop_first() + b);
        lemma_encoded_concat(a.drop_first(), b);
    }
}

} // verus!

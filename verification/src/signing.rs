use vstd::prelude::*;
use vstd::string::StringExecFns;
use crate::contract::Contract;
use crate::models::{clone_bytes, AccountId, DropId, PublicKey};

verus! {

/// What `bs58::encode(..).into_string()` returns for the given bytes: the
/// base58 rendering with the Bitcoin alphabet, a function of the bytes
/// alone.
pub uninterp spec fn base58_of(b: Seq<u8>) -> Seq<char>;

/// What `near_sdk::env::ed25519_verify` returns for the given signature,
/// message, and verifying key: whether the signature is a valid Ed25519
/// signature of the message under the key — a function of the three
/// arguments alone.
pub uninterp spec fn ed25519_valid(sig: Seq<u8>, msg: Seq<char>, key: Seq<u8>) -> bool;

/// Relies on bs58::encode(..).into_string(): encodes the bytes with the
/// Bitcoin base58 alphabet; an empty input encodes to the empty string.
#[verifier::external_body]
fn base58_encode(b: &Vec<u8>) -> (r: String)
    ensures
        r@ == base58_of(b@),
        b@.len() == 0 ==> r@.len() == 0,
{
    bs58::encode(b.as_slice()).into_string()
}

/// Relies on near_sdk::env::ed25519_verify (with its native ed25519-dalek
/// backend): checks the 64-byte signature over the message's UTF-8 bytes
/// against the 32-byte verifying key.
#[verifier::external_body]
fn ed25519_verify_str(signature: &[u8; 64], message: &str, public_key: &[u8; 32]) -> (r: bool)
    ensures
        r == ed25519_valid(signature@, message@, public_key@),
{
    near_sdk::env::ed25519_verify(signature, message.as_bytes(), public_key)
}

/// The message a claim signature signs: `{account},{base58(key bytes)}`,
/// where the key bytes are the verifying key without its curve-type byte.
pub open spec fn claim_message(account: Seq<char>, key: Seq<u8>) -> Seq<char> {
    account + seq![','] + base58_of(key.skip(1))
}

/// A copy of the byte vector without its first byte.
fn strip_curve_byte(v: &Vec<u8>) -> (r: Vec<u8>)
    requires
        v@.len() >= 1,
    ensures
        r@ == v@.skip(1),
{
    let n = v.len();
    let mut r: Vec<u8> = Vec::new();
    let mut i: usize = 1;
    while i < n
        invariant
            n == v@.len(),
            1 <= i <= n,
            r@ =~= v@.subrange(1, i as int),
        decreases n - i,
    {
        r.push(v[i]);
        proof {
            assert(r@ =~= v@.subrange(1, i + 1));
        }
        i = i + 1;
    }
    proof {
        assert(v@.subrange(1, n as int) =~= v@.skip(1));
    }
    r
}

/// The vector's bytes as a 64-byte array, when it holds exactly 64 bytes.
pub fn vec_to_64_byte_array(vec: Vec<u8>) -> (r: Option<[u8; 64]>)
    ensures
        match r {
            Some(a) => vec@.len() == 64 && a@ == vec@,
            None => vec@.len() != 64,
        },
{
    if vec.len() != 64 {
        return None;
    }
    let mut a: [u8; 64] = [0u8; 64];
    let mut i: usize = 0;
    while i < 64
        invariant
            vec@.len() == 64,
            i <= 64,
            forall|j: int| 0 <= j < i ==> a@[j] == vec@[j],
        decreases 64 - i,
    {
        a[i] = vec[i];
        i = i + 1;
    }
    proof {
        assert(a@ =~= vec@);
    }
    Some(a)
}

/// The vector's bytes as a 32-byte array, when it holds exactly 32 bytes.
fn vec_to_32_byte_array(vec: &Vec<u8>) -> (r: Option<[u8; 32]>)
    ensures
        match r {
            Some(a) => vec@.len() == 32 && a@ == vec@,
            None => vec@.len() != 32,
        },
{
    if vec.len() != 32 {
        return None;
    }
    let mut a: [u8; 32] = [0u8; 32];
    let mut i: usize = 0;
    while i < 32
        invariant
            vec@.len() == 32,
            i <= 32,
            forall|j: int| 0 <= j < i ==> a@[j] == vec@[j],
        decreases 32 - i,
    {
        a[i] = vec[i];
        i = i + 1;
    }
    proof {
        assert(a@ =~= vec@);
    }
    Some(a)
}

/// Builds the message a claim signature must sign for `caller_id` under
/// `expected_key` (a curve byte followed by the 32 key bytes).
pub fn signature_message(caller_id: &AccountId, expected_key: &PublicKey) -> (r: String)
    requires
        expected_key@.len() >= 1,
    ensures
        r@ == claim_message(caller_id@, expected_key@),
{
    let stripped = strip_curve_byte(expected_key);
    let b58 = base58_encode(&stripped);
    let mut msg = caller_id.clone();
    proof {
        reveal_strlit(",");
    }
    msg.append(",");
    msg.append(b58.as_str());
    proof {
        assert(","@ =~= seq![',']);
        assert(caller_id@ + seq![','] + base58_of(expected_key@.skip(1)) =~= msg@);
    }
    msg
}

/// Whether `signature` authenticates `caller_id` against `expected_key`:
/// an Ed25519 check of the canonical claim message. The key carries a curve
/// byte and 32 key bytes; the signature must be 64 bytes long.
pub fn verify_signature(
    signature: &Vec<u8>,
    caller_id: &AccountId,
    expected_key: &PublicKey,
) -> (r: bool)
    requires
        expected_key@.len() == 33,
        signature@.len() == 64,
    ensures
        r == ed25519_valid(
            signature@,
            claim_message(caller_id@, expected_key@),
            expected_key@.skip(1),
        ),
{
    let stripped = strip_curve_byte(expected_key);
    let key_arr = match vec_to_32_byte_array(&stripped) {
        Some(a) => a,
        None => {
            return vstd::pervasive::unreached();
        },
    };
    let msg = signature_message(caller_id, expected_key);
    let sig_arr = match vec_to_64_byte_array(clone_bytes(signature)) {
        Some(a) => a,
        None => {
            return vstd::pervasive::unreached();
        },
    };
    ed25519_verify_str(&sig_arr, msg.as_str(), &key_arr)
}

impl Contract {
    /// The key a claim signature for `drop_id` must authenticate against:
    /// the supplied scavenger piece's key when one is given, the drop's own
    /// claim key otherwise. `None` when the drop is not registered.
    pub fn expected_claim_key(&self, drop_id: &DropId, scavenger_id: Option<&PublicKey>) -> (r:
        Option<PublicKey>)
        requires
            self.wf(),
        ensures
            match r {
                Some(k) => self.spec_has_drop(drop_id@) && k@ == (match scavenger_id {
                    Some(p) => p@,
                    None => self.spec_drop(drop_id@)@.key_of(),
                }),
                None => !self.spec_has_drop(drop_id@),
            },
    {
        let di = match self.drop_by_id.find(drop_id) {
            Some(i) => i,
            None => {
                return None;
            },
        };
        proof {
            crate::kv::lemma_key_at(self.drop_by_id.entries@, drop_id@, di as int);
        }
        match scavenger_id {
            Some(p) => Some(clone_bytes(p)),
            None => Some(clone_bytes(self.drop_by_id.at(di).1.key_ref())),
        }
    }
}

} // verus!

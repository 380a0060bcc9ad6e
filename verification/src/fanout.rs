use vstd::prelude::*;
use crate::envelope::{signature_of_text, text_bytes, EnvelopeView, SignedEnvelope};
use crate::error::Error;

verus! {

/// Where the check of a signature against a list of candidate keys stands.
///
/// The keys are tried in order, and the first one that validates the
/// signature settles the matter.
#[derive(Clone, Copy, Debug, PartialEq, Eq, Structural)]
pub enum FanOut {
    /// The key at index `key`, of `keys` keys, is to be tried next.
    Checking { key: usize, keys: usize },
    /// A key validated the signature.
    Verified,
    /// No key validated the signature.
    Rejected,
}

/// The state before any key was tried.
pub open spec fn started(keys: nat) -> FanOut {
    if keys == 0 {
        FanOut::Rejected
    } else {
        FanOut::Checking { key: 0, keys: keys as usize }
    }
}

/// The state that follows `state` once the key it asked for was tried and
/// `valid` says whether it validated the signature.
pub open spec fn stepped(state: FanOut, valid: bool) -> FanOut {
    match state {
        FanOut::Checking { key, keys } => {
            if valid {
                FanOut::Verified
            } else if key + 1 < keys {
                FanOut::Checking { key: (key + 1) as usize, keys }
            } else {
                FanOut::Rejected
            }
        },
        done => done,
    }
}

/// The state after the first `tried` keys were tried one after the other,
/// where `outcomes[i]` says whether key `i` validates the signature.
pub open spec fn state_after(outcomes: Seq<bool>, tried: nat) -> FanOut
    decreases tried,
{
    if tried == 0 {
        started(outcomes.len())
    } else {
        match state_after(outcomes, (tried - 1) as nat) {
            FanOut::Checking { key, keys } => stepped(
                FanOut::Checking { key, keys },
                0 <= key < outcomes.len() && outcomes[key as int],
            ),
            done => done,
        }
    }
}

/// Whether some key validates the signature.
pub open spec fn any_valid(outcomes: Seq<bool>) -> bool {
    exists|i: int| 0 <= i < outcomes.len() && outcomes[i]
}

impl FanOut {
    /// Starts the check against `keys` candidate keys. Without a key the
    /// signature is rejected at once.
    pub fn start(keys: usize) -> (state: FanOut)
        ensures
            state == started(keys as nat),
    {
        if keys == 0 {
            FanOut::Rejected
        } else {
            FanOut::Checking { key: 0, keys }
        }
    }

    /// Takes in whether the key that was asked for validated the signature.
    /// A settled state stays as it is.
    pub fn step(self, valid: bool) -> (next: FanOut)
        ensures
            next == stepped(self, valid),
    {
        match self {
            FanOut::Checking { key, keys } => {
                if valid {
                    FanOut::Verified
                } else if keys > 0 && key < keys - 1 {
                    FanOut::Checking { key: key + 1, keys }
                } else {
                    FanOut::Rejected
                }
            },
            FanOut::Verified => FanOut::Verified,
            FanOut::Rejected => FanOut::Rejected,
        }
    }

    /// The index of the key to try next, if the matter is not settled.
    pub fn pending(&self) -> (key: Option<usize>)
        ensures
            key == match *self {
                FanOut::Checking { key, keys } => Some(key),
                _ => None::<usize>,
            },
    {
        match self {
            FanOut::Checking { key, keys } => Some(*key),
            _ => None,
        }
    }

    /// Whether the signature is valid, once that is settled.
    pub fn verdict(&self) -> (valid: Option<bool>)
        ensures
            valid == match *self {
                FanOut::Checking { key, keys } => None::<bool>,
                FanOut::Verified => Some(true),
                FanOut::Rejected => Some(false),
            },
    {
        match self {
            FanOut::Checking { .. } => None,
            FanOut::Verified => Some(true),
            FanOut::Rejected => Some(false),
        }
    }
}

/// Whether `message` holds the bytes of the envelope's message, and
/// `signature` the bytes that its signature field stands for.
pub open spec fn handed_over(envelope: EnvelopeView, message: &[u8], signature: &[u8]) -> bool {
    message@ == text_bytes(envelope.message) && signature_of_text(envelope.signature) == Some(
        signature@,
    )
}

/// Whether `check` found each of the first `count` keys not to validate
/// `signature` over `message`.
pub open spec fn tried_in_vain<F: Fn(usize, &[u8], &[u8]) -> bool>(
    check: F,
    count: usize,
    message: &[u8],
    signature: &[u8],
) -> bool {
    forall|i: usize| i < count ==> call_ensures(check, (i, message, signature), false)
}

/// Whether `valid` is the verdict over `keys` keys: the first key that
/// `check` found to validate `signature` over `message` came after keys that
/// it found not to; or it found that none does.
pub open spec fn settled<F: Fn(usize, &[u8], &[u8]) -> bool>(
    check: F,
    keys: usize,
    message: &[u8],
    signature: &[u8],
    valid: bool,
) -> bool {
    if valid {
        exists|first: usize|
            first < keys && tried_in_vain(check, first, message, signature) && call_ensures(
                check,
                (first, message, signature),
                true,
            )
    } else {
        tried_in_vain(check, keys, message, signature)
    }
}

/// What a verifier needs before it tries the first key.
#[derive(Debug)]
pub struct Verification {
    /// The 64 bytes of the signature.
    pub signature: Vec<u8>,
    /// The check, before any key was tried.
    pub state: FanOut,
}

/// Prepares the check of an envelope against `keys` candidate keys: decodes
/// the signature and starts the fan-out. A signature field that is not base64
/// or not 64 bytes long is an `InvalidSignatureEncoding`, whatever the keys.
pub fn begin_verification(envelope: &SignedEnvelope, keys: usize) -> (r: Result<Verification, Error>)
    ensures
        match r {
            Ok(v) => signature_of_text(envelope.signature@) == Some(v.signature@) && v.state
                == started(keys as nat),
            Err(e) => e == Error::InvalidSignatureEncoding && !envelope.wf(),
        },
{
    match envelope.signature_bytes() {
        Ok(signature) => Ok(Verification { signature, state: FanOut::start(keys) }),
        Err(e) => Err(e),
    }
}

/// Checks the signature of an envelope against `keys` candidate keys.
///
/// `check(i, message, signature)` says whether key `i` validates `signature`
/// over `message`; it is handed the bytes of the envelope's message and the
/// 64 bytes of its signature. The keys are tried in order up to the first
/// that validates. The result is `true` if one does and `false` if none
/// does; without any key it is `false`. A signature field that is not base64
/// or not 64 bytes long is an `InvalidSignatureEncoding`, and then no key is
/// tried.
pub fn verify<F: Fn(usize, &[u8], &[u8]) -> bool>(
    envelope: &SignedEnvelope,
    keys: usize,
    check: F,
) -> (r: Result<bool, Error>)
    requires
        forall|i: usize, message: &[u8], signature: &[u8]|
            i < keys ==> call_requires(check, (i, message, signature)),
    ensures
        r is Ok <==> envelope.wf(),
        r matches Err(e) ==> e == Error::InvalidSignatureEncoding,
        r matches Ok(valid) ==> exists|message: &[u8], signature: &[u8]|
            #[trigger] handed_over(envelope@, message, signature) && settled(
                check,
                keys,
                message,
                signature,
                valid,
            ),
{
    let Verification { signature: decoded, state } = match begin_verification(envelope, keys) {
        Ok(v) => v,
        Err(e) => { return Err(e); },
    };
    let text = envelope.message.as_str().as_bytes();
    let sig = decoded.as_slice();
    let mut state = state;
    loop
        invariant
            text@ == text_bytes(envelope.message@),
            signature_of_text(envelope.signature@) == Some(sig@),
            forall|i: usize, m: &[u8], s: &[u8]| i < keys ==> call_requires(check, (i, m, s)),
            match state {
                FanOut::Checking { key, keys: total } => total == keys && key < keys
                    && tried_in_vain(check, key, text, sig),
                FanOut::Verified => settled(check, keys, text, sig, true),
                FanOut::Rejected => settled(check, keys, text, sig, false),
            },
        ensures
            text@ == text_bytes(envelope.message@),
            signature_of_text(envelope.signature@) == Some(sig@),
            match state {
                FanOut::Checking { key, keys: total } => false,
                FanOut::Verified => settled(check, keys, text, sig, true),
                FanOut::Rejected => settled(check, keys, text, sig, false),
            },
        decreases
            match state {
                FanOut::Checking { key, keys: total } => total - key,
                _ => 0,
            },
    {
        match state.pending() {
            Some(key) => {
                let valid = check(key, text, sig);
                state = state.step(valid);
            },
            None => {
                break;
            },
        }
    }
    let valid = state.verdict() == Some(true);
    assert(handed_over(envelope@, text, sig));
    Ok(valid)
}

/// The verdict over the outcomes of all keys, where `outcomes[i]` says
/// whether key `i` validates the signature: whether any key does. It is the
/// verdict that trying the keys one after the other ends with.
pub fn verdict_of(outcomes: &Vec<bool>) -> (valid: bool)
    ensures
        valid == any_valid(outcomes@),
        state_after(outcomes@, outcomes@.len()) == if valid {
            FanOut::Verified
        } else {
            FanOut::Rejected
        },
{
    let mut state = FanOut::start(outcomes.len());
    let mut tried: usize = 0;
    loop
        invariant
            tried <= outcomes@.len(),
            state == state_after(outcomes@, tried as nat),
            state matches FanOut::Checking { key, keys } ==> key == tried && keys == outcomes@.len(),
            state == FanOut::Verified ==> any_valid(outcomes@),
            state != FanOut::Verified ==> forall|i: int| 0 <= i < tried ==> !outcomes@[i],
            state == FanOut::Rejected ==> tried == outcomes@.len(),
        ensures
            state == state_after(outcomes@, outcomes@.len()),
            state == FanOut::Verified || state == FanOut::Rejected,
            state == FanOut::Verified <==> any_valid(outcomes@),
        decreases outcomes@.len() - tried,
    {
        match state.pending() {
            Some(key) => {
                state = state.step(outcomes[key]);
                tried = tried + 1;
            },
            None => {
                proof {
                    lemma_settled_stays(outcomes@, tried as nat, outcomes@.len());
                }
                break;
            },
        }
    }
    state == FanOut::Verified
}

/// Once the check is settled, trying further keys changes nothing.
pub proof fn lemma_settled_stays(outcomes: Seq<bool>, tried: nat, later: nat)
    requires
        tried <= later,
        state_after(outcomes, tried) == FanOut::Verified || state_after(outcomes, tried)
            == FanOut::Rejected,
    ensures
        state_after(outcomes, later) == state_after(outcomes, tried),
    decreases later - tried,
{
    if tried < later {
        lemma_settled_stays(outcomes, tried, (later - 1) as nat);
    }
}

/// While no key has validated the signature, the keys are tried in order.
pub proof fn lemma_state_while_invalid(outcomes: Seq<bool>, tried: nat)
    requires
        tried <= outcomes.len() <= usize::MAX,
        forall|i: int| 0 <= i < tried ==> !outcomes[i],
    ensures
        state_after(outcomes, tried) == if tried < outcomes.len() {
            FanOut::Checking { key: tried as usize, keys: outcomes.len() as usize }
        } else {
            FanOut::Rejected
        },
    decreases tried,
{
    if tried > 0 {
        lemma_state_while_invalid(outcomes, (tried - 1) as nat);
    }
}

/// Fan-out: trying the keys one after the other ends in `Verified` exactly
/// when at least one key validates the signature, and in `Rejected`
/// otherwise. The first such key settles it: no key behind it is tried.
pub proof fn lemma_fan_out(outcomes: Seq<bool>)
    requires
        outcomes.len() <= usize::MAX,
    ensures
        state_after(outcomes, outcomes.len()) == if any_valid(outcomes) {
            FanOut::Verified
        } else {
            FanOut::Rejected
        },
        forall|first: int|
            0 <= first < outcomes.len() && outcomes[first] && (forall|i: int|
                0 <= i < first ==> !outcomes[i]) ==> #[trigger] state_after(
                outcomes,
                (first + 1) as nat,
            ) == FanOut::Verified && state_after(outcomes, first as nat) == (FanOut::Checking {
                key: first as usize,
                keys: outcomes.len() as usize,
            }),
{
    assert forall|first: int|
        0 <= first < outcomes.len() && outcomes[first] && (forall|i: int|
            0 <= i < first ==> !outcomes[i]) implies #[trigger] state_after(
        outcomes,
        (first + 1) as nat,
    ) == FanOut::Verified && state_after(outcomes, first as nat) == (FanOut::Checking {
        key: first as usize,
        keys: outcomes.len() as usize,
    }) by {
        lemma_state_while_invalid(outcomes, first as nat);
    }
    if any_valid(outcomes) {
        let first = first_valid(outcomes, 0);
        lemma_first_valid(outcomes, 0);
        lemma_state_while_invalid(outcomes, first as nat);
        lemma_settled_stays(outcomes, (first + 1) as nat, outcomes.len());
    } else {
        lemma_state_while_invalid(outcomes, outcomes.len());
    }
}

/// The index of the first key from `from` on that validates the signature
/// (the number of keys where there is none).
pub open spec fn first_valid(outcomes: Seq<bool>, from: int) -> int
    decreases outcomes.len() - from,
{
    if 0 <= from < outcomes.len() && !outcomes[from] {
        first_valid(outcomes, from + 1)
    } else {
        from
    }
}

/// The first valid key lies at or behind `from`, and no key between them is
/// valid.
pub proof fn lemma_first_valid(outcomes: Seq<bool>, from: int)
    requires
        0 <= from <= outcomes.len(),
    ensures
        from <= first_valid(outcomes, from) <= outcomes.len(),
        forall|i: int| from <= i < first_valid(outcomes, from) ==> !outcomes[i],
        first_valid(outcomes, from) < outcomes.len() ==> outcomes[first_valid(outcomes, from)],
    decreases outcomes.len() - from,
{
    if from < outcomes.len() && !outcomes[from] {
        lemma_first_valid(outcomes, from + 1);
    }
}

} // verus!

//! Validation of journalist keys that arrive from outside.
//!
//! A submission carries four texts: the journalist's signing key and
//! encrypting key, and the intermediate's signature over each, all in base64.
//! Every field is decoded and measured first. Only a submission whose four
//! fields decode to the right lengths is checked against the intermediate
//! key. The caller of the endpoint learns no more than accepted or rejected;
//! the reason for a rejection stays inside, in the error.

use vstd::prelude::*;
use crate::crypto::{base64_decode, base64_decoding, ed25519_verifying_key, KEY_LENGTH, SIGNATURE_LENGTH};
use crate::error::{ErrorKind, PkiError};
use crate::keys::{PublicJournalist, PublicJournalistView};
use crate::pki::{intermediate_check, stored_intermediate, verify_intermediate_signature};
use crate::signing::{verdict, verify};
use crate::store::{KeyId, KeyStore};

verus! {

/// A field of a key submission.
#[derive(Clone, Copy, Debug, PartialEq, Eq, Structural)]
pub enum SubmissionField {
    /// The journalist's signing public key.
    JournalistKey,
    /// The intermediate's signature over the signing public key.
    JournalistSig,
    /// The journalist's encrypting public key.
    JournalistFetchingKey,
    /// The intermediate's signature over the encrypting public key.
    JournalistFetchingSig,
}

/// A key submission as it arrives: four base64 texts.
pub struct AddJournalistRequest {
    pub journalist_key: String,
    pub journalist_sig: String,
    pub journalist_fetching_key: String,
    pub journalist_fetching_sig: String,
}

/// The four texts of a submission.
pub struct AddJournalistRequestView {
    pub journalist_key: Seq<char>,
    pub journalist_sig: Seq<char>,
    pub journalist_fetching_key: Seq<char>,
    pub journalist_fetching_sig: Seq<char>,
}

impl View for AddJournalistRequest {
    type V = AddJournalistRequestView;

    open spec fn view(&self) -> AddJournalistRequestView {
        AddJournalistRequestView {
            journalist_key: self.journalist_key@,
            journalist_sig: self.journalist_sig@,
            journalist_fetching_key: self.journalist_fetching_key@,
            journalist_fetching_sig: self.journalist_fetching_sig@,
        }
    }
}

/// What the endpoint answers.
pub struct StatusResponse {
    pub status: &'static str,
}

/// The text of the answer: `OK` for an accepted submission, `KO` for a
/// rejected one.
pub open spec fn status_text(accepted: bool) -> Seq<char> {
    if accepted {
        "OK"@
    } else {
        "KO"@
    }
}

/// The bytes that a decoder handed over, if it handed over any.
pub open spec fn decoded_bytes(decoded: Option<Vec<u8>>) -> Option<Seq<u8>> {
    match decoded {
        Some(bytes) => Some(bytes@),
        None => None,
    }
}

/// What a decoded field is worth: its bytes where it decoded to exactly
/// `length` bytes.
pub open spec fn field_outcome(field: SubmissionField, length: nat, decoded: Option<Seq<u8>>) -> Result<
    Seq<u8>,
    PkiError,
> {
    match decoded {
        None => Err(PkiError::InvalidEncoding(field)),
        Some(bytes) => if bytes.len() == length {
            Ok(bytes)
        } else {
            Err(PkiError::InvalidLength(field))
        },
    }
}

/// The journalist that four decoded fields make up, or the failure of the
/// first field, in the order of the submission, that is not well formed.
pub open spec fn assembled(
    key: Option<Seq<u8>>,
    sig: Option<Seq<u8>>,
    fetching_key: Option<Seq<u8>>,
    fetching_sig: Option<Seq<u8>>,
) -> Result<PublicJournalistView, PkiError> {
    match field_outcome(SubmissionField::JournalistKey, KEY_LENGTH as nat, key) {
        Err(error) => Err(error),
        Ok(signing_key) => match field_outcome(
            SubmissionField::JournalistSig,
            SIGNATURE_LENGTH as nat,
            sig,
        ) {
            Err(error) => Err(error),
            Ok(signing_signature) => match field_outcome(
                SubmissionField::JournalistFetchingKey,
                KEY_LENGTH as nat,
                fetching_key,
            ) {
                Err(error) => Err(error),
                Ok(encrypting_key) => match field_outcome(
                    SubmissionField::JournalistFetchingSig,
                    SIGNATURE_LENGTH as nat,
                    fetching_sig,
                ) {
                    Err(error) => Err(error),
                    Ok(encrypting_signature) => Ok(
                        PublicJournalistView {
                            signing_key,
                            signing_signature,
                            encrypting_key,
                            encrypting_signature,
                        },
                    ),
                },
            },
        },
    }
}

/// The journalist that a submission decodes to.
pub open spec fn decoded_submission(request: AddJournalistRequestView) -> Result<
    PublicJournalistView,
    PkiError,
> {
    assembled(
        base64_decoding(request.journalist_key),
        base64_decoding(request.journalist_sig),
        base64_decoding(request.journalist_fetching_key),
        base64_decoding(request.journalist_fetching_sig),
    )
}

/// What a submission comes to against a key store: it is decoded first; then
/// its two signatures are checked, one after the other, against the
/// intermediate key that the store holds.
pub open spec fn submission_outcome(store: Map<KeyId, Seq<u8>>, request: AddJournalistRequestView) -> Result<
    PublicJournalistView,
    PkiError,
> {
    match decoded_submission(request) {
        Err(error) => Err(error),
        Ok(journalist) => match intermediate_check(
            store,
            journalist.signing_key,
            journalist.signing_signature,
        ) {
            Err(error) => Err(error),
            Ok(_) => match intermediate_check(
                store,
                journalist.encrypting_key,
                journalist.encrypting_signature,
            ) {
                Err(error) => Err(error),
                Ok(_) => Ok(journalist),
            },
        },
    }
}

/// Takes a decoded key field: exactly 32 bytes, or a failure that names the
/// field.
pub fn key_from_decoded(field: SubmissionField, decoded: Option<Vec<u8>>) -> (outcome: Result<
    [u8; 32],
    PkiError,
>)
    ensures
        match outcome {
            Ok(key) => field_outcome(field, KEY_LENGTH as nat, decoded_bytes(decoded)) == Ok::<
                Seq<u8>,
                PkiError,
            >(key@),
            Err(error) => field_outcome(field, KEY_LENGTH as nat, decoded_bytes(decoded)) == Err::<
                Seq<u8>,
                PkiError,
            >(error),
        },
{
    let bytes = match decoded {
        Some(bytes) => bytes,
        None => {
            return Err(PkiError::InvalidEncoding(field));
        },
    };
    if bytes.len() != KEY_LENGTH {
        return Err(PkiError::InvalidLength(field));
    }
    let mut key = [0u8; 32];
    let mut i: usize = 0;
    while i < KEY_LENGTH
        invariant
            i <= KEY_LENGTH,
            bytes@.len() == KEY_LENGTH,
            forall|j: int| 0 <= j < i ==> key@[j] == bytes@[j],
        decreases KEY_LENGTH - i,
    {
        key[i] = bytes[i];
        i += 1;
    }
    assert(key@ =~= bytes@);
    Ok(key)
}

/// Takes a decoded signature field: exactly 64 bytes, or a failure that
/// names the field.
pub fn signature_from_decoded(field: SubmissionField, decoded: Option<Vec<u8>>) -> (outcome: Result<
    Vec<u8>,
    PkiError,
>)
    ensures
        match outcome {
            Ok(signature) => field_outcome(
                field,
                SIGNATURE_LENGTH as nat,
                decoded_bytes(decoded),
            ) == Ok::<Seq<u8>, PkiError>(signature@),
            Err(error) => field_outcome(field, SIGNATURE_LENGTH as nat, decoded_bytes(decoded))
                == Err::<Seq<u8>, PkiError>(error),
        },
{
    match decoded {
        None => Err(PkiError::InvalidEncoding(field)),
        Some(bytes) => if bytes.len() == SIGNATURE_LENGTH {
            Ok(bytes)
        } else {
            Err(PkiError::InvalidLength(field))
        },
    }
}

/// Puts four decoded fields together. The first field, in the order of the
/// submission, that did not decode or has the wrong length decides the
/// failure.
pub fn assemble_submission(
    key: Option<Vec<u8>>,
    sig: Option<Vec<u8>>,
    fetching_key: Option<Vec<u8>>,
    fetching_sig: Option<Vec<u8>>,
) -> (outcome: Result<PublicJournalist, PkiError>)
    ensures
        match outcome {
            Ok(journalist) => assembled(
                decoded_bytes(key),
                decoded_bytes(sig),
                decoded_bytes(fetching_key),
                decoded_bytes(fetching_sig),
            ) == Ok::<PublicJournalistView, PkiError>(journalist@),
            Err(error) => assembled(
                decoded_bytes(key),
                decoded_bytes(sig),
                decoded_bytes(fetching_key),
                decoded_bytes(fetching_sig),
            ) == Err::<PublicJournalistView, PkiError>(error),
        },
        outcome matches Ok(journalist) ==> journalist@.well_formed(),
        outcome matches Err(error) ==> error.kind_spec() == ErrorKind::Decode,
{
    let signing_key = match key_from_decoded(SubmissionField::JournalistKey, key) {
        Ok(bytes) => bytes,
        Err(error) => {
            return Err(error);
        },
    };
    let signing_signature = match signature_from_decoded(SubmissionField::JournalistSig, sig) {
        Ok(bytes) => bytes,
        Err(error) => {
            return Err(error);
        },
    };
    let encrypting_key = match key_from_decoded(
        SubmissionField::JournalistFetchingKey,
        fetching_key,
    ) {
        Ok(bytes) => bytes,
        Err(error) => {
            return Err(error);
        },
    };
    let encrypting_signature = match signature_from_decoded(
        SubmissionField::JournalistFetchingSig,
        fetching_sig,
    ) {
        Ok(bytes) => bytes,
        Err(error) => {
            return Err(error);
        },
    };
    Ok(PublicJournalist { signing_key, signing_signature, encrypting_key, encrypting_signature })
}

/// Decodes one base64 text.
fn decode_field(text: &str) -> (decoded: Option<Vec<u8>>)
    ensures
        decoded_bytes(decoded) == base64_decoding(text@),
{
    match base64_decode(text) {
        Ok(bytes) => Some(bytes),
        Err(_) => None,
    }
}

/// Decodes a submission. No key is at hand here and no signature is checked:
/// whether a submission decodes depends on its four texts alone.
pub fn decode_submission(request: &AddJournalistRequest) -> (outcome: Result<
    PublicJournalist,
    PkiError,
>)
    ensures
        match outcome {
            Ok(journalist) => decoded_submission(request@) == Ok::<PublicJournalistView, PkiError>(
                journalist@,
            ),
            Err(error) => decoded_submission(request@) == Err::<PublicJournalistView, PkiError>(
                error,
            ),
        },
        outcome matches Ok(journalist) ==> journalist@.well_formed(),
        outcome matches Err(error) ==> error.kind_spec() == ErrorKind::Decode,
{
    let key = decode_field(request.journalist_key.as_str());
    let sig = decode_field(request.journalist_sig.as_str());
    let fetching_key = decode_field(request.journalist_fetching_key.as_str());
    let fetching_sig = decode_field(request.journalist_fetching_sig.as_str());
    assemble_submission(key, sig, fetching_key, fetching_sig)
}

/// Checks both signatures of a decoded submission against a given
/// intermediate verifying key, each over exactly the key it belongs to.
pub fn validate_journalist(intermediate_key: &[u8; 32], journalist: &PublicJournalist) -> (outcome:
    Result<(), PkiError>)
    ensures
        outcome == verdict(journalist@.attested_by(intermediate_key@)),
{
    match verify(intermediate_key, &journalist.signing_key, journalist.signing_signature.as_slice()) {
        Ok(_) => verify(
            intermediate_key,
            &journalist.encrypting_key,
            journalist.encrypting_signature.as_slice(),
        ),
        Err(error) => Err(error),
    }
}

/// Validates a submission against the intermediate key that `store` holds
/// and hands back the journalist that it decodes to, for whoever keeps the
/// accepted journalists.
///
/// Nothing of a rejected submission is kept, and a rejected submission is
/// not tried again.
pub fn add_journalist(store: &KeyStore, request: AddJournalistRequest) -> (outcome: Result<
    PublicJournalist,
    PkiError,
>)
    ensures
        match outcome {
            Ok(journalist) => submission_outcome(store@, request@) == Ok::<
                PublicJournalistView,
                PkiError,
            >(journalist@),
            Err(error) => submission_outcome(store@, request@) == Err::<
                PublicJournalistView,
                PkiError,
            >(error),
        },
{
    let journalist = match decode_submission(&request) {
        Ok(journalist) => journalist,
        Err(error) => {
            return Err(error);
        },
    };
    match verify_intermediate_signature(
        store,
        &journalist.signing_key,
        journalist.signing_signature.as_slice(),
    ) {
        Ok(_) => {},
        Err(error) => {
            return Err(error);
        },
    }
    match verify_intermediate_signature(
        store,
        &journalist.encrypting_key,
        journalist.encrypting_signature.as_slice(),
    ) {
        Ok(_) => {},
        Err(error) => {
            return Err(error);
        },
    }
    Ok(journalist)
}

/// The answer to a submission that came to `outcome`: one text for every
/// acceptance and one for every rejection, whatever the reason.
pub fn response_for(outcome: &Result<PublicJournalist, PkiError>) -> (response: StatusResponse)
    ensures
        response.status@ == status_text(outcome is Ok),
{
    match outcome {
        Ok(_) => StatusResponse { status: "OK" },
        Err(_) => StatusResponse { status: "KO" },
    }
}

/// The endpoint for submissions: validates `request` against `store` and
/// answers.
pub fn post_journalists(store: &KeyStore, request: AddJournalistRequest) -> (response: StatusResponse)
    ensures
        response.status@ == status_text(submission_outcome(store@, request@) is Ok),
{
    let outcome = add_journalist(store, request);
    response_for(&outcome)
}

/// The liveness probe: always `OK`.
pub fn index() -> (response: StatusResponse)
    ensures
        response.status@ == status_text(true),
{
    StatusResponse { status: "OK" }
}

/// The two answers differ.
pub proof fn lemma_answers_differ()
    ensures
        status_text(true) != status_text(false),
{
    reveal_strlit("OK");
    reveal_strlit("KO");
    assert("OK"@[0] == 'O');
    assert("KO"@[0] == 'K');
}

/// A submission is accepted exactly where its four fields decode to the
/// right lengths, the store holds a readable intermediate record, and both
/// signatures validate under the verifying key of the stored intermediate
/// secret.
pub proof fn lemma_accepted_iff_attested(store: Map<KeyId, Seq<u8>>, request: AddJournalistRequestView)
    ensures
        submission_outcome(store, request) is Ok <==> {
            &&& decoded_submission(request) matches Ok(journalist)
            &&& stored_intermediate(store) matches Ok(intermediate)
            &&& journalist.attested_by(ed25519_verifying_key(intermediate.secret))
        },
        submission_outcome(store, request) matches Ok(journalist) ==> decoded_submission(request)
            == Ok::<PublicJournalistView, PkiError>(journalist),
{
}

/// A submission with a signature that does not validate under the stored
/// intermediate key is rejected as such.
pub proof fn lemma_unattested_rejected(store: Map<KeyId, Seq<u8>>, request: AddJournalistRequestView)
    requires
        decoded_submission(request) matches Ok(journalist) && stored_intermediate(store) matches Ok(
            intermediate,
        ) && !journalist.attested_by(ed25519_verifying_key(intermediate.secret)),
    ensures
        submission_outcome(store, request) == Err::<PublicJournalistView, PkiError>(
            PkiError::SignatureInvalid,
        ),
        status_text(submission_outcome(store, request) is Ok) == "KO"@,
{
}

/// A submission that does not decode is rejected for that, whatever the
/// store holds: no key and no signature has a part in its rejection.
pub proof fn lemma_malformed_rejected_before_any_check(
    store: Map<KeyId, Seq<u8>>,
    other: Map<KeyId, Seq<u8>>,
    request: AddJournalistRequestView,
)
    requires
        decoded_submission(request) is Err,
    ensures
        submission_outcome(store, request) == Err::<PublicJournalistView, PkiError>(
            decoded_submission(request)->Err_0,
        ),
        submission_outcome(store, request) == submission_outcome(other, request),
        submission_outcome(store, request)->Err_0.kind_spec() == ErrorKind::Decode,
{
}

/// A submission that decodes to the public keys and signatures of a
/// journalist whom the stored intermediate attests is accepted, and the
/// answer is `OK`.
pub proof fn lemma_attested_accepted(store: Map<KeyId, Seq<u8>>, request: AddJournalistRequestView)
    requires
        decoded_submission(request) matches Ok(journalist) && stored_intermediate(store) matches Ok(
            intermediate,
        ) && journalist.attested_by(ed25519_verifying_key(intermediate.secret)),
    ensures
        submission_outcome(store, request) == decoded_submission(request),
        status_text(submission_outcome(store, request) is Ok) == "OK"@,
{
}

} // verus!

//! Bootstrapping a key store: one root, one intermediate, and the
//! journalists, generated strictly one after the other, since each step signs
//! with the secret of the step before.

use vstd::prelude::*;
use crate::crypto::{ed25519_verifying_key, fresh_encrypting_secret, fresh_signing_secret};
use crate::error::PkiError;
use crate::keys::SignedKeyMaterial;
use crate::pki::{
    intermediate_check, journalist_from_secrets, journalist_outcome, root_intermediate_check,
    root_keypair_from_secret, root_pair, signed_keypair_from_secret, signed_pair_outcome,
    stored_intermediate, stored_journalist, stored_root, verify_root_intermediate,
};
use crate::record::{
    encode_journalist, encode_root, encode_signed, journalist_record, root_record, signed_record,
    KIND_SIGNING,
};
use crate::store::{KeyId, KeyStore};

verus! {

/// The number of journalists that a bootstrap generates.
pub const JOURNALIST_COUNT: usize = 3;

/// The two secrets of a journalist.
pub struct JournalistSecrets {
    /// The secret half of the signing pair.
    pub signing: [u8; 32],
    /// The secret half of the encrypting pair.
    pub encrypting: [u8; 32],
}

/// The two secrets of a journalist, as bytes.
pub struct JournalistSecretsView {
    pub signing: Seq<u8>,
    pub encrypting: Seq<u8>,
}

impl View for JournalistSecrets {
    type V = JournalistSecretsView;

    open spec fn view(&self) -> JournalistSecretsView {
        JournalistSecretsView { signing: self.signing@, encrypting: self.encrypting@ }
    }
}

/// The secrets of a list of journalists, as bytes.
pub open spec fn secrets_views(secrets: Seq<JournalistSecrets>) -> Seq<JournalistSecretsView> {
    secrets.map_values(|secrets: JournalistSecrets| secrets@)
}

/// The store after the first `count` journalists were added to `store`, each
/// attested by `intermediate` and stored under its number, counted from 1; or
/// the failure of the first journalist whose attestation failed.
pub open spec fn with_journalists(
    store: Map<KeyId, Seq<u8>>,
    intermediate: Seq<u8>,
    secrets: Seq<JournalistSecretsView>,
    count: nat,
) -> Result<Map<KeyId, Seq<u8>>, PkiError>
    decreases count,
{
    if count == 0 {
        Ok(store)
    } else {
        match with_journalists(store, intermediate, secrets, (count - 1) as nat) {
            Err(error) => Err(error),
            Ok(earlier) => match journalist_outcome(
                intermediate,
                secrets[count - 1].signing,
                secrets[count - 1].encrypting,
            ) {
                Err(error) => Err(error),
                Ok(journalist) => Ok(
                    earlier.insert(KeyId::Journalist(count as u32), journalist_record(journalist)),
                ),
            },
        }
    }
}

/// The store with the root and the intermediate of a hierarchy.
pub open spec fn trunk(root_secret: Seq<u8>, intermediate: SignedKeyMaterial) -> Map<
    KeyId,
    Seq<u8>,
> {
    Map::<KeyId, Seq<u8>>::empty().insert(KeyId::Root, root_record(root_pair(root_secret))).insert(
        KeyId::Intermediate,
        signed_record(KIND_SIGNING, intermediate),
    )
}

/// The store that the given secrets make: the root, the intermediate that
/// the root attests, and the journalists that the intermediate attests; or
/// the failure of the first attestation that failed.
pub open spec fn hierarchy_outcome(
    root_secret: Seq<u8>,
    intermediate_secret: Seq<u8>,
    journalists: Seq<JournalistSecretsView>,
) -> Result<Map<KeyId, Seq<u8>>, PkiError> {
    match signed_pair_outcome(root_secret, intermediate_secret) {
        Err(error) => Err(error),
        Ok(intermediate) => with_journalists(
            trunk(root_secret, intermediate),
            intermediate_secret,
            journalists,
            journalists.len(),
        ),
    }
}

/// The identifiers of a hierarchy with `count` journalists.
pub open spec fn hierarchy_ids(count: nat) -> Set<KeyId> {
    Set::new(
        |id: KeyId|
            match id {
                KeyId::Root => true,
                KeyId::Intermediate => true,
                KeyId::Journalist(number) => 1 <= number <= count,
            },
    )
}

/// The store holds a sound hierarchy with `count` journalists: exactly its
/// records; a root that is a signing pair; an intermediate that is a signing
/// pair and passes the check against the root; and journalists whose pairs
/// are of their kinds and attested by the intermediate.
pub open spec fn hierarchy_valid(store: Map<KeyId, Seq<u8>>, count: nat) -> bool {
    &&& store.dom() == hierarchy_ids(count)
    &&& stored_root(store) matches Ok(root)
    &&& root.is_signing_pair()
    &&& stored_intermediate(store) matches Ok(intermediate)
    &&& intermediate.is_signing_pair()
    &&& root_intermediate_check(store) is Ok
    &&& forall|number: u32|
        1 <= number <= count ==> #[trigger] journalist_sound(
            store,
            number,
            ed25519_verifying_key(intermediate.secret),
        )
}

/// The store holds a journalist under `number` whose pairs are of their
/// kinds and attested by the verifying key `parent`.
pub open spec fn journalist_sound(store: Map<KeyId, Seq<u8>>, number: u32, parent: Seq<u8>) -> bool {
    stored_journalist(store, number) matches Ok(journalist) && journalist.attested_by(parent)
}

/// Once an attestation has failed, adding further journalists does not
/// change the failure.
proof fn lemma_failure_stays(
    store: Map<KeyId, Seq<u8>>,
    intermediate: Seq<u8>,
    secrets: Seq<JournalistSecretsView>,
    count: nat,
    more: nat,
)
    requires
        with_journalists(store, intermediate, secrets, count) is Err,
        count <= more,
    ensures
        with_journalists(store, intermediate, secrets, more) == with_journalists(
            store,
            intermediate,
            secrets,
            count,
        ),
    decreases more,
{
    if count < more {
        lemma_failure_stays(store, intermediate, secrets, count, (more - 1) as nat);
    }
}

/// Builds the key store of the hierarchy with the given secrets: the root
/// first, then the intermediate, which is checked against the root as the
/// store holds both, then the journalists in their order, numbered from 1.
pub fn key_store_from_secrets(
    root_secret: [u8; 32],
    intermediate_secret: [u8; 32],
    journalists: &Vec<JournalistSecrets>,
) -> (outcome: Result<KeyStore, PkiError>)
    requires
        journalists@.len() <= u32::MAX,
    ensures
        match outcome {
            Ok(store) => hierarchy_outcome(
                root_secret@,
                intermediate_secret@,
                secrets_views(journalists@),
            ) == Ok::<Map<KeyId, Seq<u8>>, PkiError>(store@),
            Err(error) => hierarchy_outcome(
                root_secret@,
                intermediate_secret@,
                secrets_views(journalists@),
            ) == Err::<Map<KeyId, Seq<u8>>, PkiError>(error),
        },
        outcome matches Ok(store) ==> hierarchy_valid(store@, journalists@.len()),
        outcome matches Err(error) ==> error == PkiError::SelfCheckFailed,
{
    let ghost secrets = secrets_views(journalists@);
    let mut store = KeyStore::new();
    let root = root_keypair_from_secret(root_secret);
    store.put(KeyId::Root, encode_root(&root));
    let intermediate = match signed_keypair_from_secret(
        &mut root.as_signing_key(),
        intermediate_secret,
    ) {
        Ok(pair) => pair,
        Err(error) => {
            return Err(error);
        },
    };
    store.put(KeyId::Intermediate, encode_signed(&intermediate));
    let ghost base = store@;
    assert(base == trunk(root_secret@, intermediate@));
    match verify_root_intermediate(&store) {
        Ok(_) => {},
        Err(error) => {
            return Err(error);
        },
    }
    assert(store@.dom() =~= hierarchy_ids(0));
    let mut i: usize = 0;
    while i < journalists.len()
        invariant
            i <= journalists@.len() <= u32::MAX,
            secrets == secrets_views(journalists@),
            hierarchy_outcome(root_secret@, intermediate_secret@, secrets) == with_journalists(
                base,
                intermediate_secret@,
                secrets,
                journalists@.len(),
            ),
            intermediate@.secret == intermediate_secret@,
            stored_intermediate(store@) == Ok::<SignedKeyMaterial, PkiError>(intermediate@),
            with_journalists(base, intermediate_secret@, secrets, i as nat) == Ok::<
                Map<KeyId, Seq<u8>>,
                PkiError,
            >(store@),
            hierarchy_valid(store@, i as nat),
        decreases journalists@.len() - i,
    {
        let ghost before = store@;
        assert(secrets[i as int] == journalists@[i as int]@);
        let journalist = match journalist_from_secrets(
            &intermediate,
            journalists[i].signing,
            journalists[i].encrypting,
        ) {
            Ok(journalist) => journalist,
            Err(error) => {
                proof {
                    lemma_failure_stays(
                        base,
                        intermediate_secret@,
                        secrets,
                        (i + 1) as nat,
                        journalists@.len(),
                    );
                }
                return Err(error);
            },
        };
        let number = (i + 1) as u32;
        store.put(KeyId::Journalist(number), encode_journalist(&journalist));
        proof {
            assert(store@.dom() =~= hierarchy_ids((i + 1) as nat));
            let parent = ed25519_verifying_key(intermediate@.secret);
            assert(journalist@.attested_by(parent));
            assert(stored_root(store@) == stored_root(before));
            assert(stored_intermediate(store@) == stored_intermediate(before));
            assert(root_intermediate_check(store@) == root_intermediate_check(before));
            assert forall|other: u32| 1 <= other <= i + 1 implies #[trigger] journalist_sound(
                store@,
                other,
                parent,
            ) by {
                if other != number {
                    assert(journalist_sound(before, other, parent));
                }
            }
        }
        i += 1;
    }
    Ok(store)
}

/// Bootstraps a key store with fresh keys: one root, one intermediate and
/// three journalists.
///
/// A store that is handed out holds a sound hierarchy. The only failure is
/// that of a signer's own check of a signature it has just made.
pub fn initialize_keys() -> (outcome: Result<KeyStore, PkiError>)
    ensures
        outcome matches Ok(store) ==> hierarchy_valid(store@, JOURNALIST_COUNT as nat),
        outcome matches Err(error) ==> error == PkiError::SelfCheckFailed,
{
    let root_secret = fresh_signing_secret();
    let intermediate_secret = fresh_signing_secret();
    let mut journalists: Vec<JournalistSecrets> = Vec::new();
    let mut i: usize = 0;
    while i < JOURNALIST_COUNT
        invariant
            i <= JOURNALIST_COUNT,
            journalists@.len() == i,
        decreases JOURNALIST_COUNT - i,
    {
        let signing = fresh_signing_secret();
        let encrypting = fresh_encrypting_secret();
        journalists.push(JournalistSecrets { signing, encrypting });
        i += 1;
    }
    key_store_from_secrets(root_secret, intermediate_secret, &journalists)
}

/// In a sound hierarchy the intermediate passes the check against the root,
/// and both signatures of every journalist pass the check against the stored
/// intermediate, each over exactly the key it belongs to.
pub proof fn lemma_sound_hierarchy_verifies(store: Map<KeyId, Seq<u8>>, count: nat, number: u32)
    requires
        hierarchy_valid(store, count),
        1 <= number <= count,
    ensures
        root_intermediate_check(store) == Ok::<(), PkiError>(()),
        stored_journalist(store, number) is Ok,
        intermediate_check(
            store,
            stored_journalist(store, number)->Ok_0.signing.public,
            stored_journalist(store, number)->Ok_0.signing.signature,
        ) == Ok::<(), PkiError>(()),
        intermediate_check(
            store,
            stored_journalist(store, number)->Ok_0.encrypting.public,
            stored_journalist(store, number)->Ok_0.encrypting.signature,
        ) == Ok::<(), PkiError>(()),
{
    let intermediate = stored_intermediate(store)->Ok_0;
    assert(journalist_sound(store, number, ed25519_verifying_key(intermediate.secret)));
}

} // verus!

//! Artifact-related types: the messages a node gossips, their identifiers,
//! attributes, tags and priorities.
//!
//! Message payloads and hashes produced elsewhere in the system are carried
//! here as plain values (byte strings and integers); this module's own logic
//! is the classification of artifacts by kind and the identifier bookkeeping.

use vstd::prelude::*;

verus! {

/// A block height.
pub type Height = u64;

/// A point in time, in nanoseconds since the epoch.
pub type Time = u64;

/// A cryptographic hash, as plain bytes.
#[derive(Clone, Debug, PartialEq, Eq, Hash)]
pub struct CryptoHash(pub Vec<u8>);

/// The identifier (hash) of an ingress message.
#[derive(Clone, Debug, PartialEq, Eq, PartialOrd, Ord, Hash)]
pub struct MessageId(pub Vec<u8>);

/// A consensus message, as an opaque payload.
#[derive(Clone, Debug, PartialEq, Eq, Hash)]
pub struct ConsensusMessage(pub Vec<u8>);

/// A signed ingress message: its serialized bytes, expiry and identifier.
#[derive(Clone, Debug, PartialEq, Eq, Hash)]
pub struct SignedIngress {
    pub binary: Vec<u8>,
    pub expiry_time: Time,
    pub message_id: MessageId,
}

/// A certification message, as an opaque payload.
#[derive(Clone, Debug, PartialEq, Eq, Hash)]
pub struct CertificationMessage(pub Vec<u8>);

/// A distributed key generation message, as an opaque payload.
#[derive(Clone, Debug, PartialEq, Eq, Hash)]
pub struct DkgMessage(pub Vec<u8>);

/// A threshold-ECDSA message, as an opaque payload.
#[derive(Clone, Debug, PartialEq, Eq, Hash)]
pub struct EcdsaMessage(pub Vec<u8>);

/// A canister HTTP response share, as an opaque payload.
#[derive(Clone, Debug, PartialEq, Eq, Hash)]
pub struct CanisterHttpResponseShare(pub Vec<u8>);

/// A file-tree-sync artifact, as an opaque payload.
#[derive(Clone, Debug, PartialEq, Eq, Hash)]
pub struct FileTreeSyncArtifact(pub Vec<u8>);

/// A state sync message: the height and root hash of the synced state, and
/// the checkpoint directory it is read from.
#[derive(Clone, Debug, PartialEq, Eq)]
pub struct StateSyncMessage {
    pub height: Height,
    pub root_hash: CryptoHash,
    pub checkpoint_root: String,
}

/// The artifact type.
#[derive(Clone, Debug, PartialEq, Eq)]
pub enum Artifact {
    ConsensusMessage(ConsensusMessage),
    IngressMessage(SignedIngress),
    CertificationMessage(CertificationMessage),
    DkgMessage(DkgMessage),
    EcdsaMessage(EcdsaMessage),
    CanisterHttpMessage(CanisterHttpResponseShare),
    FileTreeSync(FileTreeSyncArtifact),
    StateSync(StateSyncMessage),
}

/// Attribute of a consensus message, as an opaque payload.
#[derive(Clone, Debug, PartialEq, Eq, Hash)]
pub struct ConsensusMessageAttribute(pub Vec<u8>);

/// Attribute of a threshold-ECDSA message, as an opaque payload.
#[derive(Clone, Debug, PartialEq, Eq, Hash)]
pub struct EcdsaMessageAttribute(pub Vec<u8>);

/// Attribute of a canister HTTP response share, as an opaque payload.
#[derive(Clone, Debug, PartialEq, Eq, Hash)]
pub struct CanisterHttpResponseAttribute(pub Vec<u8>);

/// Attribute of a distributed key generation message.
#[derive(Clone, Copy, Debug, PartialEq, Eq, Hash, Structural)]
pub struct DkgMessageAttribute {
    pub interval_start_height: Height,
}

/// Artifact attribute type.
#[derive(Clone, Debug, PartialEq, Eq)]
pub enum ArtifactAttribute {
    ConsensusMessage(ConsensusMessageAttribute),
    DkgMessage(DkgMessageAttribute),
    EcdsaMessage(EcdsaMessageAttribute),
    CanisterHttpMessage(CanisterHttpResponseAttribute),
    Empty,
}

/// Consensus message identifier: a message hash and a height, so the pool
/// can look the message up.
#[derive(Clone, Debug, PartialEq, Eq, Hash)]
pub struct ConsensusMessageId {
    pub hash: CryptoHash,
    pub height: Height,
}

/// Ingress message identifier: the message identifier together with the
/// message's expiry time.
#[derive(Clone, Debug, PartialEq, Eq, PartialOrd, Ord, Hash)]
pub struct IngressMessageId {
    expiry: Time,
    pub message_id: MessageId,
}

impl IngressMessageId {
    /// The expiry time, readable in contracts.
    pub closed spec fn spec_expiry(self) -> Time {
        self.expiry
    }

    /// The message identifier, readable in contracts.
    pub closed spec fn spec_message_id(self) -> MessageId {
        self.message_id
    }

    /// Create a new IngressMessageId.
    pub fn new(expiry: Time, message_id: MessageId) -> (r: IngressMessageId)
        ensures
            r.spec_expiry() == expiry,
            r.spec_message_id() == message_id,
    {
        IngressMessageId { expiry, message_id }
    }

    /// The expiry time of the identified message.
    pub fn expiry(&self) -> (r: Time)
        ensures
            r == self.spec_expiry(),
    {
        self.expiry
    }

    /// The identifier of a signed ingress message: its message identifier
    /// and expiry.
    pub fn of_signed_ingress(signed_ingress: &SignedIngress) -> (r: IngressMessageId)
        ensures
            r.spec_expiry() == signed_ingress.expiry_time,
            r.spec_message_id().0@ == signed_ingress.message_id.0@,
    {
        IngressMessageId {
            expiry: signed_ingress.expiry_time,
            message_id: MessageId(clone_bytes(&signed_ingress.message_id.0)),
        }
    }

    /// The bare message identifier, without the expiry.
    pub fn to_message_id(&self) -> (r: MessageId)
        ensures
            r.0@ == self.spec_message_id().0@,
    {
        MessageId(clone_bytes(&self.message_id.0))
    }
}

/// Copy a byte vector.
fn clone_bytes(bytes: &Vec<u8>) -> (r: Vec<u8>)
    ensures
        r@ == bytes@,
{
    let mut out: Vec<u8> = Vec::new();
    let mut i: usize = 0;
    while i < bytes.len()
        invariant
            i <= bytes@.len(),
            out@ == bytes@.subrange(0, i as int),
        decreases bytes@.len() - i,
    {
        out.push(bytes[i]);
        proof {
            assert(bytes@.subrange(0, i + 1) =~= bytes@.subrange(0, i as int).push(
                bytes@[i as int],
            ));
        }
        i = i + 1;
    }
    proof {
        assert(bytes@.subrange(0, bytes@.len() as int) =~= bytes@);
    }
    out
}

/// Certification message identifier: a message hash and a height.
#[derive(Clone, Debug, PartialEq, Eq, Hash)]
pub struct CertificationMessageId {
    pub hash: CryptoHash,
    pub height: Height,
}

/// Identifier of a distributed key generation message.
pub type DkgMessageId = CryptoHash;

/// Identifier of a threshold-ECDSA message.
pub type EcdsaMessageId = CryptoHash;

/// Identifier of a canister HTTP response share.
pub type CanisterHttpResponseId = CryptoHash;

/// Identifier of a file-tree-sync artifact.
pub type FileTreeSyncId = String;

/// Identifier of a state sync artifact.
#[derive(Clone, Debug, PartialEq, Eq, Hash)]
pub struct StateSyncArtifactId {
    pub height: Height,
    pub hash: CryptoHash,
}

/// Artifact identifier type.
#[derive(Clone, Debug, PartialEq, Eq)]
pub enum ArtifactId {
    ConsensusMessage(ConsensusMessageId),
    IngressMessage(IngressMessageId),
    CertificationMessage(CertificationMessageId),
    CanisterHttpMessage(CanisterHttpResponseId),
    DkgMessage(DkgMessageId),
    EcdsaMessage(EcdsaMessageId),
    FileTreeSync(FileTreeSyncId),
    StateSync(StateSyncArtifactId),
}

/// Artifact tags, used to select an artifact subtype where no artifact,
/// identifier or attribute value is at hand.
#[derive(Clone, Copy, Debug, PartialEq, Eq, Hash, Structural)]
pub enum ArtifactTag {
    CanisterHttpArtifact,
    CertificationArtifact,
    ConsensusArtifact,
    DkgArtifact,
    EcdsaArtifact,
    FileTreeSyncArtifact,
    IngressArtifact,
    StateSyncArtifact,
}

/// The display name of an artifact tag.
pub open spec fn tag_display_spec(tag: ArtifactTag) -> Seq<char> {
    match tag {
        ArtifactTag::CanisterHttpArtifact => "CanisterHttp"@,
        ArtifactTag::CertificationArtifact => "Certification"@,
        ArtifactTag::ConsensusArtifact => "Consensus"@,
        ArtifactTag::DkgArtifact => "DKG"@,
        ArtifactTag::EcdsaArtifact => "ECDSA"@,
        ArtifactTag::FileTreeSyncArtifact => "FileTreeSync"@,
        ArtifactTag::IngressArtifact => "Ingress"@,
        ArtifactTag::StateSyncArtifact => "StateSync"@,
    }
}

/// The tag classifying an artifact identifier.
pub open spec fn tag_of_id_spec(id: ArtifactId) -> ArtifactTag {
    match id {
        ArtifactId::CanisterHttpMessage(_) => ArtifactTag::CanisterHttpArtifact,
        ArtifactId::CertificationMessage(_) => ArtifactTag::CertificationArtifact,
        ArtifactId::ConsensusMessage(_) => ArtifactTag::ConsensusArtifact,
        ArtifactId::DkgMessage(_) => ArtifactTag::DkgArtifact,
        ArtifactId::EcdsaMessage(_) => ArtifactTag::EcdsaArtifact,
        ArtifactId::FileTreeSync(_) => ArtifactTag::FileTreeSyncArtifact,
        ArtifactId::IngressMessage(_) => ArtifactTag::IngressArtifact,
        ArtifactId::StateSync(_) => ArtifactTag::StateSyncArtifact,
    }
}

/// The tag classifying an artifact.
pub open spec fn tag_of_artifact_spec(msg: Artifact) -> ArtifactTag {
    match msg {
        Artifact::ConsensusMessage(_) => ArtifactTag::ConsensusArtifact,
        Artifact::IngressMessage(_) => ArtifactTag::IngressArtifact,
        Artifact::CertificationMessage(_) => ArtifactTag::CertificationArtifact,
        Artifact::DkgMessage(_) => ArtifactTag::DkgArtifact,
        Artifact::EcdsaMessage(_) => ArtifactTag::EcdsaArtifact,
        Artifact::CanisterHttpMessage(_) => ArtifactTag::CanisterHttpArtifact,
        Artifact::FileTreeSync(_) => ArtifactTag::FileTreeSyncArtifact,
        Artifact::StateSync(_) => ArtifactTag::StateSyncArtifact,
    }
}

impl ArtifactTag {
    /// The tag's display name.
    pub fn display_name(&self) -> (r: &'static str)
        ensures
            r@ == tag_display_spec(*self),
    {
        match self {
            ArtifactTag::CanisterHttpArtifact => "CanisterHttp",
            ArtifactTag::CertificationArtifact => "Certification",
            ArtifactTag::ConsensusArtifact => "Consensus",
            ArtifactTag::DkgArtifact => "DKG",
            ArtifactTag::EcdsaArtifact => "ECDSA",
            ArtifactTag::FileTreeSyncArtifact => "FileTreeSync",
            ArtifactTag::IngressArtifact => "Ingress",
            ArtifactTag::StateSyncArtifact => "StateSync",
        }
    }

    /// The tag of an artifact identifier, used to route the identifier to
    /// the client that manages its kind.
    pub fn of_id(id: &ArtifactId) -> (r: ArtifactTag)
        ensures
            r == tag_of_id_spec(*id),
    {
        match id {
            ArtifactId::CanisterHttpMessage(_) => ArtifactTag::CanisterHttpArtifact,
            ArtifactId::CertificationMessage(_) => ArtifactTag::CertificationArtifact,
            ArtifactId::ConsensusMessage(_) => ArtifactTag::ConsensusArtifact,
            ArtifactId::DkgMessage(_) => ArtifactTag::DkgArtifact,
            ArtifactId::EcdsaMessage(_) => ArtifactTag::EcdsaArtifact,
            ArtifactId::FileTreeSync(_) => ArtifactTag::FileTreeSyncArtifact,
            ArtifactId::IngressMessage(_) => ArtifactTag::IngressArtifact,
            ArtifactId::StateSync(_) => ArtifactTag::StateSyncArtifact,
        }
    }

    /// The tag of an artifact, used to match the artifact with the right
    /// client.
    pub fn of_artifact(msg: &Artifact) -> (r: ArtifactTag)
        ensures
            r == tag_of_artifact_spec(*msg),
    {
        match msg {
            Artifact::ConsensusMessage(_) => ArtifactTag::ConsensusArtifact,
            Artifact::IngressMessage(_) => ArtifactTag::IngressArtifact,
            Artifact::CertificationMessage(_) => ArtifactTag::CertificationArtifact,
            Artifact::DkgMessage(_) => ArtifactTag::DkgArtifact,
            Artifact::EcdsaMessage(_) => ArtifactTag::EcdsaArtifact,
            Artifact::CanisterHttpMessage(_) => ArtifactTag::CanisterHttpArtifact,
            Artifact::FileTreeSync(_) => ArtifactTag::FileTreeSyncArtifact,
            Artifact::StateSync(_) => ArtifactTag::StateSyncArtifact,
        }
    }
}

/// The filters the gossip protocol applies per artifact pool; only the
/// consensus filter exists so far.
#[derive(Clone, Debug, PartialEq, Eq, Hash, Structural)]
pub struct ArtifactFilter {
    pub height: Height,
}

impl Default for ArtifactFilter {
    /// The filter that accepts from height zero.
    fn default() -> (r: ArtifactFilter)
        ensures
            r.height == 0,
    {
        ArtifactFilter { height: 0 }
    }
}

/// Priority of an artifact advert.
#[derive(Clone, Copy, Debug, PartialEq, Eq, Hash, Structural)]
pub enum Priority {
    /// Drop the advert; the artifact is not needed.
    Drop,
    /// Stash the advert; processing is suspended.
    Stash,
    /// Low priority: consider for download when capacity allows.
    Later,
    /// Normal priority.
    Fetch,
    /// High priority.
    FetchNow,
}

/// Related artifact sub-types (message, identifier, attribute) bundled by
/// artifact kind, so a client can carry them as one type parameter.
pub trait ArtifactKind: Sized {
    type Id;
    type Message;
    type Attribute;

    /// The tag of this artifact kind.
    fn tag() -> ArtifactTag;

    /// The advert announcing the given message.
    fn message_to_advert(msg: &Self::Message) -> Advert<Self>;
}

/// A type-indexed advert: what a node announces about an artifact it holds.
pub struct Advert<A: ArtifactKind> {
    pub id: A::Id,
    pub attribute: A::Attribute,
    pub size: usize,
    pub integrity_hash: CryptoHash,
}

} // verus!

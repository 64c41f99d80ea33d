use idkg::artifact::{
    Artifact, ArtifactFilter, ArtifactId, ArtifactTag, CertificationMessageId, ConsensusMessage,
    ConsensusMessageId, CryptoHash, DkgMessageAttribute, IngressMessageId, MessageId, Priority,
    SignedIngress, StateSyncArtifactId, StateSyncMessage,
};
use idkg::Round;

#[test]
fn ingress_message_id_keeps_its_parts() {
    let id = IngressMessageId::new(12345, MessageId(vec![1, 2, 3]));
    assert_eq!(id.expiry(), 12345);
    assert_eq!(id.to_message_id(), MessageId(vec![1, 2, 3]));
    let signed = SignedIngress {
        binary: vec![9, 9],
        expiry_time: 777,
        message_id: MessageId(vec![4, 5]),
    };
    let from_signed = IngressMessageId::of_signed_ingress(&signed);
    assert_eq!(from_signed.expiry(), 777);
    assert_eq!(from_signed.to_message_id(), MessageId(vec![4, 5]));
}

#[test]
fn ingress_message_ids_order_by_expiry_first() {
    let early = IngressMessageId::new(1, MessageId(vec![200]));
    let late = IngressMessageId::new(2, MessageId(vec![1]));
    assert!(early < late);
}

#[test]
fn artifact_tags_classify_ids_and_artifacts() {
    let consensus_id = ArtifactId::ConsensusMessage(ConsensusMessageId {
        hash: CryptoHash(vec![1]),
        height: 10,
    });
    assert_eq!(ArtifactTag::of_id(&consensus_id), ArtifactTag::ConsensusArtifact);
    let certification_id = ArtifactId::CertificationMessage(CertificationMessageId {
        hash: CryptoHash(vec![2]),
        height: 11,
    });
    assert_eq!(ArtifactTag::of_id(&certification_id), ArtifactTag::CertificationArtifact);
    let ingress_id =
        ArtifactId::IngressMessage(IngressMessageId::new(5, MessageId(vec![3])));
    assert_eq!(ArtifactTag::of_id(&ingress_id), ArtifactTag::IngressArtifact);
    let state_sync_id = ArtifactId::StateSync(StateSyncArtifactId {
        height: 12,
        hash: CryptoHash(vec![4]),
    });
    assert_eq!(ArtifactTag::of_id(&state_sync_id), ArtifactTag::StateSyncArtifact);
    let artifact = Artifact::ConsensusMessage(ConsensusMessage(vec![7]));
    assert_eq!(ArtifactTag::of_artifact(&artifact), ArtifactTag::ConsensusArtifact);
    let state_sync = Artifact::StateSync(StateSyncMessage {
        height: 1,
        root_hash: CryptoHash(vec![8]),
        checkpoint_root: String::from("checkpoints/1"),
    });
    assert_eq!(ArtifactTag::of_artifact(&state_sync), ArtifactTag::StateSyncArtifact);
}

#[test]
fn artifact_tag_display_names() {
    assert_eq!(ArtifactTag::CanisterHttpArtifact.display_name(), "CanisterHttp");
    assert_eq!(ArtifactTag::CertificationArtifact.display_name(), "Certification");
    assert_eq!(ArtifactTag::ConsensusArtifact.display_name(), "Consensus");
    assert_eq!(ArtifactTag::DkgArtifact.display_name(), "DKG");
    assert_eq!(ArtifactTag::EcdsaArtifact.display_name(), "ECDSA");
    assert_eq!(ArtifactTag::FileTreeSyncArtifact.display_name(), "FileTreeSync");
    assert_eq!(ArtifactTag::IngressArtifact.display_name(), "Ingress");
    assert_eq!(ArtifactTag::StateSyncArtifact.display_name(), "StateSync");
}

#[test]
fn default_filter_starts_at_height_zero() {
    let filter = ArtifactFilter::default();
    assert_eq!(filter.height, 0);
}

#[test]
fn priorities_and_rounds_are_plain_values() {
    assert_ne!(Priority::Drop, Priority::FetchNow);
    assert_eq!(Priority::Fetch, Priority::Fetch);
    let attribute = DkgMessageAttribute { interval_start_height: 44 };
    assert_eq!(attribute.interval_start_height, 44);
    let round = Round(9);
    assert_eq!(round.0, 9);
}

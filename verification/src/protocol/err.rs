//! The error codes that a broker answers with.
use vstd::prelude::*;
use crate::codec::KafkaEncodable;
use crate::err::CodecError;

verus! {

#[derive(Debug, Clone, Copy, PartialEq, Eq)]
pub enum ErrorCode {
    /// The server experienced an unexpected error when processing the request.
    UnknownServerError,
    /// This is actually not an error and if this gets printed, mistakes were made.
    NoError,
    /// The requested offset is not within the range of offsets maintained by the server.
    OffsetOutOfRange,
    /// This message has failed its CRC checksum, exceeds the valid size, has a null key for a
    /// compacted topic, or is otherwise corrupt.
    CorruptMessage,
    /// This server does not host this topic-partition.
    UnknownTopicOrPartition,
    /// The requested fetch size is invalid.
    InvalidFetchSize,
    /// There is no leader for this topic-partition as we are in the middle of a leadership
    /// election.
    LeaderNotAvailable,
    /// For requests intended only for the leader, this error indicates that the broker is not the
    /// current leader. For requests intended for any replica, this error indicates that the
    /// broker is not a replica of the topic partition.
    NotLeaderOrFollower,
    /// The request timed out.
    RequestTimedOut,
    /// The broker is not available.
    BrokerNotAvailable,
    /// The replica is not available for the requested topic-partition. Produce/Fetch requests and
    /// other requests intended only for the leader or follower return NOT_LEADER_OR_FOLLOWER if
    /// the broker is not a replica of the topic-partition.
    ReplicaNotAvailable,
    /// The request included a message larger than the max message size the server will accept.
    MessageTooLarge,
    /// The controller moved to another broker.
    StaleControllerEpoch,
    /// The metadata field of the offset request was too large.
    OffsetMetadataTooLarge,
    /// The server disconnected before a response was received.
    NetworkException,
    /// The coordinator is loading and hence can't process requests.
    CoordinatorLoadInProgress,
    /// The coordinator is not available.
    CoordinatorNotAvailable,
    /// This is not the correct coordinator.
    NotCoordinator,
    /// The request attempted to perform an operation on an invalid topic.
    InvalidTopicException,
    /// The request included message batch larger than the configured segment size on the server.
    RecordListTooLarge,
    /// Messages are rejected since there are fewer in-sync replicas than required.
    NotEnoughReplicas,
    /// Messages are written to the log, but to fewer in-sync replicas than required.
    NotEnoughReplicasAfterAppend,
    /// Produce request specified an invalid value for required acks.
    InvalidRequiredAcks,
    /// Specified group generation id is not valid.
    IllegalGeneration,
    /// The group member's supported protocols are incompatible with those of existing members or
    /// first group member tried to join with empty protocol type or empty protocol list.
    InconsistentGroupProtocol,
    /// The configured groupId is invalid.
    InvalidGroupId,
    /// The coordinator is not aware of this member.
    UnknownMemberId,
    /// The session timeout is not within the range allowed by the broker (as configured by
    /// group.min.session.timeout.ms and group.max.session.timeout.ms).
    InvalidSessionTimeout,
    /// The group is rebalancing, so a rejoin is needed.
    RebalanceInProgress,
    /// The committing offset data size is not valid.
    InvalidCommitOffsetSize,
    /// Topic authorization failed.
    TopicAuthorizationFailed,
    /// Group authorization failed.
    GroupAuthorizationFailed,
    /// Cluster authorization failed.
    ClusterAuthorizationFailed,
    /// The timestamp of the message is out of acceptable range.
    InvalidTimestamp,
    /// The broker does not support the requested SASL mechanism.
    UnsupportedSaslMechanism,
    /// Request is not valid given the current SASL state.
    IllegalSaslState,
    /// The version of API is not supported.
    UnsupportedVersion,
    /// Topic with this name already exists.
    TopicAlreadyExists,
    /// Number of partitions is below 1.
    InvalidPartitions,
    /// Replication factor is below 1 or larger than the number of available brokers.
    InvalidReplicationFactor,
    /// Replica assignment is invalid.
    InvalidReplicaAssignment,
    /// Configuration is invalid.
    InvalidConfig,
    /// This is not the correct controller for this cluster.
    NotController,
    /// This most likely occurs because of a request being malformed by the client library or the
    /// message was sent to an incompatible broker. See the broker logs for more details.
    InvalidRequest,
    /// The message format version on the broker does not support the request.
    UnsupportedForMessageFormat,
    /// Request parameters do not satisfy the configured policy.
    PolicyViolation,
    /// The broker received an out of order sequence number.
    OutOfOrderSequenceNumber,
    /// The broker received a duplicate sequence number.
    DuplicateSequenceNumber,
    /// Producer attempted to produce with an old epoch.
    InvalidProducerEpoch,
    /// The producer attempted a transactional operation in an invalid state.
    InvalidTxnState,
    /// The producer attempted to use a producer id which is not currently assigned to its
    /// transactional id.
    InvalidProducerIdMapping,
    /// The transaction timeout is larger than the maximum value allowed by the broker (as
    /// configured by transaction.max.timeout.ms).
    InvalidTransactionTimeout,
    /// The producer attempted to update a transaction while another concurrent operation on the
    /// same transaction was ongoing.
    ConcurrentTransactions,
    /// Indicates that the transaction coordinator sending a WriteTxnMarker is no longer the
    /// current coordinator for a given producer.
    TransactionCoordinatorFenced,
    /// Transactional Id authorization failed.
    TransactionalIdAuthorizationFailed,
    /// Security features are disabled.
    SecurityDisabled,
    /// The broker did not attempt to execute this operation. This may happen for batched RPCs
    /// where some operations in the batch failed, causing the broker to respond without trying
    /// the rest.
    OperationNotAttempted,
    /// Disk error when trying to access log file on the disk.
    KafkaStorageError,
    /// The user-specified log directory is not found in the broker config.
    LogDirNotFound,
    /// SASL Authentication failed.
    SaslAuthenticationFailed,
    /// This exception is raised by the broker if it could not locate the producer metadata
    /// associated with the producerId in question. This could happen if, for instance, the
    /// producer's records were deleted because their retention time had elapsed. Once the last
    /// records of the producerId are removed, the producer's metadata is removed from the broker,
    /// and future appends by the producer will return this exception.
    UnknownProducerId,
    /// A partition reassignment is in progress.
    ReassignmentInProgress,
    /// Delegation Token feature is not enabled.
    DelegationTokenAuthDisabled,
    /// Delegation Token is not found on server.
    DelegationTokenNotFound,
    /// Specified Principal is not valid Owner/Renewer.
    DelegationTokenOwnerMismatch,
    /// Delegation Token requests are not allowed on PLAINTEXT/1-way SSL channels and on
    /// delegation token authenticated channels.
    DelegationTokenRequestNotAllowed,
    /// Delegation Token authorization failed.
    DelegationTokenAuthorizationFailed,
    /// Delegation Token is expired.
    DelegationTokenExpired,
    /// Supplied principalType is not supported.
    InvalidPrincipalType,
    /// The group is not empty.
    NonEmptyGroup,
    /// The group id does not exist.
    GroupIdNotFound,
    /// The fetch session ID was not found.
    FetchSessionIdNotFound,
    /// The fetch session epoch is invalid.
    InvalidFetchSessionEpoch,
    /// There is no listener on the leader broker that matches the listener on which metadata
    /// request was processed.
    ListenerNotFound,
    /// Topic deletion is disabled.
    TopicDeletionDisabled,
    /// The leader epoch in the request is older than the epoch on the broker.
    FencedLeaderEpoch,
    /// The leader epoch in the request is newer than the epoch on the broker.
    UnknownLeaderEpoch,
    /// The requesting client does not support the compression type of given partition.
    UnsupportedCompressionType,
    /// Broker epoch has changed.
    StaleBrokerEpoch,
    /// The leader high watermark has not caught up from a recent leader election so the offsets
    /// cannot be guaranteed to be monotonically increasing.
    OffsetNotAvailable,
    /// The group member needs to have a valid member id before actually entering a consumer
    /// group.
    MemberIdRequired,
    /// The preferred leader was not available.
    PreferredLeaderNotAvailable,
    /// The consumer group has reached its max size.
    GroupMaxSizeReached,
    /// The broker rejected this static consumer since another consumer with the same
    /// group.instance.id has registered with a different member.id.
    FencedInstanceId,
    /// Eligible topic partition leaders are not available.
    EligibleLeadersNotAvailable,
    /// Leader election not needed for topic partition.
    ElectionNotNeeded,
    /// No partition reassignment is in progress.
    NoReassignmentInProgress,
    /// Deleting offsets of a topic is forbidden while the consumer group is actively subscribed
    /// to it.
    GroupSubscribedToTopic,
    /// This record has failed the validation on broker and hence will be rejected.
    InvalidRecord,
    /// There are unstable offsets that need to be cleared.
    UnstableOffsetCommit,
    /// The throttling quota has been exceeded.
    ThrottlingQuotaExceeded,
    /// There is a newer producer with the same transactionalId which fences the current one.
    ProducerFenced,
    /// A request illegally referred to a resource that does not exist.
    ResourceNotFound,
    /// A request illegally referred to the same resource twice.
    DuplicateResource,
    /// Requested credential would not meet criteria for acceptability.
    UnacceptableCredential,
    /// Indicates that the either the sender or recipient of a voter-only request is not one of
    /// the expected voters
    InconsistentVoterSet,
    /// The given update version was invalid.
    InvalidUpdateVersion,
    /// Unable to update finalized features due to an unexpected server error.
    FeatureUpdateFailed,
    /// Request principal deserialization failed during forwarding. This indicates an internal
    /// error on the broker cluster security setup.
    PrincipalDeserializationFailure,
    /// Requested snapshot was not found
    SnapshotNotFound,
    /// Requested position is not greater than or equal to zero, and less than the size of the
    /// snapshot.
    PositionOutOfRange,
    /// This server does not host this topic ID.
    UnknownTopicId,
    /// This broker ID is already in use.
    DuplicateBrokerRegistration,
    /// The given broker ID was not registered.
    BrokerIdNotRegistered,
    /// The log's topic ID did not match the topic ID in the request
    InconsistentTopicId,
    /// The clusterId in the request does not match that found on the server
    InconsistentClusterId,
    /// The transactionalId could not be found
    TransactionalIdNotFound,
    /// The fetch session encountered inconsistent topic ID usage
    FetchSessionTopicIdError,
    /// The new ISR contains at least one ineligible replica.
    IneligibleReplica,
    /// The AlterPartition request successfully updated the partition state but the leader has
    /// changed.
    NewLeaderElected,
}

impl ErrorCode {
    /// The number that stands for this error code on the wire.
    pub open spec fn code(self) -> i16 {
        match self {
            ErrorCode::UnknownServerError => -1i16,
            ErrorCode::NoError => 0,
            ErrorCode::OffsetOutOfRange => 1,
            ErrorCode::CorruptMessage => 2,
            ErrorCode::UnknownTopicOrPartition => 3,
            ErrorCode::InvalidFetchSize => 4,
            ErrorCode::LeaderNotAvailable => 5,
            ErrorCode::NotLeaderOrFollower => 6,
            ErrorCode::RequestTimedOut => 7,
            ErrorCode::BrokerNotAvailable => 8,
            ErrorCode::ReplicaNotAvailable => 9,
            ErrorCode::MessageTooLarge => 10,
            ErrorCode::StaleControllerEpoch => 11,
            ErrorCode::OffsetMetadataTooLarge => 12,
            ErrorCode::NetworkException => 13,
            ErrorCode::CoordinatorLoadInProgress => 14,
            ErrorCode::CoordinatorNotAvailable => 15,
            ErrorCode::NotCoordinator => 16,
            ErrorCode::InvalidTopicException => 17,
            ErrorCode::RecordListTooLarge => 18,
            ErrorCode::NotEnoughReplicas => 19,
            ErrorCode::NotEnoughReplicasAfterAppend => 20,
            ErrorCode::InvalidRequiredAcks => 21,
            ErrorCode::IllegalGeneration => 22,
            ErrorCode::InconsistentGroupProtocol => 23,
            ErrorCode::InvalidGroupId => 24,
            ErrorCode::UnknownMemberId => 25,
            ErrorCode::InvalidSessionTimeout => 26,
            ErrorCode::RebalanceInProgress => 27,
            ErrorCode::InvalidCommitOffsetSize => 28,
            ErrorCode::TopicAuthorizationFailed => 29,
            ErrorCode::GroupAuthorizationFailed => 30,
            ErrorCode::ClusterAuthorizationFailed => 31,
            ErrorCode::InvalidTimestamp => 32,
            ErrorCode::UnsupportedSaslMechanism => 33,
            ErrorCode::IllegalSaslState => 34,
            ErrorCode::UnsupportedVersion => 35,
            ErrorCode::TopicAlreadyExists => 36,
            ErrorCode::InvalidPartitions => 37,
            ErrorCode::InvalidReplicationFactor => 38,
            ErrorCode::InvalidReplicaAssignment => 39,
            ErrorCode::InvalidConfig => 40,
            ErrorCode::NotController => 41,
            ErrorCode::InvalidRequest => 42,
            ErrorCode::UnsupportedForMessageFormat => 43,
            ErrorCode::PolicyViolation => 44,
            ErrorCode::OutOfOrderSequenceNumber => 45,
            ErrorCode::DuplicateSequenceNumber => 46,
            ErrorCode::InvalidProducerEpoch => 47,
            ErrorCode::InvalidTxnState => 48,
            ErrorCode::InvalidProducerIdMapping => 49,
            ErrorCode::InvalidTransactionTimeout => 50,
            ErrorCode::ConcurrentTransactions => 51,
            ErrorCode::TransactionCoordinatorFenced => 52,
            ErrorCode::TransactionalIdAuthorizationFailed => 53,
            ErrorCode::SecurityDisabled => 54,
            ErrorCode::OperationNotAttempted => 55,
            ErrorCode::KafkaStorageError => 56,
            ErrorCode::LogDirNotFound => 57,
            ErrorCode::SaslAuthenticationFailed => 58,
            ErrorCode::UnknownProducerId => 59,
            ErrorCode::ReassignmentInProgress => 60,
            ErrorCode::DelegationTokenAuthDisabled => 61,
            ErrorCode::DelegationTokenNotFound => 62,
            ErrorCode::DelegationTokenOwnerMismatch => 63,
            ErrorCode::DelegationTokenRequestNotAllowed => 64,
            ErrorCode::DelegationTokenAuthorizationFailed => 65,
            ErrorCode::DelegationTokenExpired => 66,
            ErrorCode::InvalidPrincipalType => 67,
            ErrorCode::NonEmptyGroup => 68,
            ErrorCode::GroupIdNotFound => 69,
            ErrorCode::FetchSessionIdNotFound => 70,
            ErrorCode::InvalidFetchSessionEpoch => 71,
            ErrorCode::ListenerNotFound => 72,
            ErrorCode::TopicDeletionDisabled => 73,
            ErrorCode::FencedLeaderEpoch => 74,
            ErrorCode::UnknownLeaderEpoch => 75,
            ErrorCode::UnsupportedCompressionType => 76,
            ErrorCode::StaleBrokerEpoch => 77,
            ErrorCode::OffsetNotAvailable => 78,
            ErrorCode::MemberIdRequired => 79,
            ErrorCode::PreferredLeaderNotAvailable => 80,
            ErrorCode::GroupMaxSizeReached => 81,
            ErrorCode::FencedInstanceId => 82,
            ErrorCode::EligibleLeadersNotAvailable => 83,
            ErrorCode::ElectionNotNeeded => 84,
            ErrorCode::NoReassignmentInProgress => 85,
            ErrorCode::GroupSubscribedToTopic => 86,
            ErrorCode::InvalidRecord => 87,
            ErrorCode::UnstableOffsetCommit => 88,
            ErrorCode::ThrottlingQuotaExceeded => 89,
            ErrorCode::ProducerFenced => 90,
            ErrorCode::ResourceNotFound => 91,
            ErrorCode::DuplicateResource => 92,
            ErrorCode::UnacceptableCredential => 93,
            ErrorCode::InconsistentVoterSet => 94,
            ErrorCode::InvalidUpdateVersion => 95,
            ErrorCode::FeatureUpdateFailed => 96,
            ErrorCode::PrincipalDeserializationFailure => 97,
            ErrorCode::SnapshotNotFound => 98,
            ErrorCode::PositionOutOfRange => 99,
            ErrorCode::UnknownTopicId => 100,
            ErrorCode::DuplicateBrokerRegistration => 101,
            ErrorCode::BrokerIdNotRegistered => 102,
            ErrorCode::InconsistentTopicId => 103,
            ErrorCode::InconsistentClusterId => 104,
            ErrorCode::TransactionalIdNotFound => 105,
            ErrorCode::FetchSessionTopicIdError => 106,
            ErrorCode::IneligibleReplica => 107,
            ErrorCode::NewLeaderElected => 108,
        }
    }

    /// The error code that `value` stands for, if there is one.
    pub open spec fn from_code(value: i16) -> Option<ErrorCode> {
        if exists|k: ErrorCode| k.code() == value {
            Some(choose|k: ErrorCode| k.code() == value)
        } else {
            None
        }
    }

    /// No two of them share a number.
    pub proof fn lemma_code_injective(a: ErrorCode, b: ErrorCode)
        requires
            a.code() == b.code(),
        ensures
            a == b,
    {
    }

    /// `from_code` undoes `code`.
    pub proof fn lemma_from_code(k: ErrorCode)
        ensures
            ErrorCode::from_code(k.code()) == Some(k),
    {
        let found = choose|x: ErrorCode| x.code() == k.code();
        ErrorCode::lemma_code_injective(found, k);
    }

    /// The number that stands for this error code on the wire.
    pub fn as_i16(&self) -> (c: i16)
        ensures
            c == self.code(),
    {
        match self {
            ErrorCode::UnknownServerError => -1i16,
            ErrorCode::NoError => 0,
            ErrorCode::OffsetOutOfRange => 1,
            ErrorCode::CorruptMessage => 2,
            ErrorCode::UnknownTopicOrPartition => 3,
            ErrorCode::InvalidFetchSize => 4,
            ErrorCode::LeaderNotAvailable => 5,
            ErrorCode::NotLeaderOrFollower => 6,
            ErrorCode::RequestTimedOut => 7,
            ErrorCode::BrokerNotAvailable => 8,
            ErrorCode::ReplicaNotAvailable => 9,
            ErrorCode::MessageTooLarge => 10,
            ErrorCode::StaleControllerEpoch => 11,
            ErrorCode::OffsetMetadataTooLarge => 12,
            ErrorCode::NetworkException => 13,
            ErrorCode::CoordinatorLoadInProgress => 14,
            ErrorCode::CoordinatorNotAvailable => 15,
            ErrorCode::NotCoordinator => 16,
            ErrorCode::InvalidTopicException => 17,
            ErrorCode::RecordListTooLarge => 18,
            ErrorCode::NotEnoughReplicas => 19,
            ErrorCode::NotEnoughReplicasAfterAppend => 20,
            ErrorCode::InvalidRequiredAcks => 21,
            ErrorCode::IllegalGeneration => 22,
            ErrorCode::InconsistentGroupProtocol => 23,
            ErrorCode::InvalidGroupId => 24,
            ErrorCode::UnknownMemberId => 25,
            ErrorCode::InvalidSessionTimeout => 26,
            ErrorCode::RebalanceInProgress => 27,
            ErrorCode::InvalidCommitOffsetSize => 28,
            ErrorCode::TopicAuthorizationFailed => 29,
            ErrorCode::GroupAuthorizationFailed => 30,
            ErrorCode::ClusterAuthorizationFailed => 31,
            ErrorCode::InvalidTimestamp => 32,
            ErrorCode::UnsupportedSaslMechanism => 33,
            ErrorCode::IllegalSaslState => 34,
            ErrorCode::UnsupportedVersion => 35,
            ErrorCode::TopicAlreadyExists => 36,
            ErrorCode::InvalidPartitions => 37,
            ErrorCode::InvalidReplicationFactor => 38,
            ErrorCode::InvalidReplicaAssignment => 39,
            ErrorCode::InvalidConfig => 40,
            ErrorCode::NotController => 41,
            ErrorCode::InvalidRequest => 42,
            ErrorCode::UnsupportedForMessageFormat => 43,
            ErrorCode::PolicyViolation => 44,
            ErrorCode::OutOfOrderSequenceNumber => 45,
            ErrorCode::DuplicateSequenceNumber => 46,
            ErrorCode::InvalidProducerEpoch => 47,
            ErrorCode::InvalidTxnState => 48,
            ErrorCode::InvalidProducerIdMapping => 49,
            ErrorCode::InvalidTransactionTimeout => 50,
            ErrorCode::ConcurrentTransactions => 51,
            ErrorCode::TransactionCoordinatorFenced => 52,
            ErrorCode::TransactionalIdAuthorizationFailed => 53,
            ErrorCode::SecurityDisabled => 54,
            ErrorCode::OperationNotAttempted => 55,
            ErrorCode::KafkaStorageError => 56,
            ErrorCode::LogDirNotFound => 57,
            ErrorCode::SaslAuthenticationFailed => 58,
            ErrorCode::UnknownProducerId => 59,
            ErrorCode::ReassignmentInProgress => 60,
            ErrorCode::DelegationTokenAuthDisabled => 61,
            ErrorCode::DelegationTokenNotFound => 62,
            ErrorCode::DelegationTokenOwnerMismatch => 63,
            ErrorCode::DelegationTokenRequestNotAllowed => 64,
            ErrorCode::DelegationTokenAuthorizationFailed => 65,
            ErrorCode::DelegationTokenExpired => 66,
            ErrorCode::InvalidPrincipalType => 67,
            ErrorCode::NonEmptyGroup => 68,
            ErrorCode::GroupIdNotFound => 69,
            ErrorCode::FetchSessionIdNotFound => 70,
            ErrorCode::InvalidFetchSessionEpoch => 71,
            ErrorCode::ListenerNotFound => 72,
            ErrorCode::TopicDeletionDisabled => 73,
            ErrorCode::FencedLeaderEpoch => 74,
            ErrorCode::UnknownLeaderEpoch => 75,
            ErrorCode::UnsupportedCompressionType => 76,
            ErrorCode::StaleBrokerEpoch => 77,
            ErrorCode::OffsetNotAvailable => 78,
            ErrorCode::MemberIdRequired => 79,
            ErrorCode::PreferredLeaderNotAvailable => 80,
            ErrorCode::GroupMaxSizeReached => 81,
            ErrorCode::FencedInstanceId => 82,
            ErrorCode::EligibleLeadersNotAvailable => 83,
            ErrorCode::ElectionNotNeeded => 84,
            ErrorCode::NoReassignmentInProgress => 85,
            ErrorCode::GroupSubscribedToTopic => 86,
            ErrorCode::InvalidRecord => 87,
            ErrorCode::UnstableOffsetCommit => 88,
            ErrorCode::ThrottlingQuotaExceeded => 89,
            ErrorCode::ProducerFenced => 90,
            ErrorCode::ResourceNotFound => 91,
            ErrorCode::DuplicateResource => 92,
            ErrorCode::UnacceptableCredential => 93,
            ErrorCode::InconsistentVoterSet => 94,
            ErrorCode::InvalidUpdateVersion => 95,
            ErrorCode::FeatureUpdateFailed => 96,
            ErrorCode::PrincipalDeserializationFailure => 97,
            ErrorCode::SnapshotNotFound => 98,
            ErrorCode::PositionOutOfRange => 99,
            ErrorCode::UnknownTopicId => 100,
            ErrorCode::DuplicateBrokerRegistration => 101,
            ErrorCode::BrokerIdNotRegistered => 102,
            ErrorCode::InconsistentTopicId => 103,
            ErrorCode::InconsistentClusterId => 104,
            ErrorCode::TransactionalIdNotFound => 105,
            ErrorCode::FetchSessionTopicIdError => 106,
            ErrorCode::IneligibleReplica => 107,
            ErrorCode::NewLeaderElected => 108,
        }
    }

    /// The error code that `value` stands for; a number that stands for none is reported with
    /// the number itself.
    pub fn try_from(value: i16) -> (r: Result<ErrorCode, CodecError>)
        ensures
            match ErrorCode::from_code(value) {
                Some(k) => r == Ok::<ErrorCode, CodecError>(k),
                None => r == Err::<ErrorCode, CodecError>(
                    CodecError::UnrecognizedDiscriminant { value },
                ),
            },
    {
        let found: Option<ErrorCode> = match value {
            -1i16 => Some(ErrorCode::UnknownServerError),
            0 => Some(ErrorCode::NoError),
            1 => Some(ErrorCode::OffsetOutOfRange),
            2 => Some(ErrorCode::CorruptMessage),
            3 => Some(ErrorCode::UnknownTopicOrPartition),
            4 => Some(ErrorCode::InvalidFetchSize),
            5 => Some(ErrorCode::LeaderNotAvailable),
            6 => Some(ErrorCode::NotLeaderOrFollower),
            7 => Some(ErrorCode::RequestTimedOut),
            8 => Some(ErrorCode::BrokerNotAvailable),
            9 => Some(ErrorCode::ReplicaNotAvailable),
            10 => Some(ErrorCode::MessageTooLarge),
            11 => Some(ErrorCode::StaleControllerEpoch),
            12 => Some(ErrorCode::OffsetMetadataTooLarge),
            13 => Some(ErrorCode::NetworkException),
            14 => Some(ErrorCode::CoordinatorLoadInProgress),
            15 => Some(ErrorCode::CoordinatorNotAvailable),
            16 => Some(ErrorCode::NotCoordinator),
            17 => Some(ErrorCode::InvalidTopicException),
            18 => Some(ErrorCode::RecordListTooLarge),
            19 => Some(ErrorCode::NotEnoughReplicas),
            20 => Some(ErrorCode::NotEnoughReplicasAfterAppend),
            21 => Some(ErrorCode::InvalidRequiredAcks),
            22 => Some(ErrorCode::IllegalGeneration),
            23 => Some(ErrorCode::InconsistentGroupProtocol),
            24 => Some(ErrorCode::InvalidGroupId),
            25 => Some(ErrorCode::UnknownMemberId),
            26 => Some(ErrorCode::InvalidSessionTimeout),
            27 => Some(ErrorCode::RebalanceInProgress),
            28 => Some(ErrorCode::InvalidCommitOffsetSize),
            29 => Some(ErrorCode::TopicAuthorizationFailed),
            30 => Some(ErrorCode::GroupAuthorizationFailed),
            31 => Some(ErrorCode::ClusterAuthorizationFailed),
            32 => Some(ErrorCode::InvalidTimestamp),
            33 => Some(ErrorCode::UnsupportedSaslMechanism),
            34 => Some(ErrorCode::IllegalSaslState),
            35 => Some(ErrorCode::UnsupportedVersion),
            36 => Some(ErrorCode::TopicAlreadyExists),
            37 => Some(ErrorCode::InvalidPartitions),
            38 => Some(ErrorCode::InvalidReplicationFactor),
            39 => Some(ErrorCode::InvalidReplicaAssignment),
            40 => Some(ErrorCode::InvalidConfig),
            41 => Some(ErrorCode::NotController),
            42 => Some(ErrorCode::InvalidRequest),
            43 => Some(ErrorCode::UnsupportedForMessageFormat),
            44 => Some(ErrorCode::PolicyViolation),
            45 => Some(ErrorCode::OutOfOrderSequenceNumber),
            46 => Some(ErrorCode::DuplicateSequenceNumber),
            47 => Some(ErrorCode::InvalidProducerEpoch),
            48 => Some(ErrorCode::InvalidTxnState),
            49 => Some(ErrorCode::InvalidProducerIdMapping),
            50 => Some(ErrorCode::InvalidTransactionTimeout),
            51 => Some(ErrorCode::ConcurrentTransactions),
            52 => Some(ErrorCode::TransactionCoordinatorFenced),
            53 => Some(ErrorCode::TransactionalIdAuthorizationFailed),
            54 => Some(ErrorCode::SecurityDisabled),
            55 => Some(ErrorCode::OperationNotAttempted),
            56 => Some(ErrorCode::KafkaStorageError),
            57 => Some(ErrorCode::LogDirNotFound),
            58 => Some(ErrorCode::SaslAuthenticationFailed),
            59 => Some(ErrorCode::UnknownProducerId),
            60 => Some(ErrorCode::ReassignmentInProgress),
            61 => Some(ErrorCode::DelegationTokenAuthDisabled),
            62 => Some(ErrorCode::DelegationTokenNotFound),
            63 => Some(ErrorCode::DelegationTokenOwnerMismatch),
            64 => Some(ErrorCode::DelegationTokenRequestNotAllowed),
            65 => Some(ErrorCode::DelegationTokenAuthorizationFailed),
            66 => Some(ErrorCode::DelegationTokenExpired),
            67 => Some(ErrorCode::InvalidPrincipalType),
            68 => Some(ErrorCode::NonEmptyGroup),
            69 => Some(ErrorCode::GroupIdNotFound),
            70 => Some(ErrorCode::FetchSessionIdNotFound),
            71 => Some(ErrorCode::InvalidFetchSessionEpoch),
            72 => Some(ErrorCode::ListenerNotFound),
            73 => Some(ErrorCode::TopicDeletionDisabled),
            74 => Some(ErrorCode::FencedLeaderEpoch),
            75 => Some(ErrorCode::UnknownLeaderEpoch),
            76 => Some(ErrorCode::UnsupportedCompressionType),
            77 => Some(ErrorCode::StaleBrokerEpoch),
            78 => Some(ErrorCode::OffsetNotAvailable),
            79 => Some(ErrorCode::MemberIdRequired),
            80 => Some(ErrorCode::PreferredLeaderNotAvailable),
            81 => Some(ErrorCode::GroupMaxSizeReached),
            82 => Some(ErrorCode::FencedInstanceId),
            83 => Some(ErrorCode::EligibleLeadersNotAvailable),
            84 => Some(ErrorCode::ElectionNotNeeded),
            85 => Some(ErrorCode::NoReassignmentInProgress),
            86 => Some(ErrorCode::GroupSubscribedToTopic),
            87 => Some(ErrorCode::InvalidRecord),
            88 => Some(ErrorCode::UnstableOffsetCommit),
            89 => Some(ErrorCode::ThrottlingQuotaExceeded),
            90 => Some(ErrorCode::ProducerFenced),
            91 => Some(ErrorCode::ResourceNotFound),
            92 => Some(ErrorCode::DuplicateResource),
            93 => Some(ErrorCode::UnacceptableCredential),
            94 => Some(ErrorCode::InconsistentVoterSet),
            95 => Some(ErrorCode::InvalidUpdateVersion),
            96 => Some(ErrorCode::FeatureUpdateFailed),
            97 => Some(ErrorCode::PrincipalDeserializationFailure),
            98 => Some(ErrorCode::SnapshotNotFound),
            99 => Some(ErrorCode::PositionOutOfRange),
            100 => Some(ErrorCode::UnknownTopicId),
            101 => Some(ErrorCode::DuplicateBrokerRegistration),
            102 => Some(ErrorCode::BrokerIdNotRegistered),
            103 => Some(ErrorCode::InconsistentTopicId),
            104 => Some(ErrorCode::InconsistentClusterId),
            105 => Some(ErrorCode::TransactionalIdNotFound),
            106 => Some(ErrorCode::FetchSessionTopicIdError),
            107 => Some(ErrorCode::IneligibleReplica),
            108 => Some(ErrorCode::NewLeaderElected),
            _ => None,
        };
        match found {
            Some(k) => {
                proof {
                    ErrorCode::lemma_from_code(k);
                }
                Ok(k)
            },
            None => {
                assert forall|k: ErrorCode| k.code() != value by {
                    if k.code() == value {
                        ErrorCode::lemma_code_cases(k, value);
                    }
                }
                Err(CodecError::UnrecognizedDiscriminant { value })
            },
        }
    }

    /// Every number that some error code has is one of the listed ones.
    proof fn lemma_code_cases(k: ErrorCode, value: i16)
        requires
            k.code() == value,
        ensures
            value == -1
                || value == 0
                || value == 1
                || value == 2
                || value == 3
                || value == 4
                || value == 5
                || value == 6
                || value == 7
                || value == 8
                || value == 9
                || value == 10
                || value == 11
                || value == 12
                || value == 13
                || value == 14
                || value == 15
                || value == 16
                || value == 17
                || value == 18
                || value == 19
                || value == 20
                || value == 21
                || value == 22
                || value == 23
                || value == 24
                || value == 25
                || value == 26
                || value == 27
                || value == 28
                || value == 29
                || value == 30
                || value == 31
                || value == 32
                || value == 33
                || value == 34
                || value == 35
                || value == 36
                || value == 37
                || value == 38
                || value == 39
                || value == 40
                || value == 41
                || value == 42
                || value == 43
                || value == 44
                || value == 45
                || value == 46
                || value == 47
                || value == 48
                || value == 49
                || value == 50
                || value == 51
                || value == 52
                || value == 53
                || value == 54
                || value == 55
                || value == 56
                || value == 57
                || value == 58
                || value == 59
                || value == 60
                || value == 61
                || value == 62
                || value == 63
                || value == 64
                || value == 65
                || value == 66
                || value == 67
                || value == 68
                || value == 69
                || value == 70
                || value == 71
                || value == 72
                || value == 73
                || value == 74
                || value == 75
                || value == 76
                || value == 77
                || value == 78
                || value == 79
                || value == 80
                || value == 81
                || value == 82
                || value == 83
                || value == 84
                || value == 85
                || value == 86
                || value == 87
                || value == 88
                || value == 89
                || value == 90
                || value == 91
                || value == 92
                || value == 93
                || value == 94
                || value == 95
                || value == 96
                || value == 97
                || value == 98
                || value == 99
                || value == 100
                || value == 101
                || value == 102
                || value == 103
                || value == 104
                || value == 105
                || value == 106
                || value == 107
                || value == 108,
    {
    }
}

impl KafkaEncodable for ErrorCode {
    type Value = ErrorCode;

    open spec fn value(&self) -> ErrorCode {
        *self
    }

    open spec fn encode_error(v: ErrorCode) -> Option<CodecError> {
        None
    }

    open spec fn wire(v: ErrorCode) -> Seq<u8> {
        i16::wire(v.code())
    }

    open spec fn parse(s: Seq<u8>) -> Result<(ErrorCode, Seq<u8>), CodecError> {
        match i16::parse(s) {
            Ok((value, rest)) => match ErrorCode::from_code(value) {
                Some(k) => Ok((k, rest)),
                None => Err(CodecError::UnrecognizedDiscriminant { value }),
            },
            Err(e) => Err(e),
        }
    }

    open spec fn written_before_error(v: Self::Value) -> Seq<u8> {
        Seq::<u8>::empty()
    }

    /// A number that stands for nothing has been read all the same.
    open spec fn unread_after_error(s: Seq<u8>) -> Seq<u8> {
        match i16::parse(s) {
            Ok((_, rest)) => rest,
            Err(_) => s,
        }
    }

    proof fn lemma_round_trip(v: ErrorCode, rest: Seq<u8>) {
        i16::lemma_round_trip(v.code(), rest);
        ErrorCode::lemma_from_code(v);
    }

    proof fn lemma_truncated(v: ErrorCode, k: int) {
        i16::lemma_truncated(v.code(), k);
    }

    fn to_kafka_bytes(self, writer: &mut Vec<u8>) -> (r: Result<(), CodecError>) {
        self.as_i16().to_kafka_bytes(writer)
    }

    fn from_kafka_bytes(reader: &mut &[u8]) -> (r: Result<ErrorCode, CodecError>) {
        match i16::from_kafka_bytes(reader) {
            Ok(value) => ErrorCode::try_from(value),
            Err(e) => Err(e),
        }
    }
}

} // verus!

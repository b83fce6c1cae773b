//! The keys that name the requests of the protocol.
use vstd::prelude::*;
use crate::codec::KafkaEncodable;
use crate::err::CodecError;

verus! {

#[derive(Debug, Clone, Copy, PartialEq, Eq)]
pub enum ApiKey {
    Produce,
    Fetch,
    ListOffsets,
    Metadata,
    LeaderAndIsr,
    StopReplica,
    UpdateMetadata,
    ControlledShutdown,
    OffsetCommit,
    OffsetFetch,
    FindCoordinator,
    JoinGroup,
    Heartbeat,
    LeaveGroup,
    SyncGroup,
    DescribeGroups,
    ListGroups,
    SaslHandshake,
    ApiVersions,
    CreateTopics,
    DeleteTopics,
    DeleteRecords,
    InitProducerId,
    OffsetForLeaderEpoch,
    AddPartitionsToTxn,
    AddOffsetsToTxn,
    EndTxn,
    WriteTxnMarkers,
    TxnOffsetCommit,
    DescribeAcls,
    CreateAcls,
    DeleteAcls,
    DescribeConfigs,
    AlterConfigs,
    AlterReplicaLogDirs,
    DescribeLogDirs,
    SaslAuthenticate,
    CreatePartitions,
    CreateDelegationToken,
    RenewDelegationToken,
    ExpireDelegationToken,
    DescribeDelegationToken,
    DeleteGroups,
    ElectLeaders,
    IncrementalAlterConfigs,
    AlterPartitionReassignments,
    ListPartitionReassignments,
    OffsetDelete,
    DescribeClientQuotas,
    AlterClientQuotas,
    DescribeUserScramCredentials,
    AlterUserScramCredentials,
    DescribeQuorum,
    AlterPartition,
    UpdateFeatures,
    DescribeCluster,
    DescribeProducers,
    UnregisterBroker,
    DescribeTransactions,
    ListTransactions,
    AllocateProducerIds,
}

impl ApiKey {
    /// The number that stands for this key on the wire.
    pub open spec fn code(self) -> i16 {
        match self {
            ApiKey::Produce => 0,
            ApiKey::Fetch => 1,
            ApiKey::ListOffsets => 2,
            ApiKey::Metadata => 3,
            ApiKey::LeaderAndIsr => 4,
            ApiKey::StopReplica => 5,
            ApiKey::UpdateMetadata => 6,
            ApiKey::ControlledShutdown => 7,
            ApiKey::OffsetCommit => 8,
            ApiKey::OffsetFetch => 9,
            ApiKey::FindCoordinator => 10,
            ApiKey::JoinGroup => 11,
            ApiKey::Heartbeat => 12,
            ApiKey::LeaveGroup => 13,
            ApiKey::SyncGroup => 14,
            ApiKey::DescribeGroups => 15,
            ApiKey::ListGroups => 16,
            ApiKey::SaslHandshake => 17,
            ApiKey::ApiVersions => 18,
            ApiKey::CreateTopics => 19,
            ApiKey::DeleteTopics => 20,
            ApiKey::DeleteRecords => 21,
            ApiKey::InitProducerId => 22,
            ApiKey::OffsetForLeaderEpoch => 23,
            ApiKey::AddPartitionsToTxn => 24,
            ApiKey::AddOffsetsToTxn => 25,
            ApiKey::EndTxn => 26,
            ApiKey::WriteTxnMarkers => 27,
            ApiKey::TxnOffsetCommit => 28,
            ApiKey::DescribeAcls => 29,
            ApiKey::CreateAcls => 30,
            ApiKey::DeleteAcls => 31,
            ApiKey::DescribeConfigs => 32,
            ApiKey::AlterConfigs => 33,
            ApiKey::AlterReplicaLogDirs => 34,
            ApiKey::DescribeLogDirs => 35,
            ApiKey::SaslAuthenticate => 36,
            ApiKey::CreatePartitions => 37,
            ApiKey::CreateDelegationToken => 38,
            ApiKey::RenewDelegationToken => 39,
            ApiKey::ExpireDelegationToken => 40,
            ApiKey::DescribeDelegationToken => 41,
            ApiKey::DeleteGroups => 42,
            ApiKey::ElectLeaders => 43,
            ApiKey::IncrementalAlterConfigs => 44,
            ApiKey::AlterPartitionReassignments => 45,
            ApiKey::ListPartitionReassignments => 46,
            ApiKey::OffsetDelete => 47,
            ApiKey::DescribeClientQuotas => 48,
            ApiKey::AlterClientQuotas => 49,
            ApiKey::DescribeUserScramCredentials => 50,
            ApiKey::AlterUserScramCredentials => 51,
            ApiKey::DescribeQuorum => 55,
            ApiKey::AlterPartition => 56,
            ApiKey::UpdateFeatures => 57,
            ApiKey::DescribeCluster => 60,
            ApiKey::DescribeProducers => 61,
            ApiKey::UnregisterBroker => 64,
            ApiKey::DescribeTransactions => 65,
            ApiKey::ListTransactions => 66,
            ApiKey::AllocateProducerIds => 67,
        }
    }

    /// The key that `value` stands for, if there is one.
    pub open spec fn from_code(value: i16) -> Option<ApiKey> {
        if exists|k: ApiKey| k.code() == value {
            Some(choose|k: ApiKey| k.code() == value)
        } else {
            None
        }
    }

    /// No two of them share a number.
    pub proof fn lemma_code_injective(a: ApiKey, b: ApiKey)
        requires
            a.code() == b.code(),
        ensures
            a == b,
    {
    }

    /// `from_code` undoes `code`.
    pub proof fn lemma_from_code(k: ApiKey)
        ensures
            ApiKey::from_code(k.code()) == Some(k),
    {
        let found = choose|x: ApiKey| x.code() == k.code();
        ApiKey::lemma_code_injective(found, k);
    }

    /// The number that stands for this key on the wire.
    pub fn as_i16(&self) -> (c: i16)
        ensures
            c == self.code(),
    {
        match self {
            ApiKey::Produce => 0,
            ApiKey::Fetch => 1,
            ApiKey::ListOffsets => 2,
            ApiKey::Metadata => 3,
            ApiKey::LeaderAndIsr => 4,
            ApiKey::StopReplica => 5,
            ApiKey::UpdateMetadata => 6,
            ApiKey::ControlledShutdown => 7,
            ApiKey::OffsetCommit => 8,
            ApiKey::OffsetFetch => 9,
            ApiKey::FindCoordinator => 10,
            ApiKey::JoinGroup => 11,
            ApiKey::Heartbeat => 12,
            ApiKey::LeaveGroup => 13,
            ApiKey::SyncGroup => 14,
            ApiKey::DescribeGroups => 15,
            ApiKey::ListGroups => 16,
            ApiKey::SaslHandshake => 17,
            ApiKey::ApiVersions => 18,
            ApiKey::CreateTopics => 19,
            ApiKey::DeleteTopics => 20,
            ApiKey::DeleteRecords => 21,
            ApiKey::InitProducerId => 22,
            ApiKey::OffsetForLeaderEpoch => 23,
            ApiKey::AddPartitionsToTxn => 24,
            ApiKey::AddOffsetsToTxn => 25,
            ApiKey::EndTxn => 26,
            ApiKey::WriteTxnMarkers => 27,
            ApiKey::TxnOffsetCommit => 28,
            ApiKey::DescribeAcls => 29,
            ApiKey::CreateAcls => 30,
            ApiKey::DeleteAcls => 31,
            ApiKey::DescribeConfigs => 32,
            ApiKey::AlterConfigs => 33,
            ApiKey::AlterReplicaLogDirs => 34,
            ApiKey::DescribeLogDirs => 35,
            ApiKey::SaslAuthenticate => 36,
            ApiKey::CreatePartitions => 37,
            ApiKey::CreateDelegationToken => 38,
            ApiKey::RenewDelegationToken => 39,
            ApiKey::ExpireDelegationToken => 40,
            ApiKey::DescribeDelegationToken => 41,
            ApiKey::DeleteGroups => 42,
            ApiKey::ElectLeaders => 43,
            ApiKey::IncrementalAlterConfigs => 44,
            ApiKey::AlterPartitionReassignments => 45,
            ApiKey::ListPartitionReassignments => 46,
            ApiKey::OffsetDelete => 47,
            ApiKey::DescribeClientQuotas => 48,
            ApiKey::AlterClientQuotas => 49,
            ApiKey::DescribeUserScramCredentials => 50,
            ApiKey::AlterUserScramCredentials => 51,
            ApiKey::DescribeQuorum => 55,
            ApiKey::AlterPartition => 56,
            ApiKey::UpdateFeatures => 57,
            ApiKey::DescribeCluster => 60,
            ApiKey::DescribeProducers => 61,
            ApiKey::UnregisterBroker => 64,
            ApiKey::DescribeTransactions => 65,
            ApiKey::ListTransactions => 66,
            ApiKey::AllocateProducerIds => 67,
        }
    }

    /// The key that `value` stands for; a number that stands for none is reported with
    /// the number itself.
    pub fn try_from(value: i16) -> (r: Result<ApiKey, CodecError>)
        ensures
            match ApiKey::from_code(value) {
                Some(k) => r == Ok::<ApiKey, CodecError>(k),
                None => r == Err::<ApiKey, CodecError>(
                    CodecError::UnrecognizedDiscriminant { value },
                ),
            },
    {
        let found: Option<ApiKey> = match value {
            0 => Some(ApiKey::Produce),
            1 => Some(ApiKey::Fetch),
            2 => Some(ApiKey::ListOffsets),
            3 => Some(ApiKey::Metadata),
            4 => Some(ApiKey::LeaderAndIsr),
            5 => Some(ApiKey::StopReplica),
            6 => Some(ApiKey::UpdateMetadata),
            7 => Some(ApiKey::ControlledShutdown),
            8 => Some(ApiKey::OffsetCommit),
            9 => Some(ApiKey::OffsetFetch),
            10 => Some(ApiKey::FindCoordinator),
            11 => Some(ApiKey::JoinGroup),
            12 => Some(ApiKey::Heartbeat),
            13 => Some(ApiKey::LeaveGroup),
            14 => Some(ApiKey::SyncGroup),
            15 => Some(ApiKey::DescribeGroups),
            16 => Some(ApiKey::ListGroups),
            17 => Some(ApiKey::SaslHandshake),
            18 => Some(ApiKey::ApiVersions),
            19 => Some(ApiKey::CreateTopics),
            20 => Some(ApiKey::DeleteTopics),
            21 => Some(ApiKey::DeleteRecords),
            22 => Some(ApiKey::InitProducerId),
            23 => Some(ApiKey::OffsetForLeaderEpoch),
            24 => Some(ApiKey::AddPartitionsToTxn),
            25 => Some(ApiKey::AddOffsetsToTxn),
            26 => Some(ApiKey::EndTxn),
            27 => Some(ApiKey::WriteTxnMarkers),
            28 => Some(ApiKey::TxnOffsetCommit),
            29 => Some(ApiKey::DescribeAcls),
            30 => Some(ApiKey::CreateAcls),
            31 => Some(ApiKey::DeleteAcls),
            32 => Some(ApiKey::DescribeConfigs),
            33 => Some(ApiKey::AlterConfigs),
            34 => Some(ApiKey::AlterReplicaLogDirs),
            35 => Some(ApiKey::DescribeLogDirs),
            36 => Some(ApiKey::SaslAuthenticate),
            37 => Some(ApiKey::CreatePartitions),
            38 => Some(ApiKey::CreateDelegationToken),
            39 => Some(ApiKey::RenewDelegationToken),
            40 => Some(ApiKey::ExpireDelegationToken),
            41 => Some(ApiKey::DescribeDelegationToken),
            42 => Some(ApiKey::DeleteGroups),
            43 => Some(ApiKey::ElectLeaders),
            44 => Some(ApiKey::IncrementalAlterConfigs),
            45 => Some(ApiKey::AlterPartitionReassignments),
            46 => Some(ApiKey::ListPartitionReassignments),
            47 => Some(ApiKey::OffsetDelete),
            48 => Some(ApiKey::DescribeClientQuotas),
            49 => Some(ApiKey::AlterClientQuotas),
            50 => Some(ApiKey::DescribeUserScramCredentials),
            51 => Some(ApiKey::AlterUserScramCredentials),
            55 => Some(ApiKey::DescribeQuorum),
            56 => Some(ApiKey::AlterPartition),
            57 => Some(ApiKey::UpdateFeatures),
            60 => Some(ApiKey::DescribeCluster),
            61 => Some(ApiKey::DescribeProducers),
            64 => Some(ApiKey::UnregisterBroker),
            65 => Some(ApiKey::DescribeTransactions),
            66 => Some(ApiKey::ListTransactions),
            67 => Some(ApiKey::AllocateProducerIds),
            _ => None,
        };
        match found {
            Some(k) => {
                proof {
                    ApiKey::lemma_from_code(k);
                }
                Ok(k)
            },
            None => {
                assert forall|k: ApiKey| k.code() != value by {
                    if k.code() == value {
                        ApiKey::lemma_code_cases(k, value);
                    }
                }
                Err(CodecError::UnrecognizedDiscriminant { value })
            },
        }
    }

    /// Every number that some key has is one of the listed ones.
    proof fn lemma_code_cases(k: ApiKey, value: i16)
        requires
            k.code() == value,
        ensures
            value == 0
                || value == 1
                || value == 2
                || value == 3
                || value == 4
                || value == 5
                || value == 6
                || value == 7
                || value == 8
                || value == 9
                || value == 10
                || value == 11
                || value == 12
                || value == 13
                || value == 14
                || value == 15
                || value == 16
                || value == 17
                || value == 18
                || value == 19
                || value == 20
                || value == 21
                || value == 22
                || value == 23
                || value == 24
                || value == 25
                || value == 26
                || value == 27
                || value == 28
                || value == 29
                || value == 30
                || value == 31
                || value == 32
                || value == 33
                || value == 34
                || value == 35
                || value == 36
                || value == 37
                || value == 38
                || value == 39
                || value == 40
                || value == 41
                || value == 42
                || value == 43
                || value == 44
                || value == 45
                || value == 46
                || value == 47
                || value == 48
                || value == 49
                || value == 50
                || value == 51
                || value == 55
                || value == 56
                || value == 57
                || value == 60
                || value == 61
                || value == 64
                || value == 65
                || value == 66
                || value == 67,
    {
    }
}

impl KafkaEncodable for ApiKey {
    type Value = ApiKey;

    open spec fn value(&self) -> ApiKey {
        *self
    }

    open spec fn encode_error(v: ApiKey) -> Option<CodecError> {
        None
    }

    open spec fn wire(v: ApiKey) -> Seq<u8> {
        i16::wire(v.code())
    }

    open spec fn parse(s: Seq<u8>) -> Result<(ApiKey, Seq<u8>), CodecError> {
        match i16::parse(s) {
            Ok((value, rest)) => match ApiKey::from_code(value) {
                Some(k) => Ok((k, rest)),
                None => Err(CodecError::UnrecognizedDiscriminant { value }),
            },
            Err(e) => Err(e),
        }
    }

    open spec fn written_before_error(v: Self::Value) -> Seq<u8> {
        Seq::<u8>::empty()
    }

    /// A number that stands for nothing has been read all the same.
    open spec fn unread_after_error(s: Seq<u8>) -> Seq<u8> {
        match i16::parse(s) {
            Ok((_, rest)) => rest,
            Err(_) => s,
        }
    }

    proof fn lemma_round_trip(v: ApiKey, rest: Seq<u8>) {
        i16::lemma_round_trip(v.code(), rest);
        ApiKey::lemma_from_code(v);
    }

    proof fn lemma_truncated(v: ApiKey, k: int) {
        i16::lemma_truncated(v.code(), k);
    }

    fn to_kafka_bytes(self, writer: &mut Vec<u8>) -> (r: Result<(), CodecError>) {
        self.as_i16().to_kafka_bytes(writer)
    }

    fn from_kafka_bytes(reader: &mut &[u8]) -> (r: Result<ApiKey, CodecError>) {
        match i16::from_kafka_bytes(reader) {
            Ok(value) => ApiKey::try_from(value),
            Err(e) => Err(e),
        }
    }
}

} // verus!

use kafka_encode::primitives::{CompactArray, CompactString, NullableString, VarArray};
use kafka_encode::protocol::api_key::ApiKey;
use kafka_encode::protocol::api_versions::{
    ApiVersionsRequestV3, ApiVersionsResponseV3, ApiVersionsResponseV3TaggedFields,
    SupportedApiKeyVersionsV3,
};
use kafka_encode::protocol::err::ErrorCode;
use kafka_encode::protocol::headers::{
    RequestHeaderV0, RequestHeaderV1, RequestHeaderV2, ResponseHeaderV1,
};
use kafka_encode::protocol::requests::PairWithI32EncodedSize;
use kafka_encode::protocol::tags::TaggedFields;
use kafka_encode::KafkaEncodable;

fn api_versions_response_bytes() -> Vec<u8> {
    vec![
        0, 0, 0, 0, 0, 0, 0, 60, 0, 0, 0, 0, 0, 9, 0, 0, 1, 0, 0, 0, 13, 0, 0, 2, 0, 0, 0, 7,
        0, 0, 3, 0, 0, 0, 12, 0, 0, 4, 0, 0, 0, 6, 0, 0, 5, 0, 0, 0, 3, 0, 0, 6, 0, 0, 0, 7, 0,
        0, 7, 0, 0, 0, 3, 0, 0, 8, 0, 0, 0, 8, 0, 0, 9, 0, 0, 0, 8, 0, 0, 10, 0, 0, 0, 4, 0, 0,
        11, 0, 0, 0, 9, 0, 0, 12, 0, 0, 0, 4, 0, 0, 13, 0, 0, 0, 5, 0, 0, 14, 0, 0, 0, 5, 0, 0,
        15, 0, 0, 0, 5, 0, 0, 16, 0, 0, 0, 4, 0, 0, 17, 0, 0, 0, 1, 0, 0, 18, 0, 0, 0, 3, 0, 0,
        19, 0, 0, 0, 7, 0, 0, 20, 0, 0, 0, 6, 0, 0, 21, 0, 0, 0, 2, 0, 0, 22, 0, 0, 0, 4, 0, 0,
        23, 0, 0, 0, 4, 0, 0, 24, 0, 0, 0, 3, 0, 0, 25, 0, 0, 0, 3, 0, 0, 26, 0, 0, 0, 3, 0, 0,
        27, 0, 0, 0, 1, 0, 0, 28, 0, 0, 0, 3, 0, 0, 29, 0, 0, 0, 3, 0, 0, 30, 0, 0, 0, 3, 0, 0,
        31, 0, 0, 0, 3, 0, 0, 32, 0, 0, 0, 4, 0, 0, 33, 0, 0, 0, 2, 0, 0, 34, 0, 0, 0, 2, 0, 0,
        35, 0, 0, 0, 4, 0, 0, 36, 0, 0, 0, 2, 0, 0, 37, 0, 0, 0, 3, 0, 0, 38, 0, 0, 0, 3, 0, 0,
        39, 0, 0, 0, 2, 0, 0, 40, 0, 0, 0, 2, 0, 0, 41, 0, 0, 0, 3, 0, 0, 42, 0, 0, 0, 2, 0, 0,
        43, 0, 0, 0, 2, 0, 0, 44, 0, 0, 0, 1, 0, 0, 45, 0, 0, 0, 0, 0, 0, 46, 0, 0, 0, 0, 0, 0,
        47, 0, 0, 0, 0, 0, 0, 48, 0, 0, 0, 1, 0, 0, 49, 0, 0, 0, 1, 0, 0, 50, 0, 0, 0, 0, 0, 0,
        51, 0, 0, 0, 0, 0, 0, 56, 0, 0, 0, 2, 0, 0, 57, 0, 0, 0, 1, 0, 0, 60, 0, 0, 0, 0, 0, 0,
        61, 0, 0, 0, 0, 0, 0, 65, 0, 0, 0, 0, 0, 0, 66, 0, 0, 0, 0, 0, 0, 67, 0, 0, 0, 0, 0, 0,
        0, 0, 0, 1, 1, 8, 0, 0, 0, 0, 0, 0, 0, 0,
    ]
}

fn api_versions_request_bytes() -> Vec<u8> {
    vec![
        0, 0, 0, 46, 0, 18, 0, 3, 0, 0, 0, 0, 0, 10, 112, 114, 111, 100, 117, 99, 101, 114, 45,
        49, 0, 18, 97, 112, 97, 99, 104, 101, 45, 107, 97, 102, 107, 97, 45, 106, 97, 118, 97,
        6, 51, 46, 51, 46, 49, 0,
    ]
}

fn expected_api_versions_response() -> ApiVersionsResponseV3 {
    ApiVersionsResponseV3 {
        error_code: ErrorCode::NoError,
        api_keys: CompactArray(vec![
            SupportedApiKeyVersionsV3 {
                api_key: ApiKey::Produce,
                min_version: 0,
                max_version: 9,
                tag_buffer: TaggedFields { tags: VarArray(vec![]) },
            },
            SupportedApiKeyVersionsV3 {
                api_key: ApiKey::Fetch,
                min_version: 0,
                max_version: 13,
                tag_buffer: TaggedFields { tags: VarArray(vec![]) },
            },
            SupportedApiKeyVersionsV3 {
                api_key: ApiKey::ListOffsets,
                min_version: 0,
                max_version: 7,
                tag_buffer: TaggedFields { tags: VarArray(vec![]) },
            },
            SupportedApiKeyVersionsV3 {
                api_key: ApiKey::Metadata,
                min_version: 0,
                max_version: 12,
                tag_buffer: TaggedFields { tags: VarArray(vec![]) },
            },
            SupportedApiKeyVersionsV3 {
                api_key: ApiKey::LeaderAndIsr,
                min_version: 0,
                max_version: 6,
                tag_buffer: TaggedFields { tags: VarArray(vec![]) },
            },
            SupportedApiKeyVersionsV3 {
                api_key: ApiKey::StopReplica,
                min_version: 0,
                max_version: 3,
                tag_buffer: TaggedFields { tags: VarArray(vec![]) },
            },
            SupportedApiKeyVersionsV3 {
                api_key: ApiKey::UpdateMetadata,
                min_version: 0,
                max_version: 7,
                tag_buffer: TaggedFields { tags: VarArray(vec![]) },
            },
            SupportedApiKeyVersionsV3 {
                api_key: ApiKey::ControlledShutdown,
                min_version: 0,
                max_version: 3,
                tag_buffer: TaggedFields { tags: VarArray(vec![]) },
            },
            SupportedApiKeyVersionsV3 {
                api_key: ApiKey::OffsetCommit,
                min_version: 0,
                max_version: 8,
                tag_buffer: TaggedFields { tags: VarArray(vec![]) },
            },
            SupportedApiKeyVersionsV3 {
                api_key: ApiKey::OffsetFetch,
                min_version: 0,
                max_version: 8,
                tag_buffer: TaggedFields { tags: VarArray(vec![]) },
            },
            SupportedApiKeyVersionsV3 {
                api_key: ApiKey::FindCoordinator,
                min_version: 0,
                max_version: 4,
                tag_buffer: TaggedFields { tags: VarArray(vec![]) },
            },
            SupportedApiKeyVersionsV3 {
                api_key: ApiKey::JoinGroup,
                min_version: 0,
                max_version: 9,
                tag_buffer: TaggedFields { tags: VarArray(vec![]) },
            },
            SupportedApiKeyVersionsV3 {
                api_key: ApiKey::Heartbeat,
                min_version: 0,
                max_version: 4,
                tag_buffer: TaggedFields { tags: VarArray(vec![]) },
            },
            SupportedApiKeyVersionsV3 {
                api_key: ApiKey::LeaveGroup,
                min_version: 0,
                max_version: 5,
                tag_buffer: TaggedFields { tags: VarArray(vec![]) },
            },
            SupportedApiKeyVersionsV3 {
                api_key: ApiKey::SyncGroup,
                min_version: 0,
                max_version: 5,
                tag_buffer: TaggedFields { tags: VarArray(vec![]) },
            },
            SupportedApiKeyVersionsV3 {
                api_key: ApiKey::DescribeGroups,
                min_version: 0,
                max_version: 5,
                tag_buffer: TaggedFields { tags: VarArray(vec![]) },
            },
            SupportedApiKeyVersionsV3 {
                api_key: ApiKey::ListGroups,
                min_version: 0,
                max_version: 4,
                tag_buffer: TaggedFields { tags: VarArray(vec![]) },
            },
            SupportedApiKeyVersionsV3 {
                api_key: ApiKey::SaslHandshake,
                min_version: 0,
                max_version: 1,
                tag_buffer: TaggedFields { tags: VarArray(vec![]) },
            },
            SupportedApiKeyVersionsV3 {
                api_key: ApiKey::ApiVersions,
                min_version: 0,
                max_version: 3,
                tag_buffer: TaggedFields { tags: VarArray(vec![]) },
            },
            SupportedApiKeyVersionsV3 {
                api_key: ApiKey::CreateTopics,
                min_version: 0,
                max_version: 7,
                tag_buffer: TaggedFields { tags: VarArray(vec![]) },
            },
            SupportedApiKeyVersionsV3 {
                api_key: ApiKey::DeleteTopics,
                min_version: 0,
                max_version: 6,
                tag_buffer: TaggedFields { tags: VarArray(vec![]) },
            },
            SupportedApiKeyVersionsV3 {
                api_key: ApiKey::DeleteRecords,
                min_version: 0,
                max_version: 2,
                tag_buffer: TaggedFields { tags: VarArray(vec![]) },
            },
            SupportedApiKeyVersionsV3 {
                api_key: ApiKey::InitProducerId,
                min_version: 0,
                max_version: 4,
                tag_buffer: TaggedFields { tags: VarArray(vec![]) },
            },
            SupportedApiKeyVersionsV3 {
                api_key: ApiKey::OffsetForLeaderEpoch,
                min_version: 0,
                max_version: 4,
                tag_buffer: TaggedFields { tags: VarArray(vec![]) },
            },
            SupportedApiKeyVersionsV3 {
                api_key: ApiKey::AddPartitionsToTxn,
                min_version: 0,
                max_version: 3,
                tag_buffer: TaggedFields { tags: VarArray(vec![]) },
            },
            SupportedApiKeyVersionsV3 {
                api_key: ApiKey::AddOffsetsToTxn,
                min_version: 0,
                max_version: 3,
                tag_buffer: TaggedFields { tags: VarArray(vec![]) },
            },
            SupportedApiKeyVersionsV3 {
                api_key: ApiKey::EndTxn,
                min_version: 0,
                max_version: 3,
                tag_buffer: TaggedFields { tags: VarArray(vec![]) },
            },
            SupportedApiKeyVersionsV3 {
                api_key: ApiKey::WriteTxnMarkers,
                min_version: 0,
                max_version: 1,
                tag_buffer: TaggedFields { tags: VarArray(vec![]) },
            },
            SupportedApiKeyVersionsV3 {
                api_key: ApiKey::TxnOffsetCommit,
                min_version: 0,
                max_version: 3,
                tag_buffer: TaggedFields { tags: VarArray(vec![]) },
            },
            SupportedApiKeyVersionsV3 {
                api_key: ApiKey::DescribeAcls,
                min_version: 0,
                max_version: 3,
                tag_buffer: TaggedFields { tags: VarArray(vec![]) },
            },
            SupportedApiKeyVersionsV3 {
                api_key: ApiKey::CreateAcls,
                min_version: 0,
                max_version: 3,
                tag_buffer: TaggedFields { tags: VarArray(vec![]) },
            },
            SupportedApiKeyVersionsV3 {
                api_key: ApiKey::DeleteAcls,
                min_version: 0,
                max_version: 3,
                tag_buffer: TaggedFields { tags: VarArray(vec![]) },
            },
            SupportedApiKeyVersionsV3 {
                api_key: ApiKey::DescribeConfigs,
                min_version: 0,
                max_version: 4,
                tag_buffer: TaggedFields { tags: VarArray(vec![]) },
            },
            SupportedApiKeyVersionsV3 {
                api_key: ApiKey::AlterConfigs,
                min_version: 0,
                max_version: 2,
                tag_buffer: TaggedFields { tags: VarArray(vec![]) },
            },
            SupportedApiKeyVersionsV3 {
                api_key: ApiKey::AlterReplicaLogDirs,
                min_version: 0,
                max_version: 2,
                tag_buffer: TaggedFields { tags: VarArray(vec![]) },
            },
            SupportedApiKeyVersionsV3 {
                api_key: ApiKey::DescribeLogDirs,
                min_version: 0,
                max_version: 4,
                tag_buffer: TaggedFields { tags: VarArray(vec![]) },
            },
            SupportedApiKeyVersionsV3 {
                api_key: ApiKey::SaslAuthenticate,
                min_version: 0,
                max_version: 2,
                tag_buffer: TaggedFields { tags: VarArray(vec![]) },
            },
            SupportedApiKeyVersionsV3 {
                api_key: ApiKey::CreatePartitions,
                min_version: 0,
                max_version: 3,
                tag_buffer: TaggedFields { tags: VarArray(vec![]) },
            },
            SupportedApiKeyVersionsV3 {
                api_key: ApiKey::CreateDelegationToken,
                min_version: 0,
                max_version: 3,
                tag_buffer: TaggedFields { tags: VarArray(vec![]) },
            },
            SupportedApiKeyVersionsV3 {
                api_key: ApiKey::RenewDelegationToken,
                min_version: 0,
                max_version: 2,
                tag_buffer: TaggedFields { tags: VarArray(vec![]) },
            },
            SupportedApiKeyVersionsV3 {
                api_key: ApiKey::ExpireDelegationToken,
                min_version: 0,
                max_version: 2,
                tag_buffer: TaggedFields { tags: VarArray(vec![]) },
            },
            SupportedApiKeyVersionsV3 {
                api_key: ApiKey::DescribeDelegationToken,
                min_version: 0,
                max_version: 3,
                tag_buffer: TaggedFields { tags: VarArray(vec![]) },
            },
            SupportedApiKeyVersionsV3 {
                api_key: ApiKey::DeleteGroups,
                min_version: 0,
                max_version: 2,
                tag_buffer: TaggedFields { tags: VarArray(vec![]) },
            },
            SupportedApiKeyVersionsV3 {
                api_key: ApiKey::ElectLeaders,
                min_version: 0,
                max_version: 2,
                tag_buffer: TaggedFields { tags: VarArray(vec![]) },
            },
            SupportedApiKeyVersionsV3 {
                api_key: ApiKey::IncrementalAlterConfigs,
                min_version: 0,
                max_version: 1,
                tag_buffer: TaggedFields { tags: VarArray(vec![]) },
            },
            SupportedApiKeyVersionsV3 {
                api_key: ApiKey::AlterPartitionReassignments,
                min_version: 0,
                max_version: 0,
                tag_buffer: TaggedFields { tags: VarArray(vec![]) },
            },
            SupportedApiKeyVersionsV3 {
                api_key: ApiKey::ListPartitionReassignments,
                min_version: 0,
                max_version: 0,
                tag_buffer: TaggedFields { tags: VarArray(vec![]) },
            },
            SupportedApiKeyVersionsV3 {
                api_key: ApiKey::OffsetDelete,
                min_version: 0,
                max_version: 0,
                tag_buffer: TaggedFields { tags: VarArray(vec![]) },
            },
            SupportedApiKeyVersionsV3 {
                api_key: ApiKey::DescribeClientQuotas,
                min_version: 0,
                max_version: 1,
                tag_buffer: TaggedFields { tags: VarArray(vec![]) },
            },
            SupportedApiKeyVersionsV3 {
                api_key: ApiKey::AlterClientQuotas,
                min_version: 0,
                max_version: 1,
                tag_buffer: TaggedFields { tags: VarArray(vec![]) },
            },
            SupportedApiKeyVersionsV3 {
                api_key: ApiKey::DescribeUserScramCredentials,
                min_version: 0,
                max_version: 0,
                tag_buffer: TaggedFields { tags: VarArray(vec![]) },
            },
            SupportedApiKeyVersionsV3 {
                api_key: ApiKey::AlterUserScramCredentials,
                min_version: 0,
                max_version: 0,
                tag_buffer: TaggedFields { tags: VarArray(vec![]) },
            },
            SupportedApiKeyVersionsV3 {
                api_key: ApiKey::AlterPartition,
                min_version: 0,
                max_version: 2,
                tag_buffer: TaggedFields { tags: VarArray(vec![]) },
            },
            SupportedApiKeyVersionsV3 {
                api_key: ApiKey::UpdateFeatures,
                min_version: 0,
                max_version: 1,
                tag_buffer: TaggedFields { tags: VarArray(vec![]) },
            },
            SupportedApiKeyVersionsV3 {
                api_key: ApiKey::DescribeCluster,
                min_version: 0,
                max_version: 0,
                tag_buffer: TaggedFields { tags: VarArray(vec![]) },
            },
            SupportedApiKeyVersionsV3 {
                api_key: ApiKey::DescribeProducers,
                min_version: 0,
                max_version: 0,
                tag_buffer: TaggedFields { tags: VarArray(vec![]) },
            },
            SupportedApiKeyVersionsV3 {
                api_key: ApiKey::DescribeTransactions,
                min_version: 0,
                max_version: 0,
                tag_buffer: TaggedFields { tags: VarArray(vec![]) },
            },
            SupportedApiKeyVersionsV3 {
                api_key: ApiKey::ListTransactions,
                min_version: 0,
                max_version: 0,
                tag_buffer: TaggedFields { tags: VarArray(vec![]) },
            },
            SupportedApiKeyVersionsV3 {
                api_key: ApiKey::AllocateProducerIds,
                min_version: 0,
                max_version: 0,
                tag_buffer: TaggedFields { tags: VarArray(vec![]) },
            },
        ]),
        throttle_time_ms: 0,
        tag_buffer: ApiVersionsResponseV3TaggedFields {
            supported_features: None,
            finalized_features_epoch: Some(0),
            finalized_features: None,
        },
    }
}

#[test]
fn test_api_versions_request_v3() {
    let request: ApiVersionsRequestV3 = ApiVersionsRequestV3 {
        client_software_name: CompactString(String::from("kafkart")),
        client_software_version: CompactString(String::from("0.0.1")),
        tag_buffer: TaggedFields { tags: VarArray(Vec::new()) },
    };
    let expected_response = expected_api_versions_response();
    assert_eq!(expected_response.api_keys.0[1].max_version, 13);
    assert_eq!(expected_response.api_keys.0[3].max_version, 12);

    let mut request_bytes: Vec<u8> = Vec::new();
    request.clone().to_kafka_bytes(&mut request_bytes).unwrap();
    assert_eq!(
        request_bytes,
        vec![8, 107, 97, 102, 107, 97, 114, 116, 6, 48, 46, 48, 46, 49, 0]
    );
    let read_back = ApiVersionsRequestV3::from_kafka_bytes(&mut &*request_bytes).unwrap();
    assert_eq!(read_back, request);

    let response_bytes = api_versions_response_bytes();
    let mut reader: &[u8] = &response_bytes;
    let response_header = ResponseHeaderV1::from_kafka_bytes(&mut reader).unwrap();
    assert_eq!(response_header.correlation_id, 0);
    let response = ApiVersionsResponseV3::from_kafka_bytes(&mut reader).unwrap();
    assert_eq!(response, expected_response);
    assert!(reader.is_empty());

    let mut written: Vec<u8> = Vec::new();
    response_header.to_kafka_bytes(&mut written).unwrap();
    expected_response.to_kafka_bytes(&mut written).unwrap();
    assert_eq!(written, response_bytes);
}

#[test]
fn test_request_header_v0() {
    let request_header_bytes: Vec<u8> = vec![0, 18, 0, 3, 0, 0, 0, 0];

    let deserialized_request_header =
        RequestHeaderV0::from_kafka_bytes(&mut &*request_header_bytes).unwrap();
    let expected_request_header: RequestHeaderV0 = RequestHeaderV0 {
        request_api_key: ApiKey::ApiVersions,
        request_api_version: 3,
        correlation_id: 0,
    };
    println!("deserialized_request_header: {:?}", deserialized_request_header);

    assert_eq!(deserialized_request_header, expected_request_header);
}

#[test]
fn test_request_header_v1() {
    let request_header_bytes: Vec<u8> = vec![
        0, 18, 0, 3, 0, 0, 0, 0, 0, 10, 112, 114, 111, 100, 117, 99, 101, 114, 45, 49,
    ];

    let deserialized_request_header =
        RequestHeaderV1::from_kafka_bytes(&mut &*request_header_bytes).unwrap();
    let expected_request_header: RequestHeaderV1 = RequestHeaderV1 {
        request_api_key: ApiKey::ApiVersions,
        request_api_version: 3,
        correlation_id: 0,
        client_id: NullableString(Some(String::from("producer-1"))),
    };
    println!("deserialized_request_header: {:?}", deserialized_request_header);

    assert_eq!(deserialized_request_header, expected_request_header);
}

#[test]
fn test_request_header_v2() {
    let request_header_bytes: Vec<u8> = vec![
        0, 18, 0, 3, 0, 0, 0, 0, 0, 10, 112, 114, 111, 100, 117, 99, 101, 114, 45, 49, 0,
    ];

    let deserialized_request_header =
        RequestHeaderV2::from_kafka_bytes(&mut &*request_header_bytes).unwrap();
    let expected_request_header: RequestHeaderV2 = RequestHeaderV2 {
        request_api_key: ApiKey::ApiVersions,
        request_api_version: 3,
        correlation_id: 0,
        client_id: NullableString(Some(String::from("producer-1"))),
        tag_buffer: TaggedFields { tags: VarArray(Vec::new()) },
    };
    println!("deserialized_request_header: {:?}", deserialized_request_header);

    assert_eq!(deserialized_request_header, expected_request_header);
}

#[test]
fn test_stuff() {
    let request_bytes = api_versions_request_bytes();
    let mut request_reader: &[u8] = &request_bytes;
    let length: i32 = i32::from_kafka_bytes(&mut request_reader).unwrap();
    let request_header: RequestHeaderV2 =
        RequestHeaderV2::from_kafka_bytes(&mut request_reader).unwrap();
    println!("length: {:?}, request_header: {:?}", length, request_header);
    let request: ApiVersionsRequestV3 =
        ApiVersionsRequestV3::from_kafka_bytes(&mut request_reader).unwrap();
    println!("request: {:?}", request);
    assert_eq!(length, 46);
    assert_eq!(request.client_software_version, CompactString(String::from("3.3.1")));

    let response_bytes = api_versions_response_bytes();
    let mut response_reader: &[u8] = &response_bytes;
    println!("bytes remaining: {:?}", response_reader.len());
    let response_header: ResponseHeaderV1 =
        ResponseHeaderV1::from_kafka_bytes(&mut response_reader).unwrap();
    println!("response_header: {:?}", response_header);
    println!("bytes remaining: {:?}", response_reader.len());
    let response: ApiVersionsResponseV3 =
        ApiVersionsResponseV3::from_kafka_bytes(&mut response_reader).unwrap();
    println!("response: {:?}", response);
    assert_eq!(response.api_keys.0.len(), 59);
    assert_eq!(response.tag_buffer.finalized_features_epoch, Some(0));
}

#[test]
fn test_serialization_stuff() {
    let request_header: RequestHeaderV2 = RequestHeaderV2 {
        request_api_key: ApiKey::JoinGroup,
        request_api_version: 3,
        correlation_id: 7,
        client_id: NullableString(Some(String::from("lol"))),
        tag_buffer: TaggedFields { tags: VarArray(Vec::new()) },
    };
    let api_versions_request = ApiVersionsRequestV3 {
        client_software_name: CompactString(String::from("lol")),
        client_software_version: CompactString(String::from("lol")),
        tag_buffer: TaggedFields { tags: VarArray(Vec::new()) },
    };
    let mut written: Vec<u8> = Vec::new();
    request_header.to_kafka_bytes(&mut written).unwrap();
    api_versions_request.to_kafka_bytes(&mut written).unwrap();
    assert_eq!(
        written,
        vec![
            0, 11, 0, 3, 0, 0, 0, 7, 0, 3, 108, 111, 108, 0, 4, 108, 111, 108, 4, 108, 111, 108,
            0
        ]
    );
}

#[test]
fn test_encode_request() {
    let request_header: RequestHeaderV2 = RequestHeaderV2 {
        request_api_key: ApiKey::ApiVersions,
        request_api_version: 3,
        correlation_id: 0,
        client_id: NullableString(Some(String::from("producer-1"))),
        tag_buffer: TaggedFields { tags: VarArray(Vec::new()) },
    };
    let request_body: ApiVersionsRequestV3 = ApiVersionsRequestV3 {
        client_software_name: CompactString(String::from("apache-kafka-java")),
        client_software_version: CompactString(String::from("3.3.1")),
        tag_buffer: TaggedFields { tags: VarArray(Vec::new()) },
    };
    let request: PairWithI32EncodedSize<RequestHeaderV2, ApiVersionsRequestV3> =
        PairWithI32EncodedSize(request_header, request_body);

    let mut writer: Vec<u8> = Vec::new();
    request.to_kafka_bytes(&mut writer).unwrap();
    assert_eq!(
        writer,
        vec![
            0, 0, 0, 46, 0, 18, 0, 3, 0, 0, 0, 0, 0, 10, 112, 114, 111, 100, 117, 99, 101, 114,
            45, 49, 0, 18, 97, 112, 97, 99, 104, 101, 45, 107, 97, 102, 107, 97, 45, 106, 97, 118,
            97, 6, 51, 46, 51, 46, 49, 0
        ]
    );
}

#[test]
fn test_decode_request() {
    let bytes: Vec<u8> = vec![
        0, 0, 0, 46, 0, 18, 0, 3, 0, 0, 0, 0, 0, 10, 112, 114, 111, 100, 117, 99, 101, 114, 45,
        49, 0, 18, 97, 112, 97, 99, 104, 101, 45, 107, 97, 102, 107, 97, 45, 106, 97, 118, 97, 6,
        51, 46, 51, 46, 49, 0,
    ];
    let mut reader: &[u8] = &bytes;

    let request =
        PairWithI32EncodedSize::<RequestHeaderV2, ApiVersionsRequestV3>::from_kafka_bytes(
            &mut reader,
        )
        .unwrap();
    assert_eq!(
        request.0,
        RequestHeaderV2 {
            request_api_key: ApiKey::ApiVersions,
            request_api_version: 3,
            correlation_id: 0,
            client_id: NullableString(Some(String::from("producer-1"))),
            tag_buffer: TaggedFields { tags: VarArray(Vec::new()) },
        }
    );
    assert_eq!(
        request.1,
        ApiVersionsRequestV3 {
            client_software_name: CompactString(String::from("apache-kafka-java")),
            client_software_version: CompactString(String::from("3.3.1")),
            tag_buffer: TaggedFields { tags: VarArray(Vec::new()) },
        }
    );
}

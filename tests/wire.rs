use the_collector::ipc::{decode_query, encode_query, IpcError, IPC_SUMMONER_MATCH_PATH};
use the_collector::model::SummonerMatchQuery;

#[test]
fn test_pub_sub() {
    let sent_message = SummonerMatchQuery { puuid: "puuid".into(), match_id: "match_id".into() };
    let bytes = encode_query(&sent_message);
    let received_message = decode_query(&bytes).unwrap();
    assert_eq!(received_message.puuid, sent_message.puuid);
    assert_eq!(received_message.match_id, sent_message.match_id);
    assert_eq!(IPC_SUMMONER_MATCH_PATH, "ipc:///tmp/int.ipc");
}

#[test]
fn wire_bytes_are_length_prefixed_frames() {
    let q = SummonerMatchQuery { puuid: "ab".into(), match_id: "é".into() };
    let bytes = encode_query(&q);
    assert_eq!(bytes, vec![2, 0, 0, 0, 0, 0, 0, 0, b'a', b'b', 2, 0, 0, 0, 0, 0, 0, 0, 0xc3, 0xa9]);
}

#[test]
fn round_trip_keeps_non_ascii_and_empty_text() {
    let q = SummonerMatchQuery { puuid: "".into(), match_id: "日本_1".into() };
    let back = decode_query(&encode_query(&q)).unwrap();
    assert_eq!(back.puuid, "");
    assert_eq!(back.match_id, "日本_1");
}

#[test]
fn malformed_payloads_are_rejected() {
    let q = SummonerMatchQuery { puuid: "p".into(), match_id: "m".into() };
    let mut bytes = encode_query(&q);
    assert_eq!(decode_query(&bytes[..bytes.len() - 1].to_vec()).unwrap_err(), IpcError::Malformed);
    bytes.push(0);
    assert_eq!(decode_query(&bytes).unwrap_err(), IpcError::Malformed);
    assert_eq!(decode_query(&Vec::new()).unwrap_err(), IpcError::Malformed);
    let invalid = vec![1, 0, 0, 0, 0, 0, 0, 0, 0xff, 0, 0, 0, 0, 0, 0, 0, 0];
    assert_eq!(decode_query(&invalid).unwrap_err(), IpcError::Malformed);
    let too_long = vec![0xff, 0xff, 0xff, 0xff, 0xff, 0xff, 0xff, 0xff, 1];
    assert_eq!(decode_query(&too_long).unwrap_err(), IpcError::Malformed);
}

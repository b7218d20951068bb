use knapsack_jobs::queue::{
    publish_problem, read_payload, PayloadError, AMQP_EXCHANGE, AMQP_QUEUE_NAME,
};

#[test]
fn announcements_go_to_the_default_exchange_and_the_problem_queue() {
    assert_eq!(AMQP_EXCHANGE, "");
    assert_eq!(AMQP_QUEUE_NAME, "problem_submitted");
    let publication = publish_problem(&1);
    assert_eq!(publication.exchange, "");
    assert_eq!(publication.routing_key, "problem_submitted");
}

#[test]
fn the_payload_is_the_hyphenated_identifier() {
    let id = 0x550e8400_e29b_41d4_a716_446655440000u128;
    let publication = publish_problem(&id);
    assert_eq!(publication.payload, b"550e8400-e29b-41d4-a716-446655440000".to_vec());
}

#[test]
fn the_payload_is_lower_case_and_padded() {
    let publication = publish_problem(&0xABCDEF);
    assert_eq!(publication.payload, b"00000000-0000-0000-0000-000000abcdef".to_vec());
    let publication = publish_problem(&u128::MAX);
    assert_eq!(publication.payload, b"ffffffff-ffff-ffff-ffff-ffffffffffff".to_vec());
}

#[test]
fn read_payload_reads_an_identifier() {
    assert_eq!(
        read_payload(b"550e8400-e29b-41d4-a716-446655440000"),
        Ok(0x550e8400_e29b_41d4_a716_446655440000)
    );
}

#[test]
fn read_payload_reads_what_was_published() {
    for id in [0u128, 1, 0xABCDEF, u128::MAX, 0x550e8400_e29b_41d4_a716_446655440000] {
        assert_eq!(read_payload(&publish_problem(&id).payload), Ok(id));
    }
}

#[test]
fn read_payload_refuses_bytes_that_are_not_utf8() {
    assert_eq!(read_payload(&[0xff, 0xfe]), Err(PayloadError::NotUtf8));
    assert_eq!(read_payload(&[0xc3]), Err(PayloadError::NotUtf8));
}

#[test]
fn read_payload_refuses_a_text_that_is_no_identifier() {
    assert_eq!(read_payload(b"hello"), Err(PayloadError::NotAnId));
    assert_eq!(read_payload(b""), Err(PayloadError::NotAnId));
    assert_eq!(
        read_payload(b"550e8400-e29b-41d4-a716-44665544000g"),
        Err(PayloadError::NotAnId)
    );
}

#[test]
fn payload_error_messages() {
    assert_eq!(PayloadError::NotUtf8.message(), "the payload is not UTF-8");
    assert_eq!(PayloadError::NotAnId.message(), "the payload is not an identifier");
}

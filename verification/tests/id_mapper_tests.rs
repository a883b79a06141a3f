use roslyn_proxy::id_mapper::IdMapper;
use roslyn_proxy::message::MessageId;

#[test]
fn test_id_mapping_roundtrip() {
    let mut mapper = IdMapper::new();

    let client_id = MessageId::Number(42);
    let server_id = mapper.map_client_id(client_id.dup());

    assert!(!client_id.eq_id(&server_id));

    let retrieved_client_id = mapper.get_client_id(&server_id).unwrap();
    assert!(client_id.eq_id(&retrieved_client_id));
}

#[test]
fn test_id_mapping_consistency() {
    let mut mapper = IdMapper::new();

    let client_id = MessageId::String("test-123".to_string());
    let server_id_1 = mapper.map_client_id(client_id.dup());
    let server_id_2 = mapper.map_client_id(client_id.dup());

    assert!(server_id_1.eq_id(&server_id_2));
}

#[test]
fn test_id_removal() {
    let mut mapper = IdMapper::new();

    let client_id = MessageId::Number(100);
    let server_id = mapper.map_client_id(client_id.dup());

    mapper.remove(&server_id);

    assert!(mapper.get_client_id(&server_id).is_none());
}

#[test]
fn test_unique_server_ids() {
    let mut mapper = IdMapper::new();

    let client_id_1 = MessageId::Number(1);
    let client_id_2 = MessageId::Number(2);

    let server_id_1 = mapper.map_client_id(client_id_1);
    let server_id_2 = mapper.map_client_id(client_id_2);

    assert!(!server_id_1.eq_id(&server_id_2));
}

#[test]
fn test_server_ids_allocated_serially() {
    let mut mapper = IdMapper::new();

    let s1 = mapper.map_client_id(MessageId::Number(7));
    let s2 = mapper.map_client_id(MessageId::String("x".to_string()));

    assert!(matches!(s1, MessageId::Number(1)));
    assert!(matches!(s2, MessageId::Number(2)));
}

#[test]
fn test_removal_is_idempotent() {
    let mut mapper = IdMapper::new();

    let server_id = mapper.map_client_id(MessageId::Number(5));
    mapper.remove(&server_id);
    mapper.remove(&server_id);

    assert!(mapper.get_client_id(&server_id).is_none());
}

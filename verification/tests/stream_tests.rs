use ollama_client::message::{decode, Outcome};
use ollama_client::request::GenerationRequest;
use ollama_client::stream::{assemble, Accumulator, ClientError, Session, StreamEnd};
use ollama_client::client::{ConfigError, OllamaClient, OllamaConfig};
use ollama_client::framing::FramedSession;

fn partial_chunk(created_at: &str, response: &str) -> Vec<u8> {
    format!(
        "{{\"model\":\"codellama\",\"created_at\":\"{}\",\"response\":\"{}\",\"done\":false}}\n",
        created_at, response
    )
    .into_bytes()
}

fn terminal_chunk() -> Vec<u8> {
    let body = "{\"model\":\"codellama\",\"created_at\":\"2023-09-02T03:34:05.724325Z\",\
\"done\":true,\"context\":[1,2],\"total_duration\":6977083666,\
\"load_duration\":1343208,\"sample_count\":294,\"sample_duration\":207196000,\
\"prompt_eval_count\":10,\"prompt_eval_duration\":1482070000,\
\"eval_count\":293,\"eval_duration\":5264659000}\n";
    body.as_bytes().to_vec()
}

#[test]
fn decode_partial_message() {
    let chunk = partial_chunk("t1", " for");
    match decode(&chunk) {
        Outcome::Partial(m) => {
            assert_eq!(m.model, b"codellama".to_vec());
            assert_eq!(m.created_at, b"t1".to_vec());
            assert_eq!(m.response, b" for".to_vec());
            assert!(!m.done);
        }
        other => panic!("expected a partial message, got {:?}", other),
    }
}

#[test]
fn decode_terminal_message() {
    match decode(&terminal_chunk()) {
        Outcome::Terminal(m) => {
            assert_eq!(m.model, b"codellama".to_vec());
            assert!(m.done);
            assert_eq!(m.context, vec![1, 2]);
            assert_eq!(m.total_duration, 6977083666);
            assert_eq!(m.load_duration, 1343208);
            assert_eq!(m.sample_count, 294);
            assert_eq!(m.sample_duration, 207196000);
            assert_eq!(m.prompt_eval_count, 10);
            assert_eq!(m.prompt_eval_duration, 1482070000);
            assert_eq!(m.eval_count, 293);
            assert_eq!(m.eval_duration, 5264659000);
        }
        other => panic!("expected the terminal message, got {:?}", other),
    }
}

#[test]
fn decode_is_idempotent() {
    let chunks = vec![
        partial_chunk("t1", "hello"),
        terminal_chunk(),
        b"not json at all".to_vec(),
        b"{\"model\":\"m\",\"created_at\":\"t\",\"resp".to_vec(),
    ];
    for chunk in &chunks {
        assert_eq!(decode(chunk), decode(chunk));
    }
}

#[test]
fn decode_rejects_fragments_and_noise() {
    assert!(matches!(decode(b""), Outcome::Unrecognized));
    assert!(matches!(decode(b"not json at all"), Outcome::Unrecognized));
    assert!(matches!(
        decode(b"{\"model\":\"codellama\",\"created_at\":\"t1\",\"respo"),
        Outcome::Unrecognized
    ));
    assert!(matches!(
        decode(b"llama\",\"done\":false}"),
        Outcome::Unrecognized
    ));
    // a recognized object followed by trailing bytes is not one object
    let mut chunk = partial_chunk("t1", "x");
    chunk.extend_from_slice(b"garbage");
    assert!(matches!(decode(&chunk), Outcome::Unrecognized));
    // a field of the wrong type
    assert!(matches!(
        decode(b"{\"model\":\"m\",\"created_at\":\"t\",\"response\":7,\"done\":false}"),
        Outcome::Unrecognized
    ));
    // done missing
    assert!(matches!(
        decode(b"{\"model\":\"m\",\"created_at\":\"t\",\"response\":\"x\"}"),
        Outcome::Unrecognized
    ));
}

#[test]
fn decode_unescapes_string_content() {
    let chunk = b"{\"model\":\"m\",\"created_at\":\"t\",\"response\":\"a\\\"b\\\\c\\nd\\te\",\"done\":false}";
    match decode(chunk) {
        Outcome::Partial(m) => assert_eq!(m.response, b"a\"b\\c\nd\te".to_vec()),
        other => panic!("expected a partial message, got {:?}", other),
    }
}

#[test]
fn decode_tolerates_surrounding_whitespace() {
    let chunk = b" \t\r\n{ \"model\" : \"m\" , \"created_at\" : \"t\" , \"response\" : \"ok\" , \"done\" : false } \n";
    match decode(chunk) {
        Outcome::Partial(m) => assert_eq!(m.response, b"ok".to_vec()),
        other => panic!("expected a partial message, got {:?}", other),
    }
}

#[test]
fn decode_covers_the_whole_i64_range() {
    let ok = b"{\"model\":\"m\",\"created_at\":\"t\",\"done\":true,\"context\":[],\
\"total_duration\":9223372036854775807,\"load_duration\":-9223372036854775808,\
\"sample_count\":0,\"sample_duration\":1,\"prompt_eval_count\":1,\
\"prompt_eval_duration\":1,\"eval_count\":1,\"eval_duration\":1}";
    match decode(ok) {
        Outcome::Terminal(m) => {
            assert_eq!(m.total_duration, i64::MAX);
            assert_eq!(m.load_duration, i64::MIN);
            assert_eq!(m.context, Vec::<i64>::new());
        }
        other => panic!("expected the terminal message, got {:?}", other),
    }
    // one past i64::MAX is not a message integer; the chunk is still a
    // well-formed object, so the field is carried shapeless and the message
    // shape check fails
    let over = b"{\"model\":\"m\",\"created_at\":\"t\",\"done\":true,\"context\":[],\
\"total_duration\":9223372036854775808,\"load_duration\":1,\"sample_count\":0,\
\"sample_duration\":1,\"prompt_eval_count\":1,\"prompt_eval_duration\":1,\
\"eval_count\":1,\"eval_duration\":1}";
    assert!(matches!(decode(over), Outcome::Unrecognized));
}

#[test]
fn decode_rejects_leading_zeros() {
    assert!(matches!(
        decode(b"{\"model\":\"m\",\"created_at\":\"t\",\"done\":true,\"context\":[],\
\"total_duration\":007,\"load_duration\":1,\"sample_count\":0,\
\"sample_duration\":1,\"prompt_eval_count\":1,\"prompt_eval_duration\":1,\
\"eval_count\":1,\"eval_duration\":1}"),
        Outcome::Unrecognized
    ));
    // a plain zero and a negative zero are fine
    match decode(b"{\"model\":\"m\",\"created_at\":\"t\",\"done\":true,\"context\":[0],\
\"total_duration\":0,\"load_duration\":-0,\"sample_count\":0,\
\"sample_duration\":1,\"prompt_eval_count\":1,\"prompt_eval_duration\":1,\
\"eval_count\":1,\"eval_duration\":1}") {
        Outcome::Terminal(m) => {
            assert_eq!(m.total_duration, 0);
            assert_eq!(m.load_duration, 0);
            assert_eq!(m.context, vec![0]);
        }
        other => panic!("expected the terminal message, got {:?}", other),
    }
}

#[test]
fn decode_unicode_escapes() {
    // an escaped ampersand, as common JSON encoders emit it
    let chunk = b"{\"model\":\"m\",\"created_at\":\"t\",\"response\":\"a \\u0026 b\",\"done\":false}";
    match decode(chunk) {
        Outcome::Partial(m) => assert_eq!(m.response, b"a & b".to_vec()),
        other => panic!("expected a partial message, got {:?}", other),
    }
    // two- and three-byte code points, and a surrogate pair
    let wide = b"{\"model\":\"m\",\"created_at\":\"t\",\
\"response\":\"\\u00e9\\u20ac\\ud83d\\ude00\",\"done\":false}";
    match decode(wide) {
        Outcome::Partial(m) => {
            assert_eq!(m.response, b"\xc3\xa9\xe2\x82\xac\xf0\x9f\x98\x80".to_vec())
        }
        other => panic!("expected a partial message, got {:?}", other),
    }
    // a lone surrogate and a bad hex digit are refused
    assert!(matches!(
        decode(b"{\"model\":\"m\",\"created_at\":\"t\",\"response\":\"\\ud83d\",\"done\":false}"),
        Outcome::Unrecognized
    ));
    assert!(matches!(
        decode(b"{\"model\":\"m\",\"created_at\":\"t\",\"response\":\"\\u12g4\",\"done\":false}"),
        Outcome::Unrecognized
    ));
}

#[test]
fn assemble_concatenates_in_order() {
    let chunks = vec![
        partial_chunk("t1", " for"),
        partial_chunk("t2", " loop"),
        terminal_chunk(),
    ];
    let text = assemble(&chunks, StreamEnd::Closed).unwrap();
    assert_eq!(text, b" for loop".to_vec());
}

#[test]
fn assemble_terminal_only_is_empty_success() {
    let chunks = vec![terminal_chunk()];
    let text = assemble(&chunks, StreamEnd::Closed).unwrap();
    assert_eq!(text, Vec::<u8>::new());
}

#[test]
fn assemble_zero_chunks_is_empty_response() {
    let chunks: Vec<Vec<u8>> = Vec::new();
    assert_eq!(
        assemble(&chunks, StreamEnd::Closed),
        Err(ClientError::EmptyResponse)
    );
}

#[test]
fn assemble_interrupted_discards_partial_text() {
    let chunks = vec![partial_chunk("t1", " for"), partial_chunk("t2", " loop")];
    assert_eq!(
        assemble(&chunks, StreamEnd::Interrupted),
        Err(ClientError::TransportError)
    );
}

#[test]
fn assemble_skips_malformed_fragments() {
    let clean = vec![
        partial_chunk("t1", " for"),
        partial_chunk("t2", " loop"),
        terminal_chunk(),
    ];
    let noisy = vec![
        b"{\"mod".to_vec(),
        partial_chunk("t1", " for"),
        b"el\":\"code".to_vec(),
        partial_chunk("t2", " loop"),
        b"\x00\x01\x02".to_vec(),
        terminal_chunk(),
    ];
    assert_eq!(
        assemble(&clean, StreamEnd::Closed).unwrap(),
        assemble(&noisy, StreamEnd::Closed).unwrap()
    );
}

#[test]
fn assemble_freezes_text_at_terminal() {
    let chunks = vec![
        partial_chunk("t1", "a"),
        terminal_chunk(),
        partial_chunk("t2", "b"),
    ];
    let text = assemble(&chunks, StreamEnd::Closed).unwrap();
    assert_eq!(text, b"a".to_vec());
}

#[test]
fn session_reports_done_at_terminal() {
    let mut session = Session::new();
    assert!(!session.on_chunk(&partial_chunk("t1", "Hi")));
    assert!(!session.on_chunk(b"noise"));
    assert!(!session.on_chunk(&partial_chunk("t2", " there")));
    assert!(session.on_chunk(&terminal_chunk()));
    let text = session.on_end(StreamEnd::Closed).unwrap();
    assert_eq!(text, b"Hi there".to_vec());
}

#[test]
fn session_interrupted_is_transport_error() {
    let mut session = Session::new();
    session.on_chunk(&partial_chunk("t1", "Hi"));
    assert_eq!(
        session.on_end(StreamEnd::Interrupted),
        Err(ClientError::TransportError)
    );
}

#[test]
fn accumulator_appends_verbatim() {
    let mut acc = Accumulator::new();
    assert!(!acc.ingest(&decode(&partial_chunk("t1", "a "))));
    assert!(!acc.ingest(&decode(b"???")));
    assert!(!acc.ingest(&decode(&partial_chunk("t2", "b"))));
    assert!(acc.ingest(&decode(&terminal_chunk())));
    // after the terminal message nothing is appended
    assert!(acc.ingest(&decode(&partial_chunk("t3", "c"))));
    assert_eq!(acc.finish(), b"a b".to_vec());
}

#[test]
fn request_body_is_exact() {
    let req = GenerationRequest::new(b"codellama".to_vec(), b"foo bar".to_vec());
    assert_eq!(
        req.encode(),
        b"{\"model\":\"codellama\",\"prompt\":\"foo bar\"}".to_vec()
    );
}

#[test]
fn request_body_escapes_content() {
    let req = GenerationRequest::new(b"m".to_vec(), b"a\"b\\c\nd\x01".to_vec());
    assert_eq!(
        req.encode(),
        b"{\"model\":\"m\",\"prompt\":\"a\\\"b\\\\c\\nd\\u0001\"}".to_vec()
    );
}

#[test]
fn request_prompt_may_be_empty() {
    let req = GenerationRequest::new(b"m".to_vec(), Vec::new());
    assert_eq!(req.encode(), b"{\"model\":\"m\",\"prompt\":\"\"}".to_vec());
}

#[test]
fn client_rejects_empty_configuration() {
    let bad_model = OllamaConfig {
        api_base: b"http://localhost:11434".to_vec(),
        default_model: Vec::new(),
    };
    assert!(matches!(OllamaClient::new(bad_model), Err(ConfigError::EmptyModel)));
    let bad_base = OllamaConfig {
        api_base: Vec::new(),
        default_model: b"codellama".to_vec(),
    };
    assert!(matches!(OllamaClient::new(bad_base), Err(ConfigError::EmptyApiBase)));
}

#[test]
fn client_builds_the_request_payload() {
    let config = OllamaConfig {
        api_base: b"http://localhost:11434".to_vec(),
        default_model: b"codellama".to_vec(),
    };
    let client = OllamaClient::new(config).unwrap();
    assert_eq!(client.api_base_bytes(), &b"http://localhost:11434".to_vec());
    assert_eq!(
        client.generate_endpoint(),
        b"http://localhost:11434/api/generate".to_vec()
    );
    assert_eq!(
        client.request_body(b"Hi there! "),
        b"{\"model\":\"codellama\",\"prompt\":\"Hi there! \"}".to_vec()
    );
}

#[test]
fn decode_rejects_duplicate_keys() {
    let chunk = b"{\"model\":\"m\",\"created_at\":\"t\",\"response\":\"first\",\"response\":\"second\",\"done\":false}";
    assert!(matches!(decode(chunk), Outcome::Unrecognized));
}

#[test]
fn decode_tolerates_unknown_fields_of_any_shape() {
    let chunk = b"{\"model\":\"m\",\"created_at\":\"t\",\"response\":\"ok\",\"done\":false,\
\"x\":null,\"y\":1.5e3,\"z\":{\"a\":[true,\"s\"]},\"w\":[1,2.5]}";
    match decode(chunk) {
        Outcome::Partial(m) => assert_eq!(m.response, b"ok".to_vec()),
        other => panic!("expected a partial message, got {:?}", other),
    }
    // a named field of a skippable shape is still not the message shape
    assert!(matches!(
        decode(b"{\"model\":\"m\",\"created_at\":\"t\",\"response\":\"ok\",\"done\":null}"),
        Outcome::Unrecognized
    ));
}

#[test]
fn test_basic() {
    let config = OllamaConfig {
        api_base: b"http://localhost:11434".to_vec(),
        default_model: b"codellama".to_vec(),
    };
    let client = OllamaClient::new(config).unwrap();
    assert_eq!(
        client.request_body(b"Hi there! "),
        b"{\"model\":\"codellama\",\"prompt\":\"Hi there! \"}".to_vec()
    );
    let mut session = Session::new();
    assert!(!session.on_chunk(&partial_chunk("t1", "foo ")));
    assert!(!session.on_chunk(&partial_chunk("t2", "bar")));
    assert!(session.on_chunk(&terminal_chunk()));
    assert_eq!(session.on_end(StreamEnd::Closed).unwrap(), b"foo bar".to_vec());
}

#[test]
fn decode_rejects_values_outside_the_grammar() {
    // a nested object and a null are not value shapes of these messages
    assert!(matches!(
        decode(b"{\"model\":\"m\",\"created_at\":\"t\",\"response\":{\"x\":1},\"done\":false}"),
        Outcome::Unrecognized
    ));
    assert!(matches!(
        decode(b"{\"model\":\"m\",\"created_at\":\"t\",\"response\":null,\"done\":false}"),
        Outcome::Unrecognized
    ));
    // an unknown extra field of a supported shape is tolerated
    match decode(b"{\"model\":\"m\",\"created_at\":\"t\",\"response\":\"ok\",\"done\":false,\"extra\":[7]}") {
        Outcome::Partial(m) => assert_eq!(m.response, b"ok".to_vec()),
        other => panic!("expected a partial message, got {:?}", other),
    }
}

#[test]
fn framed_session_reassembles_split_messages() {
    let mut all: Vec<u8> = Vec::new();
    all.extend_from_slice(&partial_chunk("t1", " for"));
    all.extend_from_slice(&partial_chunk("t2", " loop"));
    all.extend_from_slice(&terminal_chunk());
    // feed reads that cut straight through the middle of messages
    let mut session = FramedSession::new();
    for piece in all.chunks(7) {
        session.on_bytes(piece);
    }
    assert_eq!(
        session.on_end(StreamEnd::Closed).unwrap(),
        b" for loop".to_vec()
    );
    // the same bytes in one single read give the same answer
    let mut one = FramedSession::new();
    assert!(one.on_bytes(&all));
    assert_eq!(one.on_end(StreamEnd::Closed).unwrap(), b" for loop".to_vec());
}

#[test]
fn framed_session_drops_bytes_that_open_no_object() {
    let mut session = FramedSession::new();
    session.on_bytes(b"noise without braces ");
    session.on_bytes(&partial_chunk("t1", "a"));
    session.on_bytes(b"more noise");
    session.on_bytes(&partial_chunk("t2", "b"));
    assert!(session.on_bytes(&terminal_chunk()));
    assert_eq!(session.on_end(StreamEnd::Closed).unwrap(), b"ab".to_vec());
}

#[test]
fn framed_session_discards_an_incomplete_trailing_fragment() {
    let mut session = FramedSession::new();
    session.on_bytes(&partial_chunk("t1", "a"));
    session.on_bytes(b"{\"model\":\"m\",\"created_at\":\"t\",\"resp");
    assert_eq!(session.on_end(StreamEnd::Closed).unwrap(), b"a".to_vec());
}

#[test]
fn framed_session_without_a_whole_message_is_empty_response() {
    assert_eq!(
        FramedSession::new().on_end(StreamEnd::Closed),
        Err(ClientError::EmptyResponse)
    );
    let mut ws_only = FramedSession::new();
    ws_only.on_bytes(b"  \n\t ");
    assert_eq!(
        ws_only.on_end(StreamEnd::Closed),
        Err(ClientError::EmptyResponse)
    );
    let mut broken = FramedSession::new();
    broken.on_bytes(&partial_chunk("t1", "a"));
    assert_eq!(
        broken.on_end(StreamEnd::Interrupted),
        Err(ClientError::TransportError)
    );
}

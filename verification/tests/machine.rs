use client_hello_sni::error::SniError;
use client_hello_sni::extractor::Event;
use client_hello_sni::extractor::Extractor;
use client_hello_sni::extractor::Phase;
use client_hello_sni::extractor::Progress;
use client_hello_sni::extractor::Request;
use client_hello_sni::read_sni_host_name_from_client_hello;
use client_hello_sni::reader::SliceReader;

fn pending(progress: Progress) -> Extractor {
    match progress {
        Progress::Pending(machine) => machine,
        Progress::Finished(result) => panic!("finished with {:?}", result),
    }
}

fn finished(progress: Progress) -> Result<String, SniError> {
    match progress {
        Progress::Finished(result) => result,
        Progress::Pending(machine) => panic!("still waiting: {:?}", machine),
    }
}

/// Feeds the machine from `bytes`, never handing over more than `chunk`
/// would allow a stream to hold back: the stream ends where `bytes` end.
fn drive(bytes: &[u8]) -> (Result<String, SniError>, usize, Vec<Request>) {
    let mut machine = Extractor::new();
    let mut pos = 0usize;
    let mut asked = Vec::new();
    loop {
        let request = machine.request();
        asked.push(request);
        let left = (bytes.len() - pos) as u64;
        let event = match request {
            Request::Read(len) => {
                let take = len.min(left) as usize;
                Event::Data(bytes[pos..pos + take].to_vec())
            }
            Request::Skip(len) => Event::Skipped(len.min(left)),
        };
        assert!(event.is_answer_to(request));
        pos += match &event {
            Event::Data(data) => data.len(),
            Event::Skipped(count) => *count as usize,
        };
        match machine.advance(event) {
            Progress::Finished(result) => return (result, pos, asked),
            Progress::Pending(next) => machine = next,
        }
    }
}

fn sample_hello() -> Vec<u8> {
    let mut bytes = vec![1, 0, 0, 0];
    bytes.extend_from_slice(&[0; 34]);
    bytes.extend_from_slice(&[2, 0xaa, 0xbb]); // session id
    bytes.extend_from_slice(&[0, 2, 0x13, 0x01]); // cipher suites
    bytes.extend_from_slice(&[1, 0]); // compression methods
    let extensions: Vec<u8> = vec![
        0x00, 0x0a, 0x00, 0x02, 0x00, 0x17, // another extension
        0x00, 0x00, 0x00, 0x0e, // server name indication
        0x00, 0x0c, // server name list
        0x05, 0x00, 0x01, b'x', // an entry of another type
        0x00, 0x00, 0x05, b'a', b'.', b'b', b'.', b'c', // the host name
    ];
    bytes.extend_from_slice(&[0, extensions.len() as u8]);
    bytes.extend_from_slice(&extensions);
    bytes[3] = (bytes.len() - 4) as u8;
    bytes
}

#[test]
fn new_machine_waits_for_the_message_type() {
    let machine = Extractor::new();
    assert_eq!(machine, Extractor { phase: Phase::MessageType, budget: None });
    assert_eq!(machine.request(), Request::Read(1));
}

#[test]
fn machine_asks_for_each_field_in_turn() {
    let bytes = sample_hello();
    let (result, consumed, asked) = drive(&bytes);
    assert_eq!(result, Ok("a.b.c".to_string()));
    assert_eq!(consumed, bytes.len());
    assert_eq!(
        asked,
        vec![
            Request::Read(1),
            Request::Read(3),
            Request::Skip(34),
            Request::Read(1),
            Request::Skip(2),
            Request::Read(2),
            Request::Skip(2),
            Request::Read(1),
            Request::Skip(1),
            Request::Read(2),
            Request::Read(2),
            Request::Read(2),
            Request::Skip(2),
            Request::Read(2),
            Request::Read(2),
            Request::Read(2),
            Request::Read(1),
            Request::Read(2),
            Request::Skip(1),
            Request::Read(1),
            Request::Read(2),
            Request::Read(5),
        ]
    );
}

#[test]
fn machine_and_reader_agree() {
    let whole = sample_hello();
    let mut inputs: Vec<Vec<u8>> = (0..=whole.len()).map(|cut| whole[..cut].to_vec()).collect();
    for at in 0..whole.len() {
        let mut changed = whole.clone();
        changed[at] ^= 0x01;
        inputs.push(changed);
        let mut larger = whole.clone();
        larger[at] = larger[at].wrapping_add(3);
        inputs.push(larger);
    }
    for bytes in inputs {
        let (by_hand, consumed, _) = drive(&bytes);
        let mut reader = SliceReader::new(&bytes);
        let by_reader = read_sni_host_name_from_client_hello(&mut reader);
        assert_eq!(by_hand, by_reader);
        assert_eq!(consumed, reader.position());
    }
}

#[test]
fn body_length_sets_the_budget() {
    let machine = pending(Extractor::new().advance(Event::Data(vec![1])));
    assert_eq!(machine, Extractor { phase: Phase::BodyLength, budget: None });
    let machine = pending(machine.advance(Event::Data(vec![0x01, 0x02, 0x03])));
    assert_eq!(machine, Extractor { phase: Phase::VersionAndRandom, budget: Some(0x010203) });
    assert_eq!(machine.request(), Request::Skip(34));
    let machine = pending(machine.advance(Event::Skipped(34)));
    assert_eq!(machine, Extractor { phase: Phase::SessionIdLength, budget: Some(0x010203 - 34) });
}

#[test]
fn request_is_cut_to_the_budget() {
    let machine = Extractor { phase: Phase::VersionAndRandom, budget: Some(10) };
    assert_eq!(machine.request(), Request::Skip(10));
    let result = finished(machine.advance(Event::Skipped(10)));
    assert_eq!(result, Err(SniError::Truncated { requested: 34, available: 10 }));

    let machine = Extractor { phase: Phase::HostName { len: 300 }, budget: Some(7) };
    assert_eq!(machine.request(), Request::Read(7));
    let result = finished(machine.advance(Event::Data(b"example".to_vec())));
    assert_eq!(result, Err(SniError::Truncated { requested: 300, available: 7 }));

    let machine = Extractor { phase: Phase::ExtensionType, budget: Some(0) };
    assert_eq!(machine.request(), Request::Read(0));
    let result = finished(machine.advance(Event::Data(Vec::new())));
    assert_eq!(result, Err(SniError::Truncated { requested: 2, available: 0 }));
}

#[test]
fn declared_length_never_widens_the_budget() {
    let machine = Extractor { phase: Phase::ExtensionsLength, budget: Some(12) };
    let machine = pending(machine.advance(Event::Data(vec![0xff, 0xff])));
    assert_eq!(machine, Extractor { phase: Phase::ExtensionType, budget: Some(10) });

    let machine = Extractor { phase: Phase::ExtensionLength { typ: 0 }, budget: Some(12) };
    let machine = pending(machine.advance(Event::Data(vec![0x01, 0x00])));
    assert_eq!(machine, Extractor { phase: Phase::ServerNameListLength, budget: Some(10) });

    let machine = pending(machine.advance(Event::Data(vec![0x00, 0x10])));
    assert_eq!(machine, Extractor { phase: Phase::NameType, budget: Some(8) });

    let machine = Extractor { phase: Phase::HostNameLength, budget: Some(12) };
    let machine = pending(machine.advance(Event::Data(vec![0x00, 0x20])));
    assert_eq!(machine, Extractor { phase: Phase::HostName { len: 0x20 }, budget: Some(10) });
}

#[test]
fn declared_length_narrows_the_budget() {
    let machine = Extractor { phase: Phase::ExtensionsLength, budget: Some(1000) };
    let machine = pending(machine.advance(Event::Data(vec![0x01, 0x02])));
    assert_eq!(machine, Extractor { phase: Phase::ExtensionType, budget: Some(0x0102) });

    let machine = Extractor { phase: Phase::ExtensionLength { typ: 0 }, budget: Some(1000) };
    let machine = pending(machine.advance(Event::Data(vec![0x00, 0x09])));
    assert_eq!(machine, Extractor { phase: Phase::ServerNameListLength, budget: Some(9) });

    let machine = Extractor { phase: Phase::HostNameLength, budget: Some(1000) };
    let machine = pending(machine.advance(Event::Data(vec![0x00, 0x03])));
    assert_eq!(machine, Extractor { phase: Phase::HostName { len: 3 }, budget: Some(3) });
    assert_eq!(machine.request(), Request::Read(3));
    assert_eq!(finished(machine.advance(Event::Data(b"abc".to_vec()))), Ok("abc".to_string()));
}

#[test]
fn other_extension_is_skipped_without_narrowing() {
    let machine = Extractor { phase: Phase::ExtensionType, budget: Some(100) };
    let machine = pending(machine.advance(Event::Data(vec![0x00, 0x2b])));
    assert_eq!(machine, Extractor { phase: Phase::ExtensionLength { typ: 0x2b }, budget: Some(98) });
    let machine = pending(machine.advance(Event::Data(vec![0x00, 0x05])));
    assert_eq!(machine, Extractor { phase: Phase::ExtensionBody { len: 5 }, budget: Some(96) });
    assert_eq!(machine.request(), Request::Skip(5));
    let machine = pending(machine.advance(Event::Skipped(5)));
    assert_eq!(machine, Extractor { phase: Phase::ExtensionType, budget: Some(91) });
}

#[test]
fn other_name_is_skipped() {
    let machine = Extractor { phase: Phase::NameType, budget: Some(20) };
    let machine = pending(machine.advance(Event::Data(vec![4])));
    assert_eq!(machine, Extractor { phase: Phase::OtherNameLength, budget: Some(19) });
    let machine = pending(machine.advance(Event::Data(vec![0x00, 0x06])));
    assert_eq!(machine, Extractor { phase: Phase::OtherName { len: 6 }, budget: Some(17) });
    assert_eq!(machine.request(), Request::Skip(6));
    let machine = pending(machine.advance(Event::Skipped(6)));
    assert_eq!(machine, Extractor { phase: Phase::NameType, budget: Some(11) });
    let machine = pending(machine.advance(Event::Data(vec![0])));
    assert_eq!(machine, Extractor { phase: Phase::HostNameLength, budget: Some(10) });
}

#[test]
fn vectors_before_the_extensions_are_skipped() {
    let machine = Extractor { phase: Phase::SessionIdLength, budget: Some(500) };
    let machine = pending(machine.advance(Event::Data(vec![32])));
    assert_eq!(machine, Extractor { phase: Phase::SessionId { len: 32 }, budget: Some(499) });
    assert_eq!(machine.request(), Request::Skip(32));
    let machine = pending(machine.advance(Event::Skipped(32)));
    assert_eq!(machine, Extractor { phase: Phase::CipherSuitesLength, budget: Some(467) });
    let machine = pending(machine.advance(Event::Data(vec![0x01, 0x04])));
    assert_eq!(machine, Extractor { phase: Phase::CipherSuites { len: 260 }, budget: Some(465) });
    let machine = pending(machine.advance(Event::Skipped(260)));
    assert_eq!(machine, Extractor { phase: Phase::CompressionLength, budget: Some(205) });
    let machine = pending(machine.advance(Event::Data(vec![1])));
    assert_eq!(machine, Extractor { phase: Phase::Compression { len: 1 }, budget: Some(204) });
    let machine = pending(machine.advance(Event::Skipped(1)));
    assert_eq!(machine, Extractor { phase: Phase::ExtensionsLength, budget: Some(203) });
}

#[test]
fn short_read_ends_the_extraction() {
    let machine = Extractor { phase: Phase::BodyLength, budget: None };
    let result = finished(machine.advance(Event::Data(vec![0, 0])));
    assert_eq!(result, Err(SniError::Truncated { requested: 3, available: 2 }));

    let machine = Extractor { phase: Phase::CipherSuites { len: 40 }, budget: Some(100) };
    let result = finished(machine.advance(Event::Skipped(39)));
    assert_eq!(result, Err(SniError::Truncated { requested: 40, available: 39 }));
}

#[test]
fn wrong_type_ends_the_extraction_at_once() {
    let result = finished(Extractor::new().advance(Event::Data(vec![22])));
    assert_eq!(result, Err(SniError::WrongMessageType { observed: 22, expected: 1 }));
}

#[test]
fn invalid_name_ends_in_invalid_encoding() {
    let machine = Extractor { phase: Phase::HostName { len: 2 }, budget: Some(2) };
    let result = finished(machine.advance(Event::Data(vec![0xc3, 0x28])));
    assert!(matches!(result, Err(SniError::InvalidEncoding(_))));
}

#[test]
fn event_must_answer_the_request() {
    assert!(Event::Data(vec![1, 2]).is_answer_to(Request::Read(2)));
    assert!(Event::Data(vec![1, 2]).is_answer_to(Request::Read(3)));
    assert!(!Event::Data(vec![1, 2]).is_answer_to(Request::Read(1)));
    assert!(!Event::Data(vec![1, 2]).is_answer_to(Request::Skip(2)));
    assert!(Event::Skipped(0).is_answer_to(Request::Skip(0)));
    assert!(Event::Skipped(4).is_answer_to(Request::Skip(9)));
    assert!(!Event::Skipped(10).is_answer_to(Request::Skip(9)));
    assert!(!Event::Skipped(1).is_answer_to(Request::Read(1)));
}

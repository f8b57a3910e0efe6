//! Two endpoints talk to each other through simulated engines: records are framed as in DTLS 1.2
//! and flights follow its handshake, but nothing is encrypted.
use bytes::BytesMut;
use dtls_endpoint::{
    Call, EcnCodepoint, Endpoint, EndpointEvent, Error, Instant, ReadStart, SocketAddr,
    SocketAddrV4, Status, Step, TransportMessage, TransportProtocol,
};
use std::collections::{HashMap, HashSet, VecDeque};
use std::sync::Arc;

const MAXIMUM_RETRANSMIT_NUMBER: usize = 7;
const CHANGE_CIPHER_SPEC: u8 = 20;
const HANDSHAKE: u8 = 22;
const APPLICATION_DATA: u8 = 23;

#[derive(Clone, Copy, Debug, PartialEq, Eq)]
enum Suite {
    Certificate,
    Psk,
}

struct Config {
    suites: Vec<Suite>,
    random_fails: bool,
}

#[derive(Debug, PartialEq, Eq)]
enum EngineError {
    Crypto,
    HandshakeInProgress,
    NoCommonSuite,
    RetransmitsExhausted,
    Closed,
}

#[derive(Debug, PartialEq, Eq)]
enum Failure {
    Endpoint(Error),
    Engine(EngineError),
}

/// The state that a caller may look at: how many records came in, how many datagrams were taken
/// to be sent, and whether the association is closed.
#[derive(Clone, Debug, PartialEq, Eq)]
struct State {
    records: u64,
    sent: u64,
    closed: bool,
}

struct Record {
    content_type: u8,
    epoch: u16,
    sequence_number: u64,
    body: Vec<u8>,
}

fn marshal(content_type: u8, epoch: u16, sequence_number: u64, body: &[u8]) -> Vec<u8> {
    let mut raw = vec![content_type, 0xfe, 0xfd];
    raw.extend_from_slice(&epoch.to_be_bytes());
    raw.extend_from_slice(&sequence_number.to_be_bytes()[2..]);
    raw.extend_from_slice(&(body.len() as u16).to_be_bytes());
    raw.extend_from_slice(body);
    raw
}

fn unpack_datagram(datagram: &[u8]) -> Vec<Record> {
    let mut records = vec![];
    let mut rest = datagram;
    while rest.len() >= 13 {
        let mut sequence_number = [0u8; 8];
        sequence_number[2..].copy_from_slice(&rest[5..11]);
        let len = u16::from_be_bytes([rest[11], rest[12]]) as usize;
        records.push(Record {
            content_type: rest[0],
            epoch: u16::from_be_bytes([rest[3], rest[4]]),
            sequence_number: u64::from_be_bytes(sequence_number),
            body: rest[13..13 + len].to_vec(),
        });
        rest = &rest[13 + len..];
    }
    records
}

#[derive(Clone, Copy, PartialEq, Eq)]
enum Flight {
    Start,
    AwaitServerHello,
    AwaitClientFinished,
    AwaitServerFinished,
    Finished,
}

struct Engine {
    config: Arc<Config>,
    is_client: bool,
    flight: Flight,
    last_flight: Vec<(u8, u16, Vec<u8>)>,
    local_sequence: [u64; 2],
    remote_epoch: u16,
    change_cipher_spec_seen: bool,
    seen: HashSet<(u16, u64)>,
    messages: VecDeque<Vec<u8>>,
    put_aside: Vec<Record>,
    incoming: VecDeque<BytesMut>,
    outgoing: VecDeque<BytesMut>,
    handshake_rx: Option<()>,
    received_handshake_in_last_datagram: bool,
    timer: Option<Instant>,
    retransmits: usize,
    state: State,
}

impl Engine {
    fn new(config: Arc<Config>, is_client: bool, initial_state: Option<State>) -> Self {
        Engine {
            config,
            is_client,
            flight: Flight::Start,
            last_flight: vec![],
            local_sequence: [0, 0],
            remote_epoch: 0,
            change_cipher_spec_seen: false,
            seen: HashSet::new(),
            messages: VecDeque::new(),
            put_aside: vec![],
            incoming: VecDeque::new(),
            outgoing: VecDeque::new(),
            handshake_rx: None,
            received_handshake_in_last_datagram: false,
            timer: None,
            retransmits: 0,
            state: initial_state.unwrap_or(State { records: 0, sent: 0, closed: false }),
        }
    }

    fn status(&self) -> Status<State> {
        Status {
            state: self.state.clone(),
            handshake_completed: self.flight == Flight::Finished,
            received_handshake_in_last_datagram: self.received_handshake_in_last_datagram,
            current_retransmit_timer: self.timer,
        }
    }

    fn frame(&mut self, content_type: u8, epoch: u16, body: &[u8]) -> Vec<u8> {
        let sequence_number = self.local_sequence[epoch as usize];
        self.local_sequence[epoch as usize] += 1;
        marshal(content_type, epoch, sequence_number, body)
    }

    fn send_flight(&mut self) {
        let mut datagram = vec![];
        for (content_type, epoch, body) in self.last_flight.clone() {
            datagram.extend(self.frame(content_type, epoch, &body));
        }
        self.outgoing.push_back(BytesMut::from(&datagram[..]));
    }

    fn begin_flight(&mut self, flight: Vec<(u8, u16, Vec<u8>)>, next: Flight, now: Instant) {
        self.last_flight = flight;
        self.flight = next;
        self.retransmits = 0;
        self.timer = if next == Flight::Finished {
            None
        } else {
            Some(Instant { nanos: now.nanos + 1_000 })
        };
        self.send_flight();
    }

    fn take_record(&mut self, record: Record) -> bool {
        if record.epoch > self.remote_epoch {
            self.put_aside.push(record);
            return false;
        }
        if !self.seen.insert((record.epoch, record.sequence_number)) {
            return false;
        }
        self.state.records += 1;
        match record.content_type {
            HANDSHAKE => {
                self.handshake_rx = Some(());
                self.messages.push_back(record.body);
                true
            }
            CHANGE_CIPHER_SPEC => {
                self.change_cipher_spec_seen = true;
                false
            }
            _ => {
                if record.epoch == 1 {
                    self.incoming.push_back(BytesMut::from(&record.body[..]));
                }
                false
            }
        }
    }

    fn read(&mut self, data: &[u8]) -> Result<(), EngineError> {
        if self.state.closed {
            return Err(EngineError::Closed);
        }
        self.received_handshake_in_last_datagram = false;
        for record in unpack_datagram(data) {
            if self.take_record(record) {
                self.received_handshake_in_last_datagram = true;
            }
        }
        Ok(())
    }

    fn handshake(&mut self, now: Instant) -> Result<(), EngineError> {
        if self.flight == Flight::Start && self.is_client {
            if self.config.random_fails {
                return Err(EngineError::Crypto);
            }
            let hello = self.config.suites.iter().map(|s| *s as u8);
            let body: Vec<u8> = [1u8].into_iter().chain(hello).collect();
            self.begin_flight(vec![(HANDSHAKE, 0, body)], Flight::AwaitServerHello, now);
            return Ok(());
        }
        if self.change_cipher_spec_seen {
            self.remote_epoch = 1;
        }
        self.handshake_rx = None;
        while let Some(message) = self.messages.pop_front() {
            match (self.flight, message[0]) {
                (Flight::Start, 1) => {
                    if !self.config.suites.iter().any(|s| message[1..].contains(&(*s as u8))) {
                        return Err(EngineError::NoCommonSuite);
                    }
                    let flight = vec![(HANDSHAKE, 0, vec![4])];
                    self.begin_flight(flight, Flight::AwaitClientFinished, now);
                }
                (Flight::AwaitServerHello, 4) => {
                    let flight = vec![
                        (HANDSHAKE, 0, vec![5]),
                        (CHANGE_CIPHER_SPEC, 0, vec![1]),
                        (HANDSHAKE, 1, vec![15]),
                    ];
                    self.begin_flight(flight, Flight::AwaitServerFinished, now);
                }
                (Flight::AwaitClientFinished, 15) => {
                    let flight = vec![(CHANGE_CIPHER_SPEC, 0, vec![1]), (HANDSHAKE, 1, vec![16])];
                    self.begin_flight(flight, Flight::Finished, now);
                }
                (Flight::AwaitServerFinished, 16) => {
                    self.flight = Flight::Finished;
                    self.retransmits = 0;
                    self.timer = None;
                }
                _ => {}
            }
        }
        Ok(())
    }

    fn handle_incoming_queued_packets(&mut self) -> Result<bool, EngineError> {
        let mut is_handshake = false;
        for record in std::mem::take(&mut self.put_aside) {
            is_handshake |= self.take_record(record);
        }
        Ok(is_handshake)
    }

    fn handshake_timeout(&mut self, now: Instant) -> Result<(), EngineError> {
        assert!(self.handshake_rx.is_none(), "the trace of a record is cleared first");
        if self.retransmits == MAXIMUM_RETRANSMIT_NUMBER {
            return if self.flight == Flight::Finished {
                Ok(())
            } else {
                Err(EngineError::RetransmitsExhausted)
            };
        }
        self.retransmits += 1;
        if self.flight != Flight::Finished {
            self.timer = Some(Instant { nanos: now.nanos + 1_000 });
        }
        self.send_flight();
        Ok(())
    }

    fn write(&mut self, data: &[u8]) -> Result<(), EngineError> {
        if self.flight != Flight::Finished {
            return Err(EngineError::HandshakeInProgress);
        }
        let raw = self.frame(APPLICATION_DATA, 1, data);
        self.outgoing.push_back(BytesMut::from(&raw[..]));
        Ok(())
    }

    fn close(&mut self) {
        self.state.closed = true;
        let raw = self.frame(21, 0, &[1, 0]);
        self.outgoing.push_back(BytesMut::from(&raw[..]));
    }

    fn take_outgoing(&mut self) -> VecDeque<BytesMut> {
        self.state.sent += self.outgoing.len() as u64;
        std::mem::take(&mut self.outgoing)
    }

    fn perform(&mut self, call: Call<'_>) -> Result<bool, EngineError> {
        match call {
            Call::Read(data) => self.read(&data).map(|()| false),
            Call::Write(data) => self.write(data).map(|()| false),
            Call::Handshake(now) => self.handshake(now).map(|()| false),
            Call::HandleIncomingQueuedPackets => self.handle_incoming_queued_packets(),
            Call::ClearHandshakeRx => {
                self.handshake_rx = None;
                Ok(false)
            }
            Call::HandshakeTimeout(now) => self.handshake_timeout(now).map(|()| false),
            Call::ClearRetransmitTimer => {
                self.timer = None;
                Ok(false)
            }
            Call::Close => {
                self.close();
                Ok(false)
            }
        }
    }
}

/// An endpoint with the loop that carries its dialogues out.
struct Host {
    endpoint: Endpoint<Engine, Config, State>,
}

impl Host {
    fn new(local_addr: SocketAddr, server_config: Option<Arc<Config>>) -> Self {
        Host { endpoint: Endpoint::new(local_addr, TransportProtocol::UDP, server_config) }
    }

    fn engine(&mut self, remote: SocketAddr) -> &mut Engine {
        self.endpoint.engine_mut(&remote).expect("there is an association")
    }

    fn connect(
        &mut self,
        now: Instant,
        remote: SocketAddr,
        config: Arc<Config>,
        initial_state: Option<State>,
    ) -> Result<(), Failure> {
        let begun = self
            .endpoint
            .connect(now, remote, config, initial_state)
            .map_err(Failure::Endpoint)?;
        if let Some((new, dial, call)) = begun {
            let mut engine = Engine::new(new.config, new.is_client, new.initial_state);
            let outcome = engine.perform(call);
            let outgoing = outcome.map(|_| engine.take_outgoing());
            let status = engine.status();
            self.endpoint
                .connected(dial, engine, status, outgoing)
                .map_err(Failure::Engine)?;
        }
        Ok(())
    }

    fn run(&mut self, mut step: Step<'_>) -> Result<Vec<EndpointEvent>, Failure> {
        let mut events = vec![];
        loop {
            match step {
                Step::Call { operation, call } => {
                    let engine = self.engine(operation.remote);
                    let outcome = engine.perform(call);
                    let status = engine.status();
                    step = self
                        .endpoint
                        .advance(operation, status, outcome)
                        .map_err(Failure::Engine)?;
                }
                Step::Deliver(delivery) => {
                    let data = std::mem::take(&mut self.engine(delivery.remote).incoming);
                    let (delivered, transmission) = delivery.deliver(data);
                    events = delivered;
                    step = Step::Transmit(transmission);
                }
                Step::Transmit(transmission) => {
                    let engine = self.engine(transmission.remote);
                    let outgoing = engine.take_outgoing();
                    let status = engine.status();
                    self.endpoint.transmit(transmission, status, outgoing);
                    return Ok(events);
                }
            }
        }
    }

    fn read(
        &mut self,
        now: Instant,
        remote: SocketAddr,
        ecn: Option<EcnCodepoint>,
        data: BytesMut,
    ) -> Result<Vec<EndpointEvent>, Failure> {
        let start = self.endpoint.read(now, remote, ecn, data).map_err(Failure::Endpoint)?;
        let step = match start {
            ReadStart::Known(step) => step,
            ReadStart::Stranger(new, accepting) => {
                let engine = Engine::new(new.config, new.is_client, new.initial_state);
                let status = engine.status();
                self.endpoint.accept(accepting, engine, status)
            }
        };
        self.run(step)
    }

    fn write(&mut self, now: Instant, remote: SocketAddr, data: &[u8]) -> Result<(), Failure> {
        let step = self.endpoint.write(now, remote, data).map_err(Failure::Endpoint)?;
        self.run(step).map(|_| ())
    }

    fn handle_timeout(&mut self, remote: SocketAddr, now: Instant) -> Result<(), Failure> {
        match self.endpoint.handle_timeout(remote, now).map_err(Failure::Endpoint)? {
            Some(step) => self.run(step).map(|_| ()),
            None => Ok(()),
        }
    }

    fn stop(&mut self, now: Instant, remote: SocketAddr) -> Option<Engine> {
        let (stopping, call) = self.endpoint.stop(now, remote)?;
        let engine = self.engine(remote);
        engine.perform(call).unwrap();
        let outgoing = engine.take_outgoing();
        let status = engine.status();
        let conn = self.endpoint.stopped(stopping, status, outgoing)?;
        assert_eq!(*conn.connection_state(), conn.engine.state);
        Some(conn.engine)
    }

    fn close(&mut self, now: Instant) {
        while let Some((stopping, call)) = self.endpoint.close(now) {
            let engine = self.engine(stopping.remote);
            engine.perform(call).unwrap();
            let outgoing = engine.take_outgoing();
            let status = engine.status();
            self.endpoint.stopped(stopping, status, outgoing);
        }
    }

    fn poll_transmit(&mut self) -> Option<TransportMessage<BytesMut>> {
        self.endpoint.poll_transmit()
    }
}

fn addr(port: u16) -> SocketAddr {
    SocketAddr::V4(SocketAddrV4 { ip: u32::from_be_bytes([127, 0, 0, 1]), port })
}

fn client_addr() -> SocketAddr {
    addr(4444)
}

fn server_addr() -> SocketAddr {
    addr(4445)
}

fn now() -> Instant {
    Instant { nanos: 0 }
}

fn config(suites: &[Suite]) -> Arc<Config> {
    Arc::new(Config { suites: suites.to_vec(), random_fails: false })
}

fn transfer(
    source: &mut Host,
    destination: &mut Host,
    source_addr: SocketAddr,
) -> Result<Vec<EndpointEvent>, Failure> {
    let mut events = Vec::new();
    while let Some(transmit) = source.poll_transmit() {
        events.extend(destination.read(
            now(),
            source_addr,
            transmit.transport.ecn,
            transmit.message,
        )?);
    }
    Ok(events)
}

fn completes(events: &[EndpointEvent]) -> bool {
    events.iter().any(|event| matches!(event, EndpointEvent::HandshakeComplete))
}

fn carries(events: &[EndpointEvent], expected: &[u8]) -> bool {
    events.iter().any(
        |event| matches!(event, EndpointEvent::ApplicationData(data) if data.as_ref() == expected),
    )
}

/// Drives one client through a handshake and a record exchange against an existing server, so
/// that several clients can be served by the one endpoint and configuration.
fn exchange_with_server(
    server: &mut Host,
    client_addr: SocketAddr,
    client_suite: Suite,
) -> Result<(), Failure> {
    let mut client = Host::new(client_addr, None);
    client.connect(now(), server_addr(), config(&[client_suite]), None)?;

    let mut client_complete = false;
    let mut server_complete = false;
    for _ in 0..32 {
        server_complete |= completes(&transfer(&mut client, server, client_addr)?);
        client_complete |= completes(&transfer(server, &mut client, server_addr())?);
        if client_complete && server_complete {
            break;
        }
    }
    assert!(client_complete && server_complete, "the handshake did not complete");

    client.write(now(), server_addr(), b"provider-backed DTLS")?;
    let transmit = client.poll_transmit().expect("application write produces a DTLS record");
    let replay = transmit.message.clone();
    let events = server.read(now(), client_addr, transmit.transport.ecn, transmit.message)?;
    assert!(carries(&events, b"provider-backed DTLS"));
    assert!(server.read(now(), client_addr, None, replay)?.is_empty());
    Ok(())
}

#[test]
fn failing_random_provider_aborts_client_hello_cleanly() {
    let config = Arc::new(Config { suites: vec![Suite::Certificate], random_fails: true });
    let mut endpoint = Host::new(client_addr(), None);

    let result = endpoint.connect(now(), server_addr(), config, None);
    assert!(matches!(result, Err(Failure::Engine(EngineError::Crypto))));
    assert!(endpoint.endpoint.get_connections_keys().is_empty());
    assert!(endpoint.poll_transmit().is_none());
}

#[test]
fn one_server_config_serves_psk_and_certificate_clients() {
    let certificate_and_psk_suites = [Suite::Certificate, Suite::Psk];
    let mut server = Host::new(server_addr(), Some(config(&certificate_and_psk_suites)));

    for (index, client_suite) in certificate_and_psk_suites.into_iter().enumerate() {
        let client_addr = addr(4446 + index as u16);
        exchange_with_server(&mut server, client_addr, client_suite).unwrap();
    }
    assert_eq!(server.endpoint.get_connections_keys(), vec![addr(4446), addr(4447)]);
}

/// Runs a full handshake to completion and returns both endpoints, drained of any pending
/// transmit so a later assertion sees only newly generated output.
fn completed_client_and_server() -> (Host, Host) {
    let suites = [Suite::Certificate];
    let mut client = Host::new(client_addr(), None);
    let mut server = Host::new(server_addr(), Some(config(&suites)));
    client.connect(now(), server_addr(), config(&suites), None).unwrap();

    let mut client_complete = false;
    let mut server_complete = false;
    for _ in 0..32 {
        server_complete |= completes(&transfer(&mut client, &mut server, client_addr()).unwrap());
        client_complete |= completes(&transfer(&mut server, &mut client, server_addr()).unwrap());
        if client_complete && server_complete {
            break;
        }
    }
    assert!(client_complete && server_complete, "the handshake completed for both sides");
    while client.poll_transmit().is_some() {}
    while server.poll_transmit().is_some() {}
    (client, server)
}

/// A 29-byte epoch-0 record whose content type marks it a handshake and whose body is junk.
fn junk_epoch_zero_handshake_datagram(sequence_number: u64) -> BytesMut {
    let raw = marshal(
        HANDSHAKE,
        0,
        sequence_number,
        &[
            0xff, 0x00, 0x00, 0x04, 0x00, 0x00, 0x00, 0x00, 0x00, 0x00, 0x00, 0x04, 0x00, 0x00,
            0x00, 0x00,
        ],
    );
    assert_eq!(raw.len(), 29);
    BytesMut::from(&raw[..])
}

/// The `(epoch, record sequence number)` of every record in `datagram`.
fn record_sequence_numbers(datagram: &[u8]) -> Vec<(u16, u64)> {
    unpack_datagram(datagram).iter().map(|r| (r.epoch, r.sequence_number)).collect()
}

/// Asserts every record in `retransmit` carries a sequence number strictly greater than any record
/// of the same epoch in `original`, i.e. the flight was regenerated, not replayed verbatim.
fn assert_fresh_sequence_numbers(original: &[BytesMut], retransmit: &[BytesMut]) {
    let by_epoch = |flight: &[BytesMut]| {
        let mut per_epoch: HashMap<u16, Vec<u64>> = HashMap::new();
        for datagram in flight {
            for (epoch, sequence_number) in record_sequence_numbers(datagram) {
                per_epoch.entry(epoch).or_default().push(sequence_number);
            }
        }
        per_epoch
    };

    let original = by_epoch(original);
    let retransmit = by_epoch(retransmit);
    assert!(
        retransmit.contains_key(&1),
        "the retransmitted flight carries the encrypted Finished (epoch 1)"
    );
    for (epoch, retransmit_seqs) in &retransmit {
        if let Some(original_seqs) = original.get(epoch) {
            let max_original = original_seqs.iter().copied().max().unwrap_or(0);
            let min_retransmit = retransmit_seqs.iter().copied().min().unwrap_or(0);
            assert!(min_retransmit > max_original, "the records are fresh");
        }
    }
}

#[test]
fn a_completed_server_retransmits_a_fresh_last_flight_so_the_client_completes() {
    let suites = [Suite::Certificate];
    let mut client = Host::new(client_addr(), None);
    let mut server = Host::new(server_addr(), Some(config(&suites)));
    client.connect(now(), server_addr(), config(&suites), None).unwrap();

    // Drive until the server completes. Its last flight is queued at that point, not yet taken.
    let mut server_complete = false;
    for _ in 0..32 {
        server_complete |= completes(&transfer(&mut client, &mut server, client_addr()).unwrap());
        if server_complete {
            break;
        }
        transfer(&mut server, &mut client, server_addr()).unwrap();
    }
    assert!(server_complete, "the server side never completed");

    // Lose it.
    let mut original_last_flight = vec![];
    while let Some(transmit) = server.poll_transmit() {
        original_last_flight.push(transmit.message);
    }
    assert!(!original_last_flight.is_empty(), "the server had a last flight to lose");

    // The client is still waiting; its retransmit timer fires and it repeats its flight.
    let deadline = client
        .endpoint
        .poll_timeout(&server_addr())
        .expect("a client waiting for the last flight arms a retransmit timer");
    client.handle_timeout(server_addr(), deadline).unwrap();
    let mut client_repeat = vec![];
    while let Some(transmit) = client.poll_transmit() {
        client_repeat.push(transmit);
    }
    assert!(!client_repeat.is_empty(), "the client retransmitted its own flight");

    // RFC 6347 4.2.4 requires the completed server to answer with its last flight again.
    for transmit in client_repeat {
        server
            .read(deadline, client_addr(), transmit.transport.ecn, transmit.message)
            .unwrap();
    }
    let mut retransmit = vec![];
    while let Some(transmit) = server.poll_transmit() {
        retransmit.push(transmit.message);
    }
    assert!(
        !retransmit.is_empty(),
        "a completed server has to retransmit its last flight when the peer repeats its own"
    );
    assert_fresh_sequence_numbers(&original_last_flight, &retransmit);

    // Feed the fresh flight back; the client must now actually complete.
    let mut client_complete = false;
    for datagram in retransmit {
        let events = client.read(deadline, server_addr(), None, datagram).unwrap();
        client_complete |= completes(&events);
    }
    assert!(client_complete, "the client completes once the retransmitted last flight arrives");
}

#[test]
fn a_completed_client_retransmits_its_full_last_flight_with_fresh_record_sequence_numbers() {
    let (mut client, _server) = completed_client_and_server();

    client
        .read(now(), server_addr(), None, junk_epoch_zero_handshake_datagram(20_000))
        .unwrap();
    let mut first = vec![];
    while let Some(transmit) = client.poll_transmit() {
        first.push(transmit.message);
    }
    assert!(!first.is_empty(), "the client retransmits its last flight");
    let epochs: HashSet<u16> = first
        .iter()
        .flat_map(|datagram| record_sequence_numbers(datagram))
        .map(|(epoch, _)| epoch)
        .collect();
    assert!(
        epochs.contains(&0) && epochs.contains(&1),
        "the retransmit is the full flight (epoch-0 records plus the epoch-1 Finished)"
    );

    client
        .read(now(), server_addr(), None, junk_epoch_zero_handshake_datagram(20_001))
        .unwrap();
    let mut second = vec![];
    while let Some(transmit) = client.poll_transmit() {
        second.push(transmit.message);
    }
    assert!(!second.is_empty(), "the client retransmits again on the next repeat");
    assert_fresh_sequence_numbers(&first, &second);
}

#[test]
fn a_completed_client_neither_amplifies_nor_tears_down_when_flooded_with_handshake_records() {
    let (mut client, _server) = completed_client_and_server();

    let floods = MAXIMUM_RETRANSMIT_NUMBER + 5;
    let mut answered = 0usize;
    let mut silent_after_budget = true;
    for index in 0..floods {
        let datagram = junk_epoch_zero_handshake_datagram(10_000 + index as u64);
        let result = client.read(now(), server_addr(), None, datagram);
        assert!(
            result.is_ok(),
            "a junk handshake record must not tear down an established association"
        );
        let mut produced = false;
        while client.poll_transmit().is_some() {
            produced = true;
        }
        if produced {
            answered += 1;
        }
        if index >= MAXIMUM_RETRANSMIT_NUMBER {
            silent_after_budget &= !produced;
        }
    }
    assert!(answered > 0, "the retransmission path is reachable at all");
    assert!(answered <= MAXIMUM_RETRANSMIT_NUMBER);
    assert!(
        silent_after_budget,
        "the retransmit budget must silence the flood once it is spent"
    );
}

#[test]
fn application_data_does_not_retrigger_a_completed_client_even_with_a_stale_handshake_flag() {
    let (mut client, mut server) = completed_client_and_server();

    // A trace of a handshake record is left over from an earlier datagram.
    client
        .endpoint
        .engine_mut(&server_addr())
        .expect("the client holds the association")
        .handshake_rx = Some(());

    server.write(now(), client_addr(), b"post-handshake application data").unwrap();
    let events = transfer(&mut server, &mut client, server_addr()).unwrap();
    assert!(
        carries(&events, b"post-handshake application data"),
        "the completed client still decrypts application data"
    );
    assert!(
        client.poll_transmit().is_none(),
        "application data must not make a completed client emit a handshake flight"
    );
}

#[test]
fn completion_is_announced_once_and_before_the_data() {
    let suites = [Suite::Certificate];
    let mut client = Host::new(client_addr(), None);
    let mut server = Host::new(server_addr(), Some(config(&suites)));
    client.connect(now(), server_addr(), config(&suites), None).unwrap();
    let mut announcements = 0;
    for _ in 0..8 {
        transfer(&mut client, &mut server, client_addr()).unwrap();
        let events = transfer(&mut server, &mut client, server_addr()).unwrap();
        announcements += events
            .iter()
            .filter(|event| matches!(event, EndpointEvent::HandshakeComplete))
            .count();
    }
    assert_eq!(announcements, 1);

    // The last flight, lost before, and data that was sent after it come in one datagram.
    let mut late = Host::new(client_addr(), None);
    let mut other = Host::new(server_addr(), Some(config(&suites)));
    late.connect(now(), server_addr(), config(&suites), None).unwrap();
    transfer(&mut late, &mut other, client_addr()).unwrap();
    transfer(&mut other, &mut late, server_addr()).unwrap();
    transfer(&mut late, &mut other, client_addr()).unwrap();
    other.write(now(), client_addr(), b"early").unwrap();
    let mut datagram = BytesMut::new();
    while let Some(transmit) = other.poll_transmit() {
        datagram.extend_from_slice(&transmit.message);
    }
    let events = late.read(now(), server_addr(), None, datagram).unwrap();
    assert_eq!(events.len(), 2);
    assert!(matches!(events[0], EndpointEvent::HandshakeComplete));
    assert!(matches!(&events[1], EndpointEvent::ApplicationData(d) if &d[..] == b"early"));
}

#[test]
fn the_state_that_is_shown_is_the_engines_own() {
    let (mut client, mut server) = completed_client_and_server();
    client.write(now(), server_addr(), b"one").unwrap();
    transfer(&mut client, &mut server, client_addr()).unwrap();
    server.write(now(), client_addr(), b"two").unwrap();
    transfer(&mut server, &mut client, server_addr()).unwrap();
    let live = client.engine(server_addr()).state.clone();
    // The two flights of the handshake and the data.
    assert_eq!(live.sent, 3);
    assert_eq!(client.endpoint.get_connection_state(server_addr()), Some(&live));
    let live = server.engine(client_addr()).state.clone();
    assert_eq!(server.endpoint.get_connection_state(client_addr()), Some(&live));
}

#[test]
fn an_engine_that_fails_to_read_leaves_its_association() {
    let mut server = Host::new(server_addr(), Some(config(&[Suite::Psk])));
    let mut client = Host::new(client_addr(), None);
    client.connect(now(), server_addr(), config(&[Suite::Certificate]), None).unwrap();
    let result = transfer(&mut client, &mut server, client_addr());
    assert_eq!(result.err(), Some(Failure::Engine(EngineError::NoCommonSuite)));
    assert_eq!(server.endpoint.get_connections_keys(), vec![client_addr()]);
    // The status was reported all the same: one record came in.
    assert_eq!(
        server.endpoint.get_connection_state(client_addr()),
        Some(&State { records: 1, sent: 0, closed: false })
    );
}

#[test]
fn data_cannot_be_written_before_the_handshake_completes() {
    let mut client = Host::new(client_addr(), None);
    client.connect(now(), server_addr(), config(&[Suite::Psk]), None).unwrap();
    assert_eq!(
        client.write(now(), server_addr(), b"too early"),
        Err(Failure::Engine(EngineError::HandshakeInProgress))
    );
    assert_eq!(
        client.write(now(), addr(9), b"to nobody"),
        Err(Failure::Endpoint(Error::InvalidRemoteAddress(addr(9))))
    );
}

#[test]
fn a_handshake_that_gets_no_answer_gives_up() {
    let mut client = Host::new(client_addr(), None);
    client.connect(now(), server_addr(), config(&[Suite::Psk]), None).unwrap();
    assert!(client.poll_transmit().is_some());
    for _ in 0..MAXIMUM_RETRANSMIT_NUMBER {
        let deadline = client.endpoint.poll_timeout(&server_addr()).unwrap();
        let early = Instant { nanos: deadline.nanos - 1 };
        client.handle_timeout(server_addr(), early).unwrap();
        assert!(client.poll_transmit().is_none());
        client.handle_timeout(server_addr(), deadline).unwrap();
        let repeat = client.poll_transmit().expect("the flight is sent again");
        assert_eq!(repeat.now, deadline);
        assert_eq!(repeat.transport.ecn, None);
    }
    let deadline = client.endpoint.poll_timeout(&server_addr()).unwrap();
    assert_eq!(
        client.handle_timeout(server_addr(), deadline),
        Err(Failure::Engine(EngineError::RetransmitsExhausted))
    );
    assert_eq!(client.endpoint.poll_timeout(&server_addr()), None);
}

#[test]
fn stop_says_goodbye_and_hands_the_association_back() {
    let (mut client, _server) = completed_client_and_server();
    let stopped_at = Instant { nanos: 77 };
    let engine = client.stop(stopped_at, server_addr()).expect("there was an association");
    assert!(engine.state.closed);
    let goodbye = client.poll_transmit().expect("a close_notify is queued");
    assert_eq!(goodbye.now, stopped_at);
    assert_eq!(goodbye.transport.peer_addr, server_addr());
    assert_eq!(unpack_datagram(&goodbye.message)[0].content_type, 21);
    assert!(client.poll_transmit().is_none());
    assert!(client.endpoint.get_connections_keys().is_empty());
    assert!(client.stop(stopped_at, server_addr()).is_none());
    assert!(client.poll_transmit().is_none());
}

#[test]
fn close_says_goodbye_to_everyone() {
    let mut server = Host::new(server_addr(), Some(config(&[Suite::Certificate, Suite::Psk])));
    exchange_with_server(&mut server, addr(1), Suite::Psk).unwrap();
    exchange_with_server(&mut server, addr(2), Suite::Certificate).unwrap();
    exchange_with_server(&mut server, addr(3), Suite::Psk).unwrap();
    while server.poll_transmit().is_some() {}
    server.close(Instant { nanos: 5 });
    assert!(server.endpoint.get_connections_keys().is_empty());
    let mut peers = vec![];
    while let Some(transmit) = server.poll_transmit() {
        assert_eq!(transmit.now, Instant { nanos: 5 });
        assert_eq!(transmit.transport.local_addr, server_addr());
        peers.push(transmit.transport.peer_addr);
    }
    assert_eq!(peers, vec![addr(1), addr(2), addr(3)]);
}

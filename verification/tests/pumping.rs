use uni_llm_api::emission::ChunkOutput;
use uni_llm_api::error::AppError;
use uni_llm_api::pump::{Arrival, Delivery, Next, Pump};

fn output(bytes: &[u8], error: Option<AppError>) -> ChunkOutput {
    ChunkOutput { bytes: bytes.to_vec(), error }
}

#[test]
fn a_fresh_pump_reads() {
    let mut pump = Pump::new();
    assert_eq!(pump, Pump { queued: None, closed: false });
    assert_eq!(pump.next(false), Next::Read);
    assert_eq!(pump, Pump { queued: None, closed: false });
}

#[test]
fn bytes_of_a_chunk_are_handed_on_also_where_there_are_none() {
    let mut pump = Pump::new();
    assert_eq!(pump.deliver(Arrival::Chunk(output(b"line\n", None))), Delivery::Bytes(b"line\n".to_vec()));
    assert_eq!(pump.next(false), Next::Read);
    assert_eq!(pump.deliver(Arrival::Chunk(output(b"", None))), Delivery::Bytes(vec![]));
    assert_eq!(pump.next(false), Next::Read);
}

#[test]
fn a_failure_comes_after_the_bytes_of_its_chunk_and_ends_the_stream() {
    let mut pump = Pump::new();
    assert_eq!(
        pump.deliver(Arrival::Chunk(output(b"before\n", Some(AppError::MalformedPayload)))),
        Delivery::Bytes(b"before\n".to_vec())
    );
    assert_eq!(pump.next(true), Next::Fail(AppError::MalformedPayload));
    assert_eq!(pump, Pump { queued: None, closed: true });
    assert_eq!(pump.next(true), Next::Stop);
    assert_eq!(pump.next(false), Next::Stop);
}

#[test]
fn the_stream_stops_once_the_answer_is_finished() {
    let mut pump = Pump::new();
    assert_eq!(pump.deliver(Arrival::Chunk(output(b"done\n", None))), Delivery::Bytes(b"done\n".to_vec()));
    assert_eq!(pump.next(true), Next::Stop);
    assert_eq!(pump.next(false), Next::Stop);
}

#[test]
fn a_read_that_fails_ends_the_stream() {
    let mut pump = Pump::new();
    assert_eq!(pump.deliver(Arrival::Broken), Delivery::Broken);
    assert_eq!(pump.next(false), Next::Stop);
}

#[test]
fn the_end_of_the_upstream_ends_the_stream() {
    let mut pump = Pump::new();
    assert_eq!(pump.deliver(Arrival::End(output(b"last\n", None))), Delivery::Bytes(b"last\n".to_vec()));
    assert_eq!(pump.next(false), Next::Stop);
    let mut pump = Pump::new();
    assert_eq!(pump.deliver(Arrival::End(output(b"", None))), Delivery::Nothing);
    assert_eq!(pump.next(false), Next::Stop);
    let mut pump = Pump::new();
    assert_eq!(
        pump.deliver(Arrival::End(output(b"", Some(AppError::EmptyChoices)))),
        Delivery::Bytes(vec![])
    );
    assert_eq!(pump.next(true), Next::Fail(AppError::EmptyChoices));
    assert_eq!(pump.next(true), Next::Stop);
}

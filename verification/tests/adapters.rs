use omnistreams::AdapterFault;
use omnistreams::CancelReason;
use omnistreams::Consumer;
use omnistreams::ConsumerEvent;
use omnistreams::Producer;
use omnistreams::ProducerEvent;
use omnistreams::ReadAdapter;
use omnistreams::SinkAdapter;
use omnistreams::SinkStatus;
use omnistreams::Streamer;
use omnistreams::WriteAdapter;

#[test]
fn write_adapter_flow() {
    let mut wa = WriteAdapter::new();
    let rx = wa.event_stream().unwrap();
    // The initial unit of demand is announced up front.
    assert_eq!(wa.next_event(&rx), Some(ConsumerEvent::Request(1)));

    wa.write(vec![65, 66]);
    assert_eq!(wa.poll_write(), Ok(Some(vec![65, 66])));
    wa.written();
    assert_eq!(wa.next_event(&rx), Some(ConsumerEvent::Request(1)));

    wa.end();
    assert_eq!(wa.poll_write(), Ok(None));
    assert!(wa.ended());
}

#[test]
fn write_without_demand_fails_loudly() {
    let mut wa = WriteAdapter::new();
    wa.write(vec![1]);
    wa.write(vec![2]);
    // Only one unit of demand was ever granted: the second chunk is a
    // protocol violation, not silently absorbed.
    assert_eq!(wa.poll_write(), Ok(Some(vec![1])));
    assert_eq!(wa.poll_write(), Err(AdapterFault::WriteWithoutDemand));
    assert!(wa.ended());
}

#[test]
fn sink_adapter_buffers_when_busy() {
    let mut sa = SinkAdapter::new();
    let rx = sa.event_stream().unwrap();
    assert_eq!(sa.next_event(&rx), Some(ConsumerEvent::Request(1)));

    sa.write(vec![9]);
    let chunk = sa.next_chunk().unwrap().unwrap();
    assert_eq!(chunk, vec![9]);
    sa.send_or_buffer(chunk, SinkStatus::Busy);
    // Nothing was granted while the chunk sits buffered.
    assert_eq!(sa.next_event(&rx), None);

    let retry = sa.retry_buffered().unwrap();
    assert_eq!(retry, vec![9]);
    sa.send_or_buffer(retry, SinkStatus::Accepted);
    assert_eq!(sa.next_event(&rx), Some(ConsumerEvent::Request(1)));
}

#[test]
fn sink_failure_cancels_stream() {
    let mut sa = SinkAdapter::new();
    let rx = sa.event_stream().unwrap();
    assert_eq!(sa.next_event(&rx), Some(ConsumerEvent::Request(1)));
    sa.write(vec![1, 2]);
    let chunk = sa.next_chunk().unwrap().unwrap();
    sa.send_or_buffer(chunk, SinkStatus::Failed);
    assert_eq!(
        sa.next_event(&rx),
        Some(ConsumerEvent::Cancellation(CancelReason::Disconnected))
    );
}

#[test]
fn read_adapter_flow() {
    let mut ra = ReadAdapter::new();
    let rx = ra.event_stream().unwrap();
    ra.request(2);
    ra.poll();
    assert_eq!(ra.demand_left(), 2);

    ra.on_read(vec![7, 8]);
    assert_eq!(ra.demand_left(), 1);
    assert_eq!(ra.next_event(&rx), Some(ProducerEvent::Data(vec![7, 8])));

    // An empty read is the reader's exhaustion.
    ra.on_read(vec![]);
    assert!(ra.finished());
    assert_eq!(ra.next_event(&rx), Some(ProducerEvent::End));
    assert_eq!(ra.next_event(&rx), None);
}

#[test]
fn read_adapter_cancellation() {
    let mut ra = ReadAdapter::new();
    ra.request(5);
    ra.cancel(CancelReason::Other(String::from("done")));
    ra.poll();
    assert!(ra.finished());
    assert_eq!(ra.demand_left(), 0);
}

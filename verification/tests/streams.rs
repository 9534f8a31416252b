use omnistreams::CancelReason;
use omnistreams::Conduit;
use omnistreams::Consumer;
use omnistreams::ConsumerEvent;
use omnistreams::MapConduit;
use omnistreams::Producer;
use omnistreams::ProducerEvent;
use omnistreams::Queue;
use omnistreams::RangeProducer;
use omnistreams::RangeProducerBuilder;
use omnistreams::Streamer;
use omnistreams::conduit_step;
use omnistreams::pipe_through;

#[test]
fn request_is_forwarded() {
    let mut conduit = MapConduit::new(|_: i32| 0);

    let _consumer_events = Consumer::event_stream(&mut conduit).unwrap();

    conduit.request(10);
    conduit.end();
}

#[test]
fn split() {
    let conduit = MapConduit::new(|_: i32| 0);

    let (mut consumer, mut producer) = conduit.split();

    let _consumer_events = consumer.event_stream().unwrap();

    producer.request(11);
    consumer.end();
}

#[test]
fn range_producer_create() {
    RangeProducer::new(0, None);
}

#[test]
fn simple() {
    let mut producer = RangeProducer::new(1, None);

    let _events = producer.event_stream().unwrap();

    producer.request(100);
}

#[test]
fn queue_is_fifo() {
    let mut q: Queue<i32> = Queue::new();
    q.push(1);
    q.push(2);
    q.push(3);
    assert_eq!(q.pop(), Some(1));
    q.push(4);
    assert_eq!(q.pop(), Some(2));
    assert_eq!(q.pop(), Some(3));
    assert_eq!(q.pop(), Some(4));
    assert_eq!(q.pop(), None);
    assert!(q.is_empty());
}

#[test]
fn range_events_are_fifo() {
    // A range producer started at 5, stopped at 10, granted 5 units of
    // demand, emits exactly 5, 6, 7, 8, 9 and then the end marker, in
    // that order.
    let mut p = RangeProducerBuilder::new().start(5).stop(10).build();
    let rx = p.event_stream().unwrap();
    p.request(5);
    p.poll();
    assert_eq!(p.next_event(&rx), Some(ProducerEvent::Data(5)));
    assert_eq!(p.next_event(&rx), Some(ProducerEvent::Data(6)));
    assert_eq!(p.next_event(&rx), Some(ProducerEvent::Data(7)));
    assert_eq!(p.next_event(&rx), Some(ProducerEvent::Data(8)));
    assert_eq!(p.next_event(&rx), Some(ProducerEvent::Data(9)));
    assert_eq!(p.next_event(&rx), Some(ProducerEvent::End));
    assert_eq!(p.next_event(&rx), None);
}

#[test]
fn end_to_end_range() {
    // A producer over 0..3 with demand granted up front emits exactly
    // Data(0), Data(1), Data(2), End — and nothing more, even when
    // demand keeps arriving afterwards.
    let mut p = RangeProducerBuilder::new().start(0).stop(3).build();
    let rx = p.event_stream().unwrap();
    p.request(3);
    p.poll();
    assert_eq!(p.next_event(&rx), Some(ProducerEvent::Data(0)));
    assert_eq!(p.next_event(&rx), Some(ProducerEvent::Data(1)));
    assert_eq!(p.next_event(&rx), Some(ProducerEvent::Data(2)));
    assert_eq!(p.next_event(&rx), Some(ProducerEvent::End));
    assert_eq!(p.next_event(&rx), None);
    p.request(10);
    p.poll();
    assert_eq!(p.next_event(&rx), None);
}

#[test]
fn demand_bounds_emission() {
    // With 2 units of demand granted, an open-ended range emits exactly
    // 2 items and then waits for more demand.
    let mut p = RangeProducerBuilder::new().start(0).stop(10).build();
    let rx = p.event_stream().unwrap();
    p.request(2);
    p.poll();
    assert_eq!(p.next_event(&rx), Some(ProducerEvent::Data(0)));
    assert_eq!(p.next_event(&rx), Some(ProducerEvent::Data(1)));
    assert_eq!(p.next_event(&rx), None);
    p.request(1);
    p.poll();
    assert_eq!(p.next_event(&rx), Some(ProducerEvent::Data(2)));
    assert_eq!(p.next_event(&rx), None);
}

#[test]
fn empty_range_ends_immediately() {
    // start == stop: the source is exhausted before the first item.
    let mut p = RangeProducerBuilder::new().start(4).stop(4).build();
    let rx = p.event_stream().unwrap();
    p.request(1);
    p.poll();
    assert_eq!(p.next_event(&rx), Some(ProducerEvent::End));
    assert_eq!(p.next_event(&rx), None);
}

#[test]
fn take_event_stream_once() {
    // The second take yields a distinguishable "already taken", even
    // after the first stream is dropped.
    let mut p = RangeProducer::new(0, None);
    let first = p.event_stream();
    assert!(first.is_some());
    drop(first);
    assert!(p.event_stream().is_none());

    let conduit: MapConduit<i64, i64, _> = MapConduit::new(|x: i64| x);
    let (mut c, mut mp) = conduit.split();
    assert!(c.event_stream().is_some());
    assert!(c.event_stream().is_none());
    assert!(mp.event_stream().is_some());
    assert!(mp.event_stream().is_none());
}

#[test]
fn cancellation_stops_range() {
    let mut p = RangeProducerBuilder::new().start(0).stop(100).build();
    let rx = p.event_stream().unwrap();
    p.cancel(CancelReason::Other(String::from("enough")));
    p.request(5);
    p.poll();
    assert_eq!(p.next_event(&rx), None);
}

#[test]
fn map_conduit_doubles() {
    // Piping a range producer over 0..3 through a doubling transform
    // and driving it with demand 3 yields 0, 2, 4 and then the end.
    let range = RangeProducerBuilder::new().start(0).stop(3).build();
    let conduit = MapConduit::new(|x: i64| x * 2);
    let (mut pipe, mut mp) = pipe_through(range, conduit);
    let rx = mp.event_stream().unwrap();
    mp.request(3);

    conduit_step(&mut pipe.consumer, &mut mp);
    pipe.step();
    pipe.producer.poll();
    pipe.step();
    conduit_step(&mut pipe.consumer, &mut mp);

    assert_eq!(mp.next_event(&rx), Some(ProducerEvent::Data(0)));
    assert_eq!(mp.next_event(&rx), Some(ProducerEvent::Data(2)));
    assert_eq!(mp.next_event(&rx), Some(ProducerEvent::Data(4)));
    assert_eq!(mp.next_event(&rx), Some(ProducerEvent::End));
    assert_eq!(mp.next_event(&rx), None);
}

#[test]
fn conduit_forwards_cancellation() {
    let conduit: MapConduit<i64, i64, _> = MapConduit::new(|x: i64| x);
    let (mut c, mut mp) = conduit.split();
    let crx = c.event_stream().unwrap();
    mp.cancel(CancelReason::Disconnected);
    conduit_step(&mut c, &mut mp);
    assert_eq!(
        c.next_event(&crx),
        Some(ConsumerEvent::Cancellation(CancelReason::Disconnected))
    );
}

#[test]
fn conduit_forwards_demand_upstream() {
    let conduit: MapConduit<i64, i64, _> = MapConduit::new(|x: i64| x);
    let (mut c, mut mp) = conduit.split();
    let crx = c.event_stream().unwrap();
    mp.request(7);
    conduit_step(&mut c, &mut mp);
    assert_eq!(c.next_event(&crx), Some(ConsumerEvent::Request(7)));
    assert_eq!(c.next_event(&crx), None);
}

#[test]
fn pipe_into_conduit_increments() {
    // Piping a range producer into a whole conduit: the conduit's
    // producer side stays reachable through the pipe and yields the
    // transformed items.
    let range = RangeProducerBuilder::new().start(0).stop(2).build();
    let mut pipe = omnistreams::pipe_into(range, MapConduit::new(|x: i64| x + 1));
    let rx = Producer::event_stream(&mut pipe.consumer).unwrap();
    Producer::request(&mut pipe.consumer, 3);

    for _ in 0..3 {
        Producer::poll(&mut pipe.consumer);
        pipe.step();
        pipe.producer.poll();
        pipe.step();
    }
    Producer::poll(&mut pipe.consumer);

    assert_eq!(Producer::next_event(&mut pipe.consumer, &rx), Some(ProducerEvent::Data(1)));
    assert_eq!(Producer::next_event(&mut pipe.consumer, &rx), Some(ProducerEvent::Data(2)));
    assert_eq!(Producer::next_event(&mut pipe.consumer, &rx), Some(ProducerEvent::End));
    assert_eq!(Producer::next_event(&mut pipe.consumer, &rx), None);
}

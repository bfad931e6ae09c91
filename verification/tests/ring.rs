use ring_buffer::RingBuffer;

#[test]
fn test_simple() {
    let mut buf = RingBuffer::with_capacity(3);
    buf.push(1);
    buf.push(2);
    buf.push(3);
    buf.push(4);
    buf.pop();
    let v: Vec<_> = buf.into_iter().collect();
    assert_eq!(v.len(), 2);
    assert_eq!(v[0], 3);
    assert_eq!(v[1], 4);
}

#[test]
fn test_pop() {
    let mut buf = RingBuffer::with_capacity(3);
    buf.push(1);
    assert_eq!(buf.pop(), Some(1));
    assert_eq!(buf.pop(), None);
    assert_eq!(buf.pop(), None);
}

#[test]
fn test_singleton() {
    let mut buf = RingBuffer::with_capacity(1);
    buf.push(1);
    buf.push(2);
    assert_eq!(buf.pop(), Some(2));
    assert_eq!(buf.pop(), None);
    buf.push(3);
    assert_eq!(buf.pop(), Some(3));
}

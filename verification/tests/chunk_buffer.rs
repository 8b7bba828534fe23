use stream_decoder::chunk_buffer::ChunkBuffer;

#[test]
fn chunk_buffer_read_single_chunk() {
    // reading smaller `n` from multiple larger chunks

    let mut buffer = ChunkBuffer::new();

    let data = &[0, 1, 2, 3, 4];
    assert_eq!(None, buffer.try_read(1));
    buffer.push(data.to_vec());
    assert_eq!(Some(&data[..3]), buffer.try_read(3));
    assert_eq!(Some(&data[3..]), buffer.try_read(2));
    assert_eq!(None, buffer.try_read(1));
}

#[test]
fn chunk_buffer_read_multi_chunk() {
    // reading a large `n` from multiple smaller chunks

    let mut buffer = ChunkBuffer::new();

    let chunks: &[&[u8]] = &[&[0, 1, 2], &[3, 4]];

    assert_eq!(None, buffer.try_read(1));
    buffer.push(chunks[0].to_vec());
    assert_eq!(None, buffer.try_read(5));
    buffer.push(chunks[1].to_vec());
    assert_eq!(Some(&[0, 1, 2, 3, 4][..]), buffer.try_read(5));
    assert_eq!(None, buffer.try_read(1));
}

#[test]
fn chunk_buffer_read_same_n() {
    // reading the same `n` multiple times should not return the same bytes

    let mut buffer = ChunkBuffer::new();

    let data = &[0, 1, 2, 3];
    buffer.push(data.to_vec());
    assert_eq!(data, buffer.try_read(4).unwrap());
    assert_eq!(None, buffer.try_read(4));
    let data = &[4, 5, 6, 7];
    buffer.push(data.to_vec());
    assert_eq!(data, buffer.try_read(4).unwrap());
    assert_eq!(None, buffer.try_read(4));
}

#[test]
fn chunk_buffer_empty_chunk_is_no_op() {
    // pushing a zero-length chunk never changes observable behavior

    let mut buffer = ChunkBuffer::new();

    buffer.push(Vec::new());
    assert_eq!(None, buffer.try_read(1));

    buffer.push(vec![7, 8]);
    buffer.push(Vec::new());
    buffer.push(vec![9]);
    buffer.push(Vec::new());
    assert_eq!(Some(&[7, 8, 9][..]), buffer.try_read(3));
    assert_eq!(None, buffer.try_read(1));
}

#[test]
fn chunk_buffer_read_zero_always_succeeds() {
    // a read of zero bytes succeeds immediately, even on an empty buffer

    let mut buffer = ChunkBuffer::new();
    assert_eq!(Some(&[][..]), buffer.try_read(0));
    assert_eq!(Some(&[][..]), buffer.try_read(0));

    buffer.push(vec![1, 2]);
    assert_eq!(Some(&[][..]), buffer.try_read(0));
    assert_eq!(Some(&[1, 2][..]), buffer.try_read(2));
}

#[test]
fn chunk_buffer_no_data_loss_across_partial_reads() {
    // repeated short reads never discard buffered bytes: once enough
    // bytes have arrived cumulatively, the full read comes out untouched

    let mut buffer = ChunkBuffer::new();

    buffer.push(vec![1]);
    assert_eq!(None, buffer.try_read(4));
    buffer.push(vec![2]);
    assert_eq!(None, buffer.try_read(4));
    buffer.push(vec![3]);
    assert_eq!(None, buffer.try_read(4));
    buffer.push(vec![4, 5]);
    assert_eq!(Some(&[1, 2, 3, 4][..]), buffer.try_read(4));
    assert_eq!(Some(&[5][..]), buffer.try_read(1));
}

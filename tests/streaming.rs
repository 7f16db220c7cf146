use ssb_api::{
    blobs_get_res, split_chunks, ApiError, BlobStream, BodyType, RpcType, StreamFrame,
    StreamState, TransportError, MAX_RPC_BODY_LEN,
};

/// Writes the frames of `stream` to a recording transport whose `fail_at`-th
/// write (counted from 1) fails.
fn drive(
    mut stream: BlobStream,
    fail_at: Option<usize>,
) -> (Vec<StreamFrame>, Result<(), ApiError>, BlobStream) {
    let mut written = Vec::new();
    let mut attempt = 0;
    while let Some(frame) = stream.next_frame() {
        attempt += 1;
        let outcome = if Some(attempt) == fail_at {
            Err(TransportError {
                message: "connection reset".to_string(),
            })
        } else {
            written.push(frame);
            Ok(())
        };
        if let Err(e) = stream.on_written(outcome) {
            return (written, Err(e), stream);
        }
    }
    (written, Ok(()), stream)
}

fn chunk_lengths(frames: &[StreamFrame]) -> Vec<usize> {
    frames
        .iter()
        .filter_map(|f| match f {
            StreamFrame::Chunk(r) => Some(r.body.len()),
            StreamFrame::End(_) => None,
        })
        .collect()
}

fn end_markers(frames: &[StreamFrame]) -> usize {
    frames
        .iter()
        .filter(|f| matches!(f, StreamFrame::End(_)))
        .count()
}

#[test]
fn empty_payload_gives_only_the_end_marker() {
    assert!(split_chunks(&[], MAX_RPC_BODY_LEN).is_empty());
    let (frames, result, stream) = drive(blobs_get_res(4, Vec::new()), None);
    assert_eq!(result, Ok(()));
    assert_eq!(frames, vec![StreamFrame::End(4)]);
    assert_eq!(stream.state(), StreamState::Completed);
}

#[test]
fn payload_of_exactly_one_frame() {
    let data = vec![7u8; 65536];
    let chunks = split_chunks(&data, 65536);
    assert_eq!(chunks.len(), 1);
    assert_eq!(chunks[0].len(), 65536);
    let (frames, result, _) = drive(blobs_get_res(1, data), None);
    assert_eq!(result, Ok(()));
    assert_eq!(chunk_lengths(&frames), vec![65536]);
    assert_eq!(end_markers(&frames), 1);
    assert_eq!(frames.last(), Some(&StreamFrame::End(1)));
}

#[test]
fn payload_one_byte_over_a_frame() {
    let data: Vec<u8> = (0..65537u32).map(|i| (i % 251) as u8).collect();
    let chunks = split_chunks(&data, 65536);
    assert_eq!(chunks.iter().map(|c| c.len()).collect::<Vec<_>>(), vec![65536, 1]);
    let (frames, result, _) = drive(blobs_get_res(2, data.clone()), None);
    assert_eq!(result, Ok(()));
    assert_eq!(chunk_lengths(&frames), vec![65536, 1]);
    assert_eq!(end_markers(&frames), 1);
    assert_eq!(frames.last(), Some(&StreamFrame::End(2)));
    let mut joined = Vec::new();
    for f in &frames {
        if let StreamFrame::Chunk(r) = f {
            assert_eq!(r.req_no, 2);
            assert_eq!(r.rpc_type, RpcType::Source);
            assert_eq!(r.body_type, BodyType::Binary);
            joined.extend_from_slice(&r.body);
        }
    }
    assert_eq!(joined, data);
}

#[test]
fn failure_on_second_of_three_chunks() {
    let data = vec![1u8; 2 * 65536 + 10];
    let (frames, result, stream) = drive(blobs_get_res(9, data), Some(2));
    assert_eq!(chunk_lengths(&frames), vec![65536]);
    assert_eq!(end_markers(&frames), 0);
    assert_eq!(
        result,
        Err(ApiError::Transport(TransportError {
            message: "connection reset".to_string()
        }))
    );
    assert_eq!(stream.state(), StreamState::Aborted);
    assert_eq!(stream.next_frame(), None);
}

#[test]
fn failure_on_the_end_marker() {
    let (frames, result, stream) = drive(blobs_get_res(3, vec![5u8; 10]), Some(2));
    assert_eq!(chunk_lengths(&frames), vec![10]);
    assert_eq!(end_markers(&frames), 0);
    assert!(result.is_err());
    assert_eq!(stream.state(), StreamState::Aborted);
}

#[test]
fn chunking_with_a_small_frame_size() {
    let data: Vec<u8> = (0..10u8).collect();
    let chunks = split_chunks(&data, 3);
    assert_eq!(
        chunks,
        vec![vec![0, 1, 2], vec![3, 4, 5], vec![6, 7, 8], vec![9]]
    );
    assert_eq!(split_chunks(&data, 5), vec![vec![0, 1, 2, 3, 4], vec![5, 6, 7, 8, 9]]);
    assert_eq!(split_chunks(&data, 100), vec![data.clone()]);
    assert_eq!(split_chunks(&data, 1).len(), 10);
}

#[test]
fn chunk_count_is_the_ceiling() {
    for len in [1usize, 2, 99, 100, 101, 250, 300] {
        let data = vec![0u8; len];
        let chunks = split_chunks(&data, 100);
        assert_eq!(chunks.len(), (len + 99) / 100);
        let joined: Vec<u8> = chunks.concat();
        assert_eq!(joined, data);
        for c in &chunks[..chunks.len() - 1] {
            assert_eq!(c.len(), 100);
        }
        let last = chunks.last().unwrap().len();
        assert!(last >= 1 && last <= 100);
    }
}

#[test]
fn large_payload_streams_in_order() {
    let data: Vec<u8> = (0..(3 * 65536 + 5) as u32).map(|i| (i % 256) as u8).collect();
    let (frames, result, _) = drive(BlobStream::new(11, data.clone()), None);
    assert_eq!(result, Ok(()));
    assert_eq!(chunk_lengths(&frames), vec![65536, 65536, 65536, 5]);
    assert_eq!(frames.len(), 5);
    assert_eq!(frames[4], StreamFrame::End(11));
}

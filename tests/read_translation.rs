use async_backends::{read_progress, Progress};

use std::pin::Pin;
use tokio::io::{AsyncRead, AsyncWriteExt, ReadBuf};

#[test]
fn pending_read_stays_pending() {
    let r = read_progress::<String>(Progress::Pending, 0, 0, 16);
    assert_eq!(r, Progress::Pending);
}

#[test]
fn fresh_cursor_reports_filled_length() {
    let r = read_progress::<String>(Progress::Ready(Ok(())), 0, 5, 8);
    assert_eq!(r, Progress::Ready(Ok(5)));
}

#[test]
fn reported_count_is_what_the_cursor_gained() {
    let r = read_progress::<String>(Progress::Ready(Ok(())), 2, 7, 8);
    assert_eq!(r, Progress::Ready(Ok(5)));
}

#[test]
fn full_buffer_reports_capacity() {
    let r = read_progress::<String>(Progress::Ready(Ok(())), 0, 8, 8);
    assert_eq!(r, Progress::Ready(Ok(8)));
}

#[test]
fn end_of_stream_reports_zero() {
    let r = read_progress::<String>(Progress::Ready(Ok(())), 0, 0, 8);
    assert_eq!(r, Progress::Ready(Ok(0)));
}

#[test]
fn read_error_passes_through() {
    let r = read_progress(Progress::Ready(Err("reset".to_string())), 0, 0, 8);
    assert_eq!(r, Progress::Ready(Err("reset".to_string())));
}

fn poll_once(stream: &mut tokio::io::DuplexStream, buf: &mut [u8]) -> Progress<std::io::Result<usize>> {
    futures_lite::future::block_on(futures_lite::future::poll_fn(|cx| {
        let capacity = buf.len();
        let mut cursor = ReadBuf::new(buf);
        let before = cursor.filled().len();
        let native = match Pin::new(&mut *stream).poll_read(cx, &mut cursor) {
            std::task::Poll::Ready(r) => Progress::Ready(r),
            std::task::Poll::Pending => Progress::Pending,
        };
        let after = cursor.filled().len();
        std::task::Poll::Ready(read_progress(native, before, after, capacity))
    }))
}

#[test]
fn bytes_written_come_back_through_the_translation() {
    let (mut a, mut b) = tokio::io::duplex(64);
    let sent: Vec<u8> = (0u8..40).collect();
    futures_lite::future::block_on(a.write_all(&sent)).unwrap();
    drop(a);
    let mut got: Vec<u8> = Vec::new();
    loop {
        let mut buf = [0u8; 16];
        match poll_once(&mut b, &mut buf) {
            Progress::Ready(Ok(0)) => break,
            Progress::Ready(Ok(n)) => {
                assert!(n <= buf.len());
                got.extend_from_slice(&buf[..n]);
            }
            Progress::Ready(Err(e)) => panic!("read failed: {e}"),
            Progress::Pending => panic!("a closed duplex never pends"),
        }
    }
    assert_eq!(got, sent);
}

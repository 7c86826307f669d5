use bls_drivers::chunked::{decode_chunked, ChunkedDecoder, DecodePhase};
use bls_drivers::error::IpfsErrorKind;

const WIKI: &[u8] = b"4\r\nWiki\r\n5\r\npedia\r\n0\r\n\r\n";

#[test]
fn wiki_stream_in_one_read() {
    let out = decode_chunked(&vec![WIKI.to_vec()]).unwrap();
    assert_eq!(out, b"Wikipedia".to_vec());
}

#[test]
fn wiki_stream_in_single_byte_reads() {
    let frags: Vec<Vec<u8>> = WIKI.iter().map(|b| vec![*b]).collect();
    let out = decode_chunked(&frags).unwrap();
    assert_eq!(out, b"Wikipedia".to_vec());
}

#[test]
fn wiki_stream_in_every_two_way_split() {
    for cut in 0..=WIKI.len() {
        let frags = vec![WIKI[..cut].to_vec(), WIKI[cut..].to_vec()];
        assert_eq!(decode_chunked(&frags).unwrap(), b"Wikipedia".to_vec(), "cut at {}", cut);
    }
}

#[test]
fn feed_reports_progress() {
    let mut d = ChunkedDecoder::new();
    assert_eq!(d.feed(b"4\r\nWi"), Ok(false));
    assert_eq!(d.phase(), DecodePhase::Waiting);
    assert_eq!(d.feed(b"ki\r\n"), Ok(false));
    assert_eq!(d.decoded(), &b"Wiki".to_vec());
    assert_eq!(d.feed(b"0\r\n\r\n"), Ok(true));
    assert_eq!(d.phase(), DecodePhase::Done);
    assert_eq!(d.feed(b"junk"), Ok(true));
    assert_eq!(d.decoded(), &b"Wiki".to_vec());
}

#[test]
fn hex_sizes_of_both_cases() {
    let mut stream = b"a\r\n0123456789\r\nB\r\nabcdefghijk\r\n0\r\n\r\n".to_vec();
    let out = decode_chunked(&vec![stream.clone()]).unwrap();
    assert_eq!(out, b"0123456789abcdefghijk".to_vec());
    stream.truncate(10);
    assert_eq!(decode_chunked(&vec![stream]), Err(IpfsErrorKind::RequestError));
}

#[test]
fn empty_body_is_just_the_last_chunk() {
    assert_eq!(decode_chunked(&vec![b"0\r\n\r\n".to_vec()]).unwrap(), Vec::<u8>::new());
}

#[test]
fn missing_crlf_after_data_is_a_request_error() {
    let frags = vec![b"4\r\nWikiXX5\r\npedia\r\n0\r\n\r\n".to_vec()];
    assert_eq!(decode_chunked(&frags), Err(IpfsErrorKind::RequestError));
}

#[test]
fn garbage_size_line_is_a_request_error() {
    let frags = vec![b"zz\r\nWiki\r\n".to_vec()];
    assert_eq!(decode_chunked(&frags), Err(IpfsErrorKind::RequestError));
}

#[test]
fn stream_cut_short_is_a_request_error() {
    let frags = vec![b"4\r\nWiki\r\n5\r\npe".to_vec()];
    assert_eq!(decode_chunked(&frags), Err(IpfsErrorKind::RequestError));
}

#[test]
fn no_reads_at_all_is_a_request_error() {
    assert_eq!(decode_chunked(&Vec::new()), Err(IpfsErrorKind::RequestError));
}

#[test]
fn chunk_extensions_and_blanks_are_accepted() {
    let frags = vec![b"4;name=val\r\nWiki\r\n5 \t;x\r\npedia\r\n0\r\n\r\n".to_vec()];
    assert_eq!(decode_chunked(&frags).unwrap(), b"Wikipedia".to_vec());
}

#[test]
fn malformed_size_lines_are_request_errors() {
    for bad in [&b"x\r\n"[..], b"4 4\r\nWiki\r\n", b"4\rX", b"11111111111111111\r\n"] {
        assert_eq!(decode_chunked(&vec![bad.to_vec()]), Err(IpfsErrorKind::RequestError));
    }
}

#[test]
fn size_line_split_inside_extension() {
    let frags = vec![b"4;ex".to_vec(), b"t\r".to_vec(), b"\nWiki\r\n0\r\n\r\n".to_vec()];
    assert_eq!(decode_chunked(&frags).unwrap(), b"Wiki".to_vec());
}

#[test]
fn end_of_input_before_last_chunk_is_a_request_error() {
    let mut d = ChunkedDecoder::new();
    assert_eq!(d.feed_read(b"4\r\nWiki\r\n", false), Ok(false));
    assert_eq!(d.feed_read(b"", true), Err(IpfsErrorKind::RequestError));
    assert_eq!(d.phase(), DecodePhase::Failed);
    let mut e = ChunkedDecoder::new();
    assert_eq!(e.feed_read(b"0\r\n\r\n", true), Ok(true));
}

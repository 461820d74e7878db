use cram::compression::{compress, decompress, or_codec_error, or_unchanged, Compress, Decompress};
use cram::sniff::{probable_compression, Compression};
use cram::types::Error;

fn sample() -> Vec<u8> {
    let mut data = Vec::new();
    for i in 0..2000u32 {
        data.extend_from_slice(format!("line {} of the sample\n", i % 37).as_bytes());
    }
    data
}

fn archive() -> Vec<u8> {
    vec![
        0x61, 0x2e, 0x74, 0x78, 0x74, 0x00, 0xe8, 0x03, 0, 0, 0, 0, 0, 0, 0x84, 0x03, 0, 0, 0, 0,
        0, 0, 0x02, 0, 0, 0, 0, 0, 0, 0, 0x68, 0x69,
    ]
}

fn all_kinds() -> Vec<Compression> {
    vec![
        Compression::Gzip,
        Compression::Lzma,
        Compression::Zstd,
        Compression::Brotli,
        Compression::Bzip2,
    ]
}

fn is_codec_error(r: Result<Vec<u8>, Error>, kind: Compression) -> bool {
    matches!(r, Err(Error::CodecError(k)) if k == kind)
}

#[test]
fn gzip_round_trips() {
    let data = sample();
    let packed = data.gzip().unwrap();
    assert_ne!(packed, data);
    assert!(packed.len() < data.len());
    assert_eq!(&packed[..2], &[0x1f, 0x8b]);
    assert_eq!(packed.gunzip().unwrap(), data);
}

#[test]
fn lzma_round_trips() {
    let data = sample();
    let packed = data.lzma().unwrap();
    assert_ne!(packed, data);
    assert!(packed.len() < data.len());
    assert_eq!(&packed[..6], &[0xfd, 0x37, 0x7a, 0x58, 0x5a, 0x00]);
    assert_eq!(packed.unlzma().unwrap(), data);
}

#[test]
fn zstd_round_trips() {
    let data = sample();
    let packed = data.zstd().unwrap();
    assert_ne!(packed, data);
    assert!(packed.len() < data.len());
    assert_eq!(&packed[..4], &[0x28, 0xb5, 0x2f, 0xfd]);
    assert_eq!(packed.unzstd().unwrap(), data);
}

#[test]
fn brotli_round_trips() {
    let data = sample();
    let packed = data.brotli().unwrap();
    assert_ne!(packed, data);
    assert!(packed.len() < data.len());
    assert_eq!(packed.unbrotli(), data);
}

#[test]
fn bzip2_round_trips() {
    let data = sample();
    let packed = data.bzip2().unwrap();
    assert_ne!(packed, data);
    assert!(packed.len() < data.len());
    assert_eq!(&packed[..3], &[0x42, 0x5a, 0x68]);
    assert_eq!(packed.unbzip2().unwrap(), data);
}

#[test]
fn empty_input_round_trips() {
    let empty: Vec<u8> = Vec::new();
    assert_eq!(empty.gzip().unwrap().gunzip().unwrap(), empty);
    assert_eq!(empty.lzma().unwrap().unlzma().unwrap(), empty);
    assert_eq!(empty.zstd().unwrap().unzstd().unwrap(), empty);
    assert_eq!(empty.brotli().unwrap().unbrotli(), empty);
    assert_eq!(empty.bzip2().unwrap().unbzip2().unwrap(), empty);
}

#[test]
fn the_dispatch_round_trips_for_every_kind() {
    let data = sample();
    for kind in all_kinds() {
        let packed = compress(&data, kind).unwrap();
        assert_ne!(packed, data);
        assert_eq!(decompress(&packed, kind).unwrap(), data);
    }
}

#[test]
fn the_dispatch_calls_the_codec_of_its_kind() {
    let data = sample();
    assert_eq!(compress(&data, Compression::Gzip).unwrap(), data.gzip().unwrap());
    assert_eq!(compress(&data, Compression::Lzma).unwrap(), data.lzma().unwrap());
    assert_eq!(compress(&data, Compression::Zstd).unwrap(), data.zstd().unwrap());
    assert_eq!(compress(&data, Compression::Brotli).unwrap(), data.brotli().unwrap());
    assert_eq!(compress(&data, Compression::Bzip2).unwrap(), data.bzip2().unwrap());
}

#[test]
fn what_is_no_stream_of_the_codec_is_a_codec_error() {
    let data = archive();
    assert!(is_codec_error(data.gunzip(), Compression::Gzip));
    assert!(is_codec_error(data.unlzma(), Compression::Lzma));
    assert!(is_codec_error(data.unzstd(), Compression::Zstd));
    assert!(is_codec_error(data.unbzip2(), Compression::Bzip2));
    assert!(is_codec_error(decompress(&data, Compression::Gzip), Compression::Gzip));
    assert!(is_codec_error(decompress(&data, Compression::Bzip2), Compression::Bzip2));
}

#[test]
fn a_damaged_stream_is_a_codec_error() {
    let data = sample();
    let mut gz = data.gzip().unwrap();
    gz.truncate(gz.len() / 2);
    assert!(is_codec_error(gz.gunzip(), Compression::Gzip));
    let mut xz = data.lzma().unwrap();
    xz.truncate(xz.len() / 2);
    assert!(is_codec_error(xz.unlzma(), Compression::Lzma));
    let mut bz = data.bzip2().unwrap();
    bz.truncate(bz.len() / 2);
    assert!(is_codec_error(bz.unbzip2(), Compression::Bzip2));
    let mut zs = data.zstd().unwrap();
    let last = zs.len() - 1;
    zs[8] ^= 0xff;
    zs[last] ^= 0xff;
    zs.truncate(last);
    assert!(is_codec_error(zs.unzstd(), Compression::Zstd));
}

#[test]
fn bytes_that_are_no_brotli_stream_come_back_unchanged() {
    let raw = archive();
    assert_eq!(raw.unbrotli(), raw);
    assert_eq!(decompress(&raw, Compression::Brotli).unwrap(), raw);
    let text = b"plain text, never compressed".to_vec();
    assert_eq!(text.unbrotli(), text);
}

#[test]
fn bytes_that_are_a_brotli_stream_are_decoded() {
    let empty_stream: Vec<u8> = vec![0x06];
    assert_eq!(empty_stream.unbrotli(), Vec::<u8>::new());
}

#[test]
fn a_missing_outcome_names_the_codec() {
    for kind in all_kinds() {
        assert!(is_codec_error(or_codec_error(None, kind), kind));
        assert_eq!(or_codec_error(Some(vec![1, 2, 3]), kind).unwrap(), vec![1, 2, 3]);
    }
}

#[test]
fn the_fallback_keeps_the_data_only_without_an_outcome() {
    let data = vec![7u8, 8, 9];
    assert_eq!(or_unchanged(None, &data), data);
    assert_eq!(or_unchanged(Some(vec![1]), &data), vec![1]);
    assert_eq!(or_unchanged(Some(vec![]), &data), Vec::<u8>::new());
}

#[test]
fn each_signature_selects_its_codec() {
    assert_eq!(probable_compression(&[0x1f, 0x8b]), Compression::Gzip);
    assert_eq!(probable_compression(&[0x1f, 0x8b, 8, 0, 0]), Compression::Gzip);
    assert_eq!(
        probable_compression(&[0xfd, 0x37, 0x7a, 0x58, 0x5a, 0x00, 0x00, 0x04]),
        Compression::Lzma
    );
    assert_eq!(probable_compression(&[0x28, 0xb5, 0x2f, 0xfd, 0x20]), Compression::Zstd);
    assert_eq!(probable_compression(&[0x42, 0x5a, 0x68, 0x39]), Compression::Bzip2);
}

#[test]
fn no_signature_selects_brotli() {
    assert_eq!(probable_compression(&[]), Compression::Brotli);
    assert_eq!(probable_compression(&[0x1f]), Compression::Brotli);
    assert_eq!(probable_compression(&[0x8b, 0x1f]), Compression::Brotli);
    assert_eq!(probable_compression(&[0x1f, 0x8a]), Compression::Brotli);
    assert_eq!(probable_compression(&[0xfd, 0x37, 0x7a, 0x58, 0x5a]), Compression::Brotli);
    assert_eq!(probable_compression(&[0xfd, 0x37, 0x7a, 0x58, 0x5a, 0x01]), Compression::Brotli);
    assert_eq!(probable_compression(&[0x28, 0xb5, 0x2f]), Compression::Brotli);
    assert_eq!(probable_compression(&[0x42, 0x5a]), Compression::Brotli);
    assert_eq!(probable_compression(&[0x00, 0x1f, 0x8b]), Compression::Brotli);
    assert_eq!(probable_compression(&archive()), Compression::Brotli);
}

#[test]
fn what_a_codec_writes_is_known_by_its_signature() {
    let data = sample();
    assert_eq!(probable_compression(&data.gzip().unwrap()), Compression::Gzip);
    assert_eq!(probable_compression(&data.lzma().unwrap()), Compression::Lzma);
    assert_eq!(probable_compression(&data.zstd().unwrap()), Compression::Zstd);
    assert_eq!(probable_compression(&data.bzip2().unwrap()), Compression::Bzip2);
    assert_eq!(probable_compression(&data.brotli().unwrap()), Compression::Brotli);
}

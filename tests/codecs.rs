use std::io::{Cursor, Read, Write};

use armbian_imager::decompress::{codec_for_name, Codec};

fn payload() -> Vec<u8> {
    let mut v = Vec::new();
    for i in 0..20000u32 {
        v.extend_from_slice(&(i.wrapping_mul(2654435761)).to_le_bytes());
        v.extend_from_slice(b"armbian");
    }
    v
}

fn compress(codec: Codec, data: &[u8]) -> Vec<u8> {
    match codec {
        Codec::Gz => {
            let mut e = flate2::write::GzEncoder::new(Vec::new(), flate2::Compression::default());
            e.write_all(data).unwrap();
            e.finish().unwrap()
        }
        Codec::Bz2 => {
            let mut e = bzip2::write::BzEncoder::new(Vec::new(), bzip2::Compression::default());
            e.write_all(data).unwrap();
            e.finish().unwrap()
        }
        Codec::Zst => zstd::encode_all(Cursor::new(data), 3).unwrap(),
        Codec::Xz => {
            let mut e = lzma_rust2::XzWriter::new(Vec::new(), lzma_rust2::XzOptions::with_preset(6)).unwrap();
            e.write_all(data).unwrap();
            e.finish().unwrap()
        }
    }
}

fn decompress(codec: Codec, data: Vec<u8>) -> Vec<u8> {
    let mut out = Vec::new();
    match codec {
        Codec::Gz => {
            flate2::read::GzDecoder::new(Cursor::new(data)).read_to_end(&mut out).unwrap();
        }
        Codec::Bz2 => {
            bzip2::read::BzDecoder::new(Cursor::new(data)).read_to_end(&mut out).unwrap();
        }
        Codec::Zst => {
            zstd::stream::read::Decoder::new(Cursor::new(data)).unwrap().read_to_end(&mut out).unwrap();
        }
        Codec::Xz => {
            lzma_rust2::XzReaderMt::new(Cursor::new(data), false, 2).unwrap().read_to_end(&mut out).unwrap();
        }
    }
    out
}

fn round_trip(name: &str) {
    let codec = codec_for_name(name).unwrap();
    let plain = payload();
    let packed = compress(codec, &plain);
    let unpacked = decompress(codec, packed);
    assert_eq!(unpacked, plain);
    let repacked = compress(codec, &unpacked);
    assert_eq!(decompress(codec, repacked), plain);
}

#[test]
fn xz_round_trip() {
    round_trip("image.img.xz");
}

#[test]
fn gz_round_trip() {
    round_trip("image.img.gz");
}

#[test]
fn bz2_round_trip() {
    round_trip("image.img.bz2");
}

#[test]
fn zst_round_trip() {
    round_trip("image.img.zst");
}

use std::collections::BTreeMap;

use imxrt_flash_algorithm::inflate::FLASH_BASE;
use imxrt_flash_algorithm::inflate::OUT_BUFFER_CAPACITY;
use imxrt_flash_algorithm::inflate::PAGE_SIZE;
use imxrt_flash_algorithm::Decompressor;
use imxrt_flash_algorithm::DecompressorError;
use imxrt_flash_algorithm::OutBuffer;
use imxrt_flash_algorithm::Step;

/// Flash contents by image address, and every page write in order.
#[derive(Default)]
struct Flash {
    bytes: BTreeMap<u32, u8>,
    writes: Vec<(u32, usize)>,
    fail_on_write: Option<(usize, u32)>,
}

impl Flash {
    fn read(&self, address: u32, len: usize) -> Vec<u8> {
        (0..len as u32)
            .map(|i| *self.bytes.get(&(address + i)).unwrap_or(&0xFF))
            .collect()
    }
}

/// Carries out the steps of one call until it is over.
fn drive(dec: &mut Decompressor, mut step: Step, flash: &mut Flash) -> Result<(), DecompressorError> {
    loop {
        match step {
            Step::WritePage(device_address) => {
                let page = dec.page().to_vec();
                let status = match flash.fail_on_write {
                    Some((n, status)) if n == flash.writes.len() => status,
                    _ => 0,
                };
                flash.writes.push((device_address, page.len()));
                if status == 0 {
                    let image_address = device_address.wrapping_add(FLASH_BASE);
                    for (i, b) in page.iter().enumerate() {
                        flash.bytes.insert(image_address + i as u32, *b);
                    }
                }
                step = dec.page_done(status);
            }
            Step::Done(r) => return r,
        }
    }
}

fn program(dec: &mut Decompressor, flash: &mut Flash, address: u32, data: &[u8]) -> Result<(), DecompressorError> {
    let step = dec.program(address, data);
    drive(dec, step, flash)
}

fn flush(dec: &mut Decompressor, flash: &mut Flash) -> Result<(), DecompressorError> {
    let step = dec.flush();
    drive(dec, step, flash)
}

fn zlib(data: &[u8]) -> Vec<u8> {
    miniz_oxide::deflate::compress_to_vec_zlib(data, 6)
}

fn with_header(compressed: &[u8]) -> Vec<u8> {
    let mut v = (compressed.len() as u32).to_le_bytes().to_vec();
    v.extend_from_slice(compressed);
    v
}

/// Sends `payload` (header included) in chunks of the given sizes, cycling.
fn send_chunked(dec: &mut Decompressor, flash: &mut Flash, address: u32, payload: &[u8], sizes: &[usize]) {
    let mut pos = 0;
    let mut k = 0;
    while pos < payload.len() {
        let mut n = sizes[k % sizes.len()];
        if pos == 0 && n < 4 {
            n = 4 + n;
        }
        let end = (pos + n).min(payload.len());
        program(dec, flash, address, &payload[pos..end]).unwrap();
        pos = end;
        k += 1;
    }
    flush(dec, flash).unwrap();
}

fn sample_image(len: usize) -> Vec<u8> {
    let mut state: u32 = 12345;
    (0..len)
        .map(|i| {
            state = state.wrapping_mul(1103515245).wrapping_add(12345);
            if i % 7 < 4 { b"firmware"[i % 8] } else { (state >> 16) as u8 }
        })
        .collect()
}

#[test]
fn hello_world_in_one_call() {
    let mut dec = Decompressor::new();
    let mut flash = Flash::default();
    let payload = with_header(&zlib(b"hello world"));
    assert_eq!(&payload[..4], &[payload.len() as u8 - 4, 0, 0, 0]);
    program(&mut dec, &mut flash, 0x1000, &payload).unwrap();
    flush(&mut dec, &mut flash).unwrap();
    assert_eq!(flash.read(0x1000, 11), b"hello world".to_vec());
    assert_eq!(flash.bytes.len(), 11);
    assert_eq!(dec.offset(), 11);
    assert_eq!(dec.image_start(), 0x1000);
    assert_eq!(dec.remaining_compressed(), 0);
    assert_eq!(flash.writes[0].0, 0x1000u32.wrapping_sub(0x6000_0000));
}

#[test]
fn hello_world_one_byte_at_a_time() {
    let mut dec = Decompressor::new();
    let mut flash = Flash::default();
    let payload = with_header(&zlib(b"hello world"));
    program(&mut dec, &mut flash, 0x1000, &payload[..5]).unwrap();
    for b in &payload[5..] {
        program(&mut dec, &mut flash, 0x1000, &[*b]).unwrap();
    }
    flush(&mut dec, &mut flash).unwrap();
    assert_eq!(flash.read(0x1000, 11), b"hello world".to_vec());
    assert_eq!(flash.bytes.len(), 11);
    assert_eq!(dec.offset(), 11);
}

#[test]
fn new_image_drains_the_unfinished_one_first() {
    let mut dec = Decompressor::new();
    let mut flash = Flash::default();
    let a = zlib(b"hello world");
    let b = zlib(b"second image");
    let mut first = (a.len() as u32).to_le_bytes().to_vec();
    first.extend_from_slice(&a[..a.len() - 6]);
    program(&mut dec, &mut flash, 0x1000, &first).unwrap();
    let staged = dec.staged_len();
    assert!(staged > 0);
    assert!(flash.writes.is_empty());

    let step = dec.program(0x2000, &with_header(&b));
    // The first page written is image A's staged prefix, at A's offset.
    assert_eq!(step, Step::WritePage(0x1000u32.wrapping_sub(FLASH_BASE)));
    assert_eq!(dec.page(), &b"hello world"[..staged]);
    assert_eq!(dec.image_start(), 0x1000);
    drive(&mut dec, step, &mut flash).unwrap();
    assert_eq!(dec.image_start(), 0x2000);
    flush(&mut dec, &mut flash).unwrap();
    assert_eq!(flash.read(0x1000, staged), b"hello world"[..staged].to_vec());
    assert_eq!(flash.read(0x2000, 12), b"second image".to_vec());
    assert_eq!(dec.offset(), 12);
}

#[test]
fn zero_declared_length_is_an_overrun() {
    let mut dec = Decompressor::new();
    let mut flash = Flash::default();
    let r = program(&mut dec, &mut flash, 0x1000, &[0, 0, 0, 0]);
    assert_eq!(r, Err(DecompressorError::Overrun));
    assert_eq!(dec.image_start(), 0x1000);
    assert_eq!(dec.remaining_compressed(), 0);
    assert_eq!(dec.offset(), 0);
    assert!(flash.writes.is_empty());
}

#[test]
fn data_past_the_declared_length_is_an_overrun() {
    let mut dec = Decompressor::new();
    let mut flash = Flash::default();
    program(&mut dec, &mut flash, 0x1000, &with_header(&zlib(b"hello world"))).unwrap();
    let staged = dec.staged_len();
    let offset = dec.offset();
    let r = program(&mut dec, &mut flash, 0x1000, &[1, 2, 3]);
    assert_eq!(r, Err(DecompressorError::Overrun));
    assert_eq!(dec.staged_len(), staged);
    assert_eq!(dec.offset(), offset);
    flush(&mut dec, &mut flash).unwrap();
    assert_eq!(flash.read(0x1000, 11), b"hello world".to_vec());
}

#[test]
fn short_first_chunk_is_an_underrun() {
    let mut dec = Decompressor::new();
    let mut flash = Flash::default();
    assert_eq!(program(&mut dec, &mut flash, 0x1000, &[7, 0]), Err(DecompressorError::Underrun));
    assert_eq!(dec.image_start(), 0xFFFF_FFFF);
    assert_eq!(dec.remaining_compressed(), 0);

    // With an image in progress and nothing staged, its cursor is kept.
    let payload = with_header(&zlib(b"hello world"));
    program(&mut dec, &mut flash, 0x1000, &payload[..8]).unwrap();
    flush(&mut dec, &mut flash).unwrap();
    let offset = dec.offset();
    let remaining = dec.remaining_compressed();
    assert_eq!(program(&mut dec, &mut flash, 0x2000, &[1, 2, 3]), Err(DecompressorError::Underrun));
    assert_eq!(dec.image_start(), 0x1000);
    assert_eq!(dec.offset(), offset);
    assert_eq!(dec.remaining_compressed(), remaining);
    assert_eq!(dec.staged_len(), 0);
}

#[test]
fn padding_past_the_declared_length_is_dropped() {
    let mut dec = Decompressor::new();
    let mut flash = Flash::default();
    let mut payload = with_header(&zlib(b"hello world"));
    payload.extend_from_slice(&[0xFF; 9]);
    program(&mut dec, &mut flash, 0x1000, &payload).unwrap();
    assert_eq!(dec.remaining_compressed(), 0);
    flush(&mut dec, &mut flash).unwrap();
    assert_eq!(flash.read(0x1000, 11), b"hello world".to_vec());
    assert_eq!(flash.bytes.len(), 11);
}

#[test]
fn chunking_does_not_change_what_is_written() {
    let image = sample_image(100_000);
    let compressed = zlib(&image);
    let payload = with_header(&compressed);
    assert_eq!(miniz_oxide::inflate::decompress_to_vec_zlib(&compressed).unwrap(), image);
    for sizes in [&[1usize][..], &[3, 250, 17], &[256], &[4096, 1], &[payload.len()]] {
        let mut dec = Decompressor::new();
        let mut flash = Flash::default();
        send_chunked(&mut dec, &mut flash, 0x6010_0000, &payload, sizes);
        assert_eq!(flash.read(0x6010_0000, image.len()), image);
        assert_eq!(flash.bytes.len(), image.len());
        assert_eq!(dec.offset() as usize, image.len());
    }
}

#[test]
fn every_byte_is_written_once_in_order() {
    let image = sample_image(70_000);
    let payload = with_header(&zlib(&image));
    let mut dec = Decompressor::new();
    let mut flash = Flash::default();
    send_chunked(&mut dec, &mut flash, 0x6000_0000, &payload, &[1000]);
    let mut expected = 0u32;
    for (address, len) in &flash.writes {
        assert_eq!(*address, expected);
        assert!(*len >= 1 && *len <= PAGE_SIZE);
        expected += *len as u32;
    }
    assert_eq!(expected as usize, image.len());
}

#[test]
fn filling_the_buffer_drains_before_decoding_on() {
    let image = vec![0u8; OUT_BUFFER_CAPACITY];
    let payload = with_header(&zlib(&image));
    let mut dec = Decompressor::new();
    let step = dec.program(0x6000_0000, &payload);
    // The whole output fits only just: it is drained, a page at a time.
    assert_eq!(step, Step::WritePage(0));
    assert_eq!(dec.staged_len(), 0);
    assert_eq!(dec.offset() as usize, OUT_BUFFER_CAPACITY);
    let mut flash = Flash::default();
    drive(&mut dec, step, &mut flash).unwrap();
    assert_eq!(flash.writes.len(), OUT_BUFFER_CAPACITY / PAGE_SIZE);
    assert_eq!(flash.read(0x6000_0000, OUT_BUFFER_CAPACITY), image);
    assert_eq!(flush(&mut dec, &mut flash), Ok(()));
    assert_eq!(flash.writes.len(), OUT_BUFFER_CAPACITY / PAGE_SIZE);
}

#[test]
fn failed_page_write_is_reported_and_offset_moves_on() {
    let image = sample_image(1000);
    let payload = with_header(&zlib(&image));
    let mut dec = Decompressor::new();
    let mut flash = Flash { fail_on_write: Some((1, 20100)), ..Flash::default() };
    // The image completes in this call, so its drain happens here.
    let r = program(&mut dec, &mut flash, 0x6000_0000, &payload);
    assert_eq!(r, Err(DecompressorError::ProgramError(20100)));
    assert_eq!(flash.writes.len(), 2);
    assert_eq!(dec.offset(), 1000);
    assert!(dec.is_idle());
    assert_eq!(dec.staged_len(), 0);
    assert_eq!(flash.read(0x6000_0000, 256), image[..256].to_vec());
    assert_eq!(flush(&mut dec, &mut flash), Ok(()));
    assert_eq!(flash.writes.len(), 2);
}

#[test]
fn corrupt_stream_is_a_decoder_failure() {
    let mut dec = Decompressor::new();
    let mut flash = Flash::default();
    let r = program(&mut dec, &mut flash, 0x1000, &with_header(&[0x12, 0x34, 0x56, 0x78]));
    match r {
        Err(DecompressorError::MinizError(code)) => assert!(code < 0),
        other => panic!("unexpected {:?}", other),
    }
}

#[test]
fn truncated_stream_is_a_decoder_failure() {
    let compressed = zlib(b"hello world");
    let mut dec = Decompressor::new();
    let mut flash = Flash::default();
    let mut payload = ((compressed.len() - 5) as u32).to_le_bytes().to_vec();
    payload.extend_from_slice(&compressed[..compressed.len() - 5]);
    let r = program(&mut dec, &mut flash, 0x1000, &payload);
    assert!(matches!(r, Err(DecompressorError::MinizError(c)) if c < 0));
}

#[test]
fn flush_with_nothing_staged_writes_nothing() {
    let mut dec = Decompressor::new();
    let mut flash = Flash::default();
    assert_eq!(dec.flush(), Step::Done(Ok(())));
    assert_eq!(flush(&mut dec, &mut flash), Ok(()));
    assert!(flash.writes.is_empty());
    assert_eq!(dec.offset(), 0);
}

#[test]
fn error_codes_are_flat_numbers() {
    assert_eq!(DecompressorError::ProgramError(20100).code(), 20100);
    assert_eq!(DecompressorError::MinizError(-4).code(), 10000);
    assert_eq!(DecompressorError::MinizError(-1).code(), 10003);
    assert_eq!(DecompressorError::Overrun.code(), 20000);
    assert_eq!(DecompressorError::Underrun.code(), 20001);
}

#[test]
fn out_buffer_starts_empty() {
    let mut b = OutBuffer::new();
    assert!(!b.full());
    let n = b.take(|d| d.len());
    assert_eq!(n, 0);
}

use std::io::Write;
use kindroid_manager::domain::image_share::{
    check_payload_version, encode_image, encode_rgba_with_payload, payload_text, read_kindroid_text,
    strip_kindroid_metadata, text_chunk_data, ImageShareError,
};
use kindroid_manager::domain::share_code::PartialCharacter;

fn make_png(width: u32, height: u32, color: [u8; 4]) -> Vec<u8> {
    let mut data = Vec::with_capacity((width * height * 4) as usize);
    for _ in 0..(width * height) as usize {
        data.extend_from_slice(&color);
    }
    let mut out = Vec::new();
    {
        let mut encoder = png::Encoder::new(&mut out, width, height);
        encoder.set_color(png::ColorType::Rgba);
        encoder.set_depth(png::BitDepth::Eight);
        let mut writer = encoder.write_header().unwrap();
        writer.write_image_data(&data).unwrap();
    }
    out
}

/// The share payload of the test character (Aria, with a greeting), as the
/// application serialises it.
fn character_payload() -> String {
    r#"{"v":2,"p":{"ai_name":"Aria","ai_gender":"female","ai_backstory":"Backstory","ai_memory":"Memory","greeting":"Hello!"}}"#
        .to_string()
}

fn png_crc(chunk_type: &[u8], data: &[u8]) -> [u8; 4] {
    let mut table = [0u32; 256];
    for n in 0..256u32 {
        let mut c = n;
        for _ in 0..8 {
            c = if c & 1 != 0 {
                0xedb88320 ^ (c >> 1)
            } else {
                c >> 1
            };
        }
        table[n as usize] = c;
    }
    let mut crc = 0xffffffffu32;
    for &b in chunk_type.iter().chain(data.iter()) {
        crc = table[((crc ^ b as u32) & 0xff) as usize] ^ (crc >> 8);
    }
    (crc ^ 0xffffffff).to_be_bytes()
}

fn text_chunk(payload: &[u8]) -> Vec<u8> {
    let mut chunk = Vec::new();
    chunk.extend_from_slice(&(payload.len() as u32).to_be_bytes());
    chunk.extend_from_slice(b"tEXt");
    chunk.extend_from_slice(payload);
    chunk.extend_from_slice(&png_crc(b"tEXt", payload));
    chunk
}

fn find_iend(png: &[u8]) -> Option<usize> {
    let mut pos = 8;
    while pos + 12 <= png.len() {
        let length =
            u32::from_be_bytes([png[pos], png[pos + 1], png[pos + 2], png[pos + 3]]) as usize;
        pos += 4;
        let chunk_type = &png[pos..pos + 4];
        pos += 4;
        if chunk_type == b"IEND" {
            return Some(pos - 8);
        }
        pos += length + 4;
    }
    None
}

fn read_text_chunk(png: &[u8], key: &str) -> Option<String> {
    let mut pos = 8;
    while pos + 12 <= png.len() {
        let length =
            u32::from_be_bytes([png[pos], png[pos + 1], png[pos + 2], png[pos + 3]]) as usize;
        pos += 4;
        let chunk_type = &png[pos..pos + 4];
        pos += 4;
        let data = &png[pos..pos + length];
        pos += length + 4;
        if chunk_type == b"tEXt" {
            let null = data.iter().position(|&b| b == 0)?;
            if &data[..null] == key.as_bytes() {
                return Some(String::from_utf8(data[null + 1..].to_vec()).unwrap());
            }
        }
    }
    None
}

fn decoded_field(image: &[u8], field: &str) -> Option<String> {
    let text = payload_text(image).unwrap();
    let v: serde_json::Value = serde_json::from_str(&text).unwrap();
    v.get("p")
        .and_then(|p| p.get(field))
        .and_then(|f| f.as_str())
        .map(|s| s.to_string())
}

#[test]
fn round_trip() {
    let png = make_png(4, 4, [255, 0, 0, 255]);
    let encoded = encode_image(&png, &character_payload()).unwrap();
    assert_eq!(decoded_field(&encoded, "ai_name").as_deref(), Some("Aria"));
    assert_eq!(decoded_field(&encoded, "greeting").as_deref(), Some("Hello!"));
}

#[test]
fn encoded_image_contains_kindroid_chunk() {
    let png = make_png(2, 2, [0, 0, 0, 255]);
    let encoded = encode_image(&png, &character_payload()).unwrap();
    let mut found = false;
    let mut pos = 8;
    while pos + 12 <= encoded.len() {
        let length = u32::from_be_bytes([
            encoded[pos],
            encoded[pos + 1],
            encoded[pos + 2],
            encoded[pos + 3],
        ]) as usize;
        pos += 4;
        let chunk_type = &encoded[pos..pos + 4];
        pos += 4;
        if chunk_type == b"tEXt" && pos + length <= encoded.len() {
            let data = &encoded[pos..pos + length];
            if data.starts_with(b"kindroid\0") {
                found = true;
                break;
            }
        }
        pos += length + 4;
    }
    assert!(found, "kindroid tEXt chunk not found");
}

#[test]
fn rejects_image_without_payload() {
    let png = make_png(2, 2, [0, 0, 0, 255]);
    let err = payload_text(&png).unwrap_err();
    assert!(matches!(err, ImageShareError::NoPayload));
}

#[test]
fn rejects_non_png() {
    let err = payload_text(b"not a png").unwrap_err();
    assert!(matches!(err, ImageShareError::NoPayload));
}

#[test]
fn unsupported_version_rejected() {
    let mut payload = b"kindroid\0".to_vec();
    payload.extend_from_slice(br#"{"v":99,"p":{}}"#);
    let mut png = vec![0x89, b'P', b'N', b'G', 0x0d, 0x0a, 0x1a, 0x0a];
    let mut ihdr = Vec::new();
    ihdr.extend_from_slice(&13u32.to_be_bytes());
    ihdr.extend_from_slice(b"IHDR");
    ihdr.extend_from_slice(&1u32.to_be_bytes());
    ihdr.extend_from_slice(&1u32.to_be_bytes());
    ihdr.push(8);
    ihdr.push(6);
    ihdr.extend_from_slice(&[0, 0, 0]);
    ihdr.extend_from_slice(&png_crc(b"IHDR", &ihdr[8..]));
    png.extend_from_slice(&ihdr);
    png.extend_from_slice(&text_chunk(&payload));
    let raw = [0u8, 0, 0, 0, 0];
    let compressed = {
        let mut enc = flate2::write::ZlibEncoder::new(Vec::new(), flate2::Compression::default());
        enc.write_all(&raw).unwrap();
        enc.finish().unwrap()
    };
    let mut idat = Vec::new();
    idat.extend_from_slice(&(compressed.len() as u32).to_be_bytes());
    idat.extend_from_slice(b"IDAT");
    idat.extend_from_slice(&compressed);
    idat.extend_from_slice(&png_crc(b"IDAT", &compressed));
    png.extend_from_slice(&idat);
    png.extend_from_slice(&0u32.to_be_bytes());
    png.extend_from_slice(b"IEND");
    png.extend_from_slice(&png_crc(b"IEND", &[]));

    let text = payload_text(&png).unwrap();
    let v: serde_json::Value = serde_json::from_str(&text).unwrap();
    let version = v.get("v").unwrap().as_u64().unwrap() as u32;
    let err = check_payload_version(version, PartialCharacter::default()).unwrap_err();
    match err {
        ImageShareError::UnsupportedVersion(99) => {}
        other => panic!("expected UnsupportedVersion, got {other:?}"),
    }
}

#[test]
fn encodes_jpeg_input_as_png() {
    let mut buf = Vec::new();
    {
        let mut encoder = image::codecs::jpeg::JpegEncoder::new(&mut buf);
        let img = image::RgbImage::from_pixel(8, 8, image::Rgb([10, 20, 30]));
        encoder
            .encode(img.as_raw(), 8, 8, image::ExtendedColorType::Rgb8)
            .unwrap();
    }
    let encoded = encode_image(&buf, &character_payload()).unwrap();
    assert!(encoded.starts_with(b"\x89PNG\r\n\x1a\n"));
    assert_eq!(decoded_field(&encoded, "ai_name").as_deref(), Some("Aria"));
}

#[test]
fn partial_character_field_omitted_from_image_metadata() {
    let payload = r#"{"v":2,"p":{"ai_name":"Aria","ai_gender":"female"}}"#;
    let png = make_png(2, 2, [0, 255, 0, 255]);
    let encoded = encode_image(&png, payload).unwrap();
    assert_eq!(decoded_field(&encoded, "ai_backstory"), None);
    assert_eq!(decoded_field(&encoded, "greeting"), None);
}

#[test]
fn strip_kindroid_removes_only_our_chunk() {
    let png = make_png(2, 2, [0, 0, 0, 255]);
    let encoded = encode_image(&png, &character_payload()).unwrap();
    assert!(read_kindroid_text(&encoded).unwrap().is_some());

    let stripped = strip_kindroid_metadata(&encoded);
    assert!(read_kindroid_text(&stripped).unwrap().is_none());
    assert!(stripped.starts_with(b"\x89PNG\r\n\x1a\n"));
    let ihdr_len = u32::from_be_bytes([stripped[8], stripped[9], stripped[10], stripped[11]]);
    assert_eq!(ihdr_len, 13);
    assert_eq!(&stripped[12..16], b"IHDR");
}

#[test]
fn strip_kindroid_preserves_other_text_chunks() {
    let png = make_png(1, 1, [0, 0, 0, 255]);
    let mut bytes = encode_image(&png, &character_payload()).unwrap();
    let chunk = text_chunk(b"prompt\0{\"foo\":1}");
    let iend_chunk_start = find_iend(&bytes).unwrap();
    bytes.splice(iend_chunk_start..iend_chunk_start, chunk.iter().cloned());

    let stripped = strip_kindroid_metadata(&bytes);
    assert!(read_kindroid_text(&stripped).unwrap().is_none());
    let prompt = read_text_chunk(&stripped, "prompt").unwrap();
    assert_eq!(prompt, "{\"foo\":1}");
}

#[test]
fn strip_kindroid_passes_non_png_through() {
    let jpeg = vec![0xFF, 0xD8, 0xFF, 0xE0, 0, 16];
    let stripped = strip_kindroid_metadata(&jpeg);
    assert_eq!(stripped, jpeg);
}

#[test]
fn strip_kindroid_passes_png_without_our_chunk_through() {
    let png = make_png(2, 2, [0, 0, 0, 255]);
    let stripped = strip_kindroid_metadata(&png);
    assert_eq!(stripped, png);
}

#[test]
fn stripping_twice_changes_nothing_more() {
    let png = make_png(2, 2, [9, 9, 9, 255]);
    let encoded = encode_image(&png, &character_payload()).unwrap();
    let once = strip_kindroid_metadata(&encoded);
    let twice = strip_kindroid_metadata(&once);
    assert_eq!(once, twice);
}

#[test]
fn non_png_has_no_text_to_read() {
    assert!(matches!(read_kindroid_text(b"GIF89a"), Err(ImageShareError::NotPng)));
}

#[test]
fn truncated_chunk_is_malformed() {
    let mut png = make_png(1, 1, [0, 0, 0, 255]);
    png.truncate(8);
    png.extend_from_slice(&1000u32.to_be_bytes());
    png.extend_from_slice(b"tEXt");
    png.extend_from_slice(&[0u8; 8]);
    assert!(matches!(payload_text(&png), Err(ImageShareError::Malformed(_))));
}

#[test]
fn text_chunk_data_is_keyword_nul_payload() {
    assert_eq!(text_chunk_data("{}"), b"kindroid\0{}".to_vec());
}

#[test]
fn undecodable_image_is_a_codec_error() {
    assert!(matches!(
        encode_image(b"definitely not an image", "{}"),
        Err(ImageShareError::Codec(_))
    ));
}

#[test]
fn current_version_payload_is_accepted() {
    assert!(check_payload_version(2, PartialCharacter::default()).is_ok());
}

#[test]
fn legacy_v1_image_payload_still_decodes() {
    let legacy = r#"{"v":1,"p":{"ai_name":"Aria"}}"#;
    let img = encode_image(&make_png(2, 2, [10, 20, 30, 255]), legacy).unwrap();
    let text = payload_text(&img).unwrap();
    assert_eq!(text, legacy);
    let v: serde_json::Value = serde_json::from_str(&text).unwrap();
    let version = v.get("v").unwrap().as_u64().unwrap() as u32;
    let name = v["p"]["ai_name"].as_str().unwrap().to_string();
    assert!(v["p"].get("journal_entries").is_none());
    let partial = PartialCharacter {
        ai_name: Some(name),
        ..PartialCharacter::default()
    };
    let p = check_payload_version(version, partial).unwrap();
    assert_eq!(p.ai_name, Some("Aria".to_string()));
    assert!(p.journal_entries.is_empty());
}

#[test]
fn versions_outside_the_supported_range_are_refused() {
    assert!(matches!(
        check_payload_version(0, PartialCharacter::default()),
        Err(ImageShareError::UnsupportedVersion(0))
    ));
    assert!(matches!(
        check_payload_version(3, PartialCharacter::default()),
        Err(ImageShareError::UnsupportedVersion(3))
    ));
    assert!(check_payload_version(1, PartialCharacter::default()).is_ok());
}

#[test]
fn image_share_error_messages() {
    assert_eq!(ImageShareError::NotPng.message(), "not a PNG file");
    assert_eq!(
        ImageShareError::UnsupportedVersion(99).message(),
        "unsupported share-code version: 99"
    );
}

#[test]
fn raw_pixels_are_written_as_a_png_carrying_the_payload() {
    let px = [1u8, 2, 3, 255, 4, 5, 6, 255];
    let out = encode_rgba_with_payload(2, 1, &px, "{\"v\":2}").unwrap();
    assert_eq!(&out[..8], &[137, 80, 78, 71, 13, 10, 26, 10]);
    assert_eq!(payload_text(&out).unwrap(), "{\"v\":2}");
    let decoded = image::load_from_memory(&out).unwrap().to_rgba8();
    assert_eq!(decoded.dimensions(), (2, 1));
    assert_eq!(decoded.into_raw(), px.to_vec());
    assert!(matches!(
        encode_rgba_with_payload(0, 0, &[], "{}"),
        Err(ImageShareError::Codec(_))
    ));
}

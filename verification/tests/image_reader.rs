use cyberpixie::{
    pixels::Rgb8,
    proto::types::Hertz,
    storage::{Image, ImageLines, ImageReader, ReadExactError, SeekFrom},
};

const BLOCK_SIZE: usize = 32;

type Reader<'a> = ImageReader<&'a [u8], BLOCK_SIZE>;

fn make_block_device(s: impl AsRef<[u8]>) -> Vec<u8> {
    let mut bytes = s.as_ref().to_owned();

    let add_bytes = BLOCK_SIZE - bytes.len() % BLOCK_SIZE;
    bytes.extend(std::iter::repeat(0).take(add_bytes));
    bytes
}

const LOREM: &str = "The standard Lorem Ipsum passage, used since the 1500s \
        Lorem ipsum dolor sit amet, consectetur adipiscing elit, sed do eiusmod \
        tempor incididunt ut labore et dolore magna aliqua. Ut enim ad minim veniam, ";

fn read_by_parts(reader: &mut Reader<'_>, part: usize) -> Vec<u8> {
    let mut out = vec![];
    loop {
        let mut buf = vec![0_u8; part];
        let bytes_read = reader.read(&mut buf).unwrap();
        if bytes_read == 0 {
            break;
        }

        out.extend_from_slice(&buf[0..bytes_read]);
    }
    out
}

#[test]
fn test_make_block_device() {
    let block = make_block_device("hello world");
    assert_eq!(block.len(), 32);

    // More big block
    let block = make_block_device("Section 1.10.32 of 'de Finibus Bonorum");
    assert_eq!(block.len(), 64);

    // The biggest one
    let block = make_block_device(
        "Section 1.10.32 of 'de Finibus Bonorum et Malorum', written by Cicero in 45 BC",
    );
    assert_eq!(block.len(), 96);
}

#[test]
fn test_image_reader_read_exact_lesser_than_block() {
    let s = "hello world";

    let blocks = make_block_device(s);

    let image_len = s.len();
    let mut reader = Image {
        refresh_rate: Hertz(50),
        bytes: Reader::new_in_array(blocks.as_slice(), image_len),
    };

    let mut buf = vec![0_u8; image_len];
    reader.bytes.read_exact(&mut buf).unwrap();

    assert_eq!(s, String::from_utf8_lossy(&buf));
    // Go to the image beginning and try to read again
    reader.bytes.seek(SeekFrom::Start(0)).unwrap();
    reader.bytes.read_exact(&mut buf).unwrap();
    assert_eq!(s, String::from_utf8_lossy(&buf));
}

#[test]
fn test_image_reader_read_parts_lesser_than_block() {
    let s = "hello world";

    let blocks = make_block_device(s);

    let image_len = s.len();
    let mut reader = Image {
        refresh_rate: Hertz(50),
        bytes: Reader::new_in_array(blocks.as_slice(), image_len),
    };

    let out = read_by_parts(&mut reader.bytes, 3);
    assert_eq!(s, String::from_utf8_lossy(&out));
}

#[test]
fn test_image_reader_read_exact_multiple_blocks() {
    let s = LOREM;

    let blocks = make_block_device(s);

    let image_len = s.len();
    let mut reader = Image {
        refresh_rate: Hertz(50),
        bytes: Reader::new_in_array(blocks.as_slice(), image_len),
    };

    let mut buf = vec![0_u8; image_len];
    reader.bytes.read_exact(&mut buf).unwrap();

    assert_eq!(s, String::from_utf8_lossy(&buf));
    // Check that there are no bytes in the reader
    assert_eq!(0, reader.bytes.read(&mut buf).unwrap());
    // Go to the image beginning and try to read again
    reader.bytes.seek(SeekFrom::Start(0)).unwrap();
    reader.bytes.read_exact(&mut buf).unwrap();
    assert_eq!(s, String::from_utf8_lossy(&buf));
}

#[test]
fn test_image_reader_read_parts_multiple_blocks() {
    let s = LOREM;

    let blocks = make_block_device(s);

    let image_len = s.len();
    let mut reader = Image {
        refresh_rate: Hertz(50),
        bytes: Reader::new_in_array(blocks.as_slice(), image_len),
    };

    let out = read_by_parts(&mut reader.bytes, 3);
    assert_eq!(s, String::from_utf8_lossy(&out));
    // Go to the image beginning and try to read again
    reader.rewind().unwrap();
    let out = read_by_parts(&mut reader.bytes, 3);
    assert_eq!(s, String::from_utf8_lossy(&out));
}

#[test]
fn test_image_reader_read_big_parts_multiple_blocks() {
    let s = LOREM;

    let blocks = make_block_device(s);

    let image_len = s.len();
    let mut reader = Image {
        refresh_rate: Hertz(50),
        bytes: Reader::new_in_array(blocks.as_slice(), image_len),
    };

    let out = read_by_parts(&mut reader.bytes, BLOCK_SIZE + 4);
    assert_eq!(s, String::from_utf8_lossy(&out));
}

#[test]
fn test_image_reader_read_single_byte_buf_multiple_blocks() {
    let s = LOREM;

    let blocks = make_block_device(s);

    let image_len = s.len();
    let mut reader = Image {
        refresh_rate: Hertz(50),
        bytes: Reader::new_in_array(blocks.as_slice(), image_len),
    };

    let out = read_by_parts(&mut reader.bytes, 1);
    assert_eq!(s, String::from_utf8_lossy(&out));
}

#[test]
fn image_reader_read_stops_at_block_end() {
    let s = LOREM;
    let blocks = make_block_device(s);
    let mut reader = Reader::new_in_array(blocks.as_slice(), s.len());
    let mut buf = [0_u8; 20];
    assert_eq!(reader.read(&mut buf).unwrap(), 20);
    // Only 12 bytes remain in the first block.
    assert_eq!(reader.read(&mut buf).unwrap(), 12);
    assert_eq!(&buf[0..12], &s.as_bytes()[20..32]);
}

#[test]
fn image_reader_read_exact_past_end_is_eof() {
    let s = "hello world";
    let blocks = make_block_device(s);
    let mut reader = Reader::new_in_array(blocks.as_slice(), s.len());
    let mut buf = vec![0_u8; s.len() + 1];
    assert_eq!(reader.read_exact(&mut buf), Err(ReadExactError::UnexpectedEof));
    assert_eq!(&buf[0..s.len()], s.as_bytes());
}

#[test]
fn image_reader_new_with_own_buffer() {
    let s = "hello world";
    let blocks = make_block_device(s);
    let mut reader = Reader::new(blocks.as_slice(), s.len(), vec![0_u8; 40]);
    let mut buf = vec![0_u8; s.len()];
    reader.read_exact(&mut buf).unwrap();
    assert_eq!(buf, s.as_bytes());
}

/// A synthetic picture: every line of a 48 pixel strip has its own colours.
fn striped_picture(width: usize, height: usize) -> Vec<u8> {
    let mut raw = Vec::with_capacity(width * height * 3);
    for line in 0..height {
        for x in 0..width {
            raw.push((line % 251) as u8);
            raw.push((x * 5) as u8);
            raw.push(((line * 7 + x) % 256) as u8);
        }
    }
    raw
}

#[test]
fn test_image_lines_cycle_nyan_cat() {
    let raw = striped_picture(48, 360);

    let image = Image {
        refresh_rate: Hertz(50),
        bytes: Reader::new_in_array(raw.as_slice(), raw.len()),
    };

    let mut lines = ImageLines::new(image, 48, vec![0_u8; 512]);
    let first_line: Vec<Rgb8> = lines.next_line().unwrap();
    // Render a lot of lines
    for _ in 1..360 {
        let _line = lines.next_line().unwrap();
    }
    // After several cycles we should return back to the first image line
    let line = lines.next_line().unwrap();
    assert_eq!(first_line, line);
    // Check that the next line is not equal the first one
    let line = lines.next_line().unwrap();
    assert_ne!(first_line, line);
}

#[test]
fn image_lines_refresh_rate_and_pixels() {
    let raw: Vec<u8> = (0..12).collect();
    let image = Image {
        refresh_rate: Hertz(250),
        bytes: Reader::new_in_array(raw.as_slice(), raw.len()),
    };
    let mut lines = ImageLines::new(image, 2, vec![0_u8; 6]);
    assert_eq!(lines.refresh_rate(), Hertz(500));
    assert_eq!(
        lines.next_line().unwrap(),
        vec![Rgb8 { r: 0, g: 1, b: 2 }, Rgb8 { r: 3, g: 4, b: 5 }]
    );
    assert_eq!(
        lines.next_line().unwrap(),
        vec![Rgb8 { r: 6, g: 7, b: 8 }, Rgb8 { r: 9, g: 10, b: 11 }]
    );
    // Back to the first line.
    assert_eq!(lines.next_line().unwrap()[0], Rgb8 { r: 0, g: 1, b: 2 });
}

use std::convert::Infallible;

use cyberpixie::storage::BlockReader;

const BLOCK_SIZE: usize = 32;

fn read_block(device: &[u8], index: usize, buf: &mut [u8]) -> Result<(), Infallible> {
    <&[u8] as BlockReader<BLOCK_SIZE>>::read_block(&device, index, buf)
}

#[test]
fn test_block_reader_smoke() {
    let blocks_count = 10;

    let blocks = (0..blocks_count)
        .flat_map(|block| (0..BLOCK_SIZE).map(move |_| block as u8))
        .collect::<Vec<u8>>();

    let mut block_buf = [0_u8; BLOCK_SIZE];
    for i in 0..blocks_count {
        read_block(blocks.as_slice(), i, &mut block_buf).unwrap();

        assert_eq!(block_buf, [i as u8; BLOCK_SIZE]);
    }
}

#[test]
fn test_block_reader_partial_read() {
    let blocks = [117_u8; BLOCK_SIZE];

    let mut read_buf = [0_u8; 4];
    read_block(blocks.as_slice(), 0, &mut read_buf).unwrap();

    assert_eq!(read_buf, [117_u8; 4]);
}

#[test]
fn block_reader_reads_second_block_prefix() {
    let device: Vec<u8> = (0..(2 * BLOCK_SIZE) as u32).map(|x| x as u8).collect();
    let mut buf = [0_u8; 5];
    read_block(device.as_slice(), 1, &mut buf).unwrap();
    assert_eq!(buf, [32, 33, 34, 35, 36]);
}

use cyberpixie::storage::{BlockReader, ImageReader, ReadExactError, SeekFrom};

/// A block device whose every read fails.
struct FailingDevice;

impl BlockReader<4> for FailingDevice {
    type Error = &'static str;

    fn contents(&self) -> vstd::prelude::Seq<u8> {
        panic!("the contents of a device exist only in proofs")
    }

    fn infallible(&self) -> bool {
        false
    }

    fn read_block(&self, _index: usize, _buf: &mut [u8]) -> Result<(), Self::Error> {
        Err("broken device")
    }
}

#[test]
fn device_errors_reach_the_reader() {
    let mut reader = ImageReader::<FailingDevice, 4>::new_in_array(FailingDevice, 8);
    let mut buf = [0_u8; 3];
    assert_eq!(reader.read(&mut buf), Err("broken device"));
    assert_eq!(buf, [0, 0, 0]);
    assert_eq!(
        reader.read_exact(&mut buf),
        Err(ReadExactError::Other("broken device"))
    );
    assert_eq!(reader.seek(SeekFrom::Start(4)), Err("broken device"));
    assert_eq!(reader.rewind(), Err("broken device"));
}

/// A block device that serves its first block and fails on every other.
struct FirstBlockOnly;

impl BlockReader<4> for FirstBlockOnly {
    type Error = &'static str;

    fn contents(&self) -> vstd::prelude::Seq<u8> {
        panic!("the contents of a device exist only in proofs")
    }

    fn infallible(&self) -> bool {
        false
    }

    fn read_block(&self, index: usize, buf: &mut [u8]) -> Result<(), Self::Error> {
        if index != 0 {
            return Err("broken block");
        }
        for (i, byte) in buf.iter_mut().enumerate() {
            *byte = i as u8 + 1;
        }
        Ok(())
    }
}

#[test]
fn reads_that_need_no_block_succeed() {
    let mut reader = ImageReader::<FirstBlockOnly, 4>::new_in_array(FirstBlockOnly, 8);
    assert_eq!(reader.read(&mut []), Ok(0));
    assert_eq!(reader.read_exact(&mut []), Ok(()));
    let mut buf = [0_u8; 2];
    assert_eq!(reader.read(&mut buf), Ok(2));
    assert_eq!(buf, [1, 2]);
    // The rest of the loaded block is served without the device.
    assert_eq!(reader.read_exact(&mut buf), Ok(()));
    assert_eq!(buf, [3, 4]);
    // The next block has to come from the device.
    assert_eq!(
        reader.read_exact(&mut buf),
        Err(ReadExactError::Other("broken block"))
    );
}

use module_runtime::ota::common::{OtaDataPacket, OtaInitPacket, OtaPacket};
use module_runtime::ota::consumer::{OtaConsumer, OtaMemoryDelegate};
use module_runtime::ota_memory::{OtaMemory, OtaPage, PAGE_SIZE};

fn fill(memory: &mut OtaMemory, page: usize) {
    for i in 0..32usize {
        let offset = page * 2048 + i * 64;
        assert!(memory.write(offset + 64, offset, &[i as u8 + 1; 64]));
    }
}

#[test]
fn page_size_is_2048() {
    assert_eq!(PAGE_SIZE, 2048);
}

#[test]
fn blank_page() {
    let page = OtaPage::new(4096);
    assert_eq!(page.address, 4096);
    assert_eq!(page.last_address, 0);
    assert_eq!(page.buffer, [0u8; 2048]);
}

#[test]
fn page_takes_what_lies_in_it() {
    let mut page = OtaPage::new(2048);
    assert!(page.write(2048 + 10, &[1, 2, 3]));
    assert_eq!(page.last_address, 13);
    assert_eq!(&page.buffer[9..14], &[0, 1, 2, 3, 0]);
    assert!(!page.write(2048 + 2046, &[1, 2, 3]));
    assert!(!page.write(4096, &[1]));
    assert!(!page.write(4097, &[]));
    assert_eq!(page.last_address, 13);
    assert!(page.write(2048 + 2046, &[7, 8]));
    assert_eq!(page.last_address, 2048);
    assert_eq!(&page.buffer[2045..], &[0, 7, 8]);
    assert!(!page.write(2048, &[9]));
    assert_eq!(page.buffer[0], 0);
}

#[test]
fn new_delegate_has_no_page() {
    let mut memory = OtaMemory::new();
    assert_eq!(memory.next_address(), 0);
    assert!(memory.get_page().is_none());
    assert!(memory.get_last_page().is_none());
}

#[test]
fn blocks_land_in_the_page() {
    let mut memory = OtaMemory::new();
    assert!(memory.write(0, 64, &[2; 64]));
    assert!(memory.write(64, 0, &[1; 64]));
    assert!(memory.get_page().is_none());
    let page = memory.get_last_page().unwrap();
    assert_eq!(page.address, 0);
    assert_eq!(page.last_address, 64);
    assert_eq!(&page.buffer[..64], &[1; 64]);
    assert_eq!(&page.buffer[64..128], &[2; 64]);
    assert_eq!(&page.buffer[128..], &[0; 1920]);
    assert!(memory.get_last_page().is_none());
}

#[test]
fn full_page_is_handed_out_once_it_is_valid() {
    let mut memory = OtaMemory::new();
    fill(&mut memory, 0);
    let page = memory.get_page().unwrap();
    assert_eq!(page.address, 0);
    assert_eq!(page.last_address, 2048);
    for i in 0..32usize {
        assert_eq!(&page.buffer[i * 64..(i + 1) * 64], &[i as u8 + 1; 64]);
    }
    assert!(memory.get_page().is_none());
    assert_eq!(memory.next_address(), 2048);
    assert!(memory.write(2048 + 64, 2048, &[9; 64]));
    let next = memory.get_last_page().unwrap();
    assert_eq!(next.address, 2048);
    assert_eq!(&next.buffer[..64], &[9; 64]);
}

#[test]
fn full_page_waits_for_the_watermark() {
    let mut memory = OtaMemory::new();
    for i in (0..32usize).rev() {
        assert!(memory.write(0, i * 64, &[5; 64]) || i == 31);
    }
    assert!(memory.get_page().is_none());
}

#[test]
fn page_that_ended_full_waits_for_the_watermark() {
    let mut memory = OtaMemory::new();
    for i in 0..31usize {
        assert!(memory.write(64, i * 64, &[5; 64]));
    }
    assert!(memory.write(2047, 31 * 64, &[5; 64]));
    assert!(memory.get_page().is_none());
    assert!(memory.write(2048, 0, &[6; 64]));
    let page = memory.get_page().unwrap();
    assert_eq!(&page.buffer[..64], &[5; 64]);
}

#[test]
fn early_block_waits_in_the_queue() {
    let mut memory = OtaMemory::new();
    assert!(memory.write(0, 2048, &[8; 64]));
    fill(&mut memory, 0);
    let first = memory.get_page().unwrap();
    assert_eq!(first.address, 0);
    assert_eq!(first.buffer[0], 1);
    assert!(memory.write(2048 + 128, 2048 + 64, &[9; 64]));
    let second = memory.get_last_page().unwrap();
    assert_eq!(second.address, 2048);
    assert_eq!(&second.buffer[..64], &[8; 64]);
    assert_eq!(&second.buffer[64..128], &[9; 64]);
}

#[test]
fn queue_holds_eight_blocks() {
    let mut memory = OtaMemory::new();
    for i in 0..8usize {
        assert!(memory.write(0, 2048 + i * 64, &[i as u8; 64]));
    }
    assert!(!memory.write(0, 2048 + 8 * 64, &[8; 64]));
    assert!(memory.write(0, 2048 + 3 * 64, &[33; 64]));
    assert!(memory.write(0, 0, &[1; 64]));
}

#[test]
fn block_in_front_of_the_page_is_passed_over() {
    let mut memory = OtaMemory::new();
    fill(&mut memory, 0);
    memory.get_page().unwrap();
    assert!(memory.write(2048, 64, &[7; 64]));
    let page = memory.get_last_page().unwrap();
    assert_eq!(page.address, 2048);
    assert_eq!(page.buffer, [0u8; 2048]);
}

#[test]
fn long_block_does_not_fit_the_queue() {
    let mut memory = OtaMemory::new();
    assert!(memory.write(0, 0, &[1; 100]));
    assert!(!memory.write(0, 2048, &[1; 100]));
    assert!(!memory.write(0, 2000, &[1; 100]));
    assert!(memory.write(0, 2000, &[1; 96]));
    assert!(memory.write(0, 2000, &[1; 48]));
}

#[test]
fn block_across_the_page_end_is_queued_and_dropped() {
    let mut memory = OtaMemory::new();
    assert!(memory.write(0, 2016, &[1; 96]));
    assert!(memory.write(0, 0, &[2; 96]));
    for i in 0..8usize {
        assert!(memory.write(0, 4096 + i * 96, &[3; 96]));
    }
    assert!(!memory.write(0, 8192, &[3; 96]));
    let page = memory.get_last_page().unwrap();
    assert_eq!(&page.buffer[2016..], &[0; 32]);
}

#[test]
fn consumer_writes_through_the_delegate() {
    let mut consumer = OtaConsumer::new(OtaMemory::new());
    let init = OtaInitPacket { binary_size: 4096, binary_sha256: [0; 32], block_size: 64, block_count: 64 };
    consumer.process_message(1, OtaPacket::Init(init)).unwrap();
    for index in 0..32u16 {
        let data = OtaDataPacket {
            index,
            data: heapless::Vec::from_slice(&[index as u8; 64]).unwrap(),
        };
        consumer.process_message(1, OtaPacket::Data(data)).unwrap();
    }
    assert_eq!(consumer.get_status().valid_up_to_index, 31);
    assert!(consumer.memory.get_page().is_none());
    let data = OtaDataPacket { index: 32, data: heapless::Vec::from_slice(&[32; 64]).unwrap() };
    consumer.process_message(1, OtaPacket::Data(data)).unwrap();
    let page = consumer.memory.get_page().unwrap();
    assert_eq!(page.address, 0);
    for index in 0..32usize {
        assert_eq!(&page.buffer[index * 64..(index + 1) * 64], &[index as u8; 64]);
    }
}

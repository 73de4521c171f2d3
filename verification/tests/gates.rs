use db_shm_manager::permit::{ReadPermit, WritePermit};
use db_shm_manager::segment::{create_pair, segment_name, Segment};

#[test]
fn write_permit_is_free_at_first() {
    let gate = WritePermit::new();
    assert!(gate.available());
}

#[test]
fn write_permit_goes_to_the_first_that_asks() {
    let mut gate = WritePermit::new();
    assert!(gate.try_acquire());
    assert!(!gate.available());
    assert!(!gate.try_acquire());
    assert!(!gate.try_acquire());
    gate.release();
    assert!(gate.available());
    assert!(gate.try_acquire());
}

#[test]
fn write_permit_release_is_idempotent() {
    let mut gate = WritePermit::new();
    gate.release();
    gate.release();
    assert!(gate.available());
    assert!(gate.try_acquire());
    assert!(!gate.try_acquire());
}

#[test]
fn read_permits_are_granted_up_to_capacity() {
    let mut gate = ReadPermit::new(3);
    assert_eq!(gate.capacity(), 3);
    assert_eq!(gate.free(), 3);
    assert!(gate.try_acquire());
    assert!(gate.try_acquire());
    assert!(gate.try_acquire());
    assert_eq!(gate.free(), 0);
    assert!(!gate.try_acquire());
    assert_eq!(gate.free(), 0);
    gate.release();
    assert_eq!(gate.free(), 1);
    assert!(gate.try_acquire());
    assert!(!gate.try_acquire());
    assert_eq!(gate.capacity(), 3);
}

#[test]
fn read_gate_of_one_permit_admits_one_reader() {
    let mut gate = ReadPermit::new(1);
    assert!(gate.try_acquire());
    assert!(!gate.try_acquire());
    gate.release();
    assert!(gate.try_acquire());
}

#[test]
fn read_gate_without_permits_admits_nobody() {
    let mut gate = ReadPermit::new(0);
    assert!(!gate.try_acquire());
    assert_eq!(gate.free(), 0);
}

#[test]
fn segment_names_end_in_the_number() {
    assert_eq!(segment_name("my_shared_mem", 0), "my_shared_mem_0");
    assert_eq!(segment_name("my_shared_mem", 1), "my_shared_mem_1");
    assert_eq!(segment_name("", 1), "_1");
    assert_eq!(segment_name("x", 10), "x_10");
}

#[test]
fn segment_is_created_blank() {
    let segment = Segment::create("s_0".to_string(), 6);
    assert_eq!(segment.name(), "s_0");
    assert_eq!(segment.len(), 6);
    assert_eq!(segment.as_slice(), &[0u8; 6]);
}

#[test]
fn segment_takes_data_of_its_size_only() {
    let mut segment = Segment::create("s".to_string(), 3);
    assert!(segment.write(&[1, 2, 3]));
    assert_eq!(segment.as_slice(), &[1, 2, 3]);
    assert!(!segment.write(&[9, 9]));
    assert!(!segment.write(&[9, 9, 9, 9]));
    assert!(!segment.write(&[]));
    assert_eq!(segment.as_slice(), &[1, 2, 3]);
    assert_eq!(segment.name(), "s");
    assert_eq!(segment.len(), 3);
}

#[test]
fn segment_of_no_bytes() {
    let mut segment = Segment::create("none".to_string(), 0);
    assert_eq!(segment.len(), 0);
    assert!(segment.write(&[]));
    assert!(!segment.write(&[1]));
}

#[test]
fn pair_has_two_blank_segments() {
    let pair = create_pair("p", 4);
    assert_eq!(pair.len(), 2);
    assert_eq!(pair[0].name(), "p_0");
    assert_eq!(pair[1].name(), "p_1");
    assert_eq!(pair[0].as_slice(), &[0u8; 4]);
    assert_eq!(pair[1].as_slice(), &[0u8; 4]);
}

use forth3::disk::{Disk, DiskDriver, DiskError, PageState};

#[derive(Debug, PartialEq)]
enum Action {
    ReadFrom { dest: usize, idx: u16, len: usize },
    WriteTo { src: usize, idx: u16, len: usize },
}

#[derive(Default)]
struct FakeDisk {
    actions: Vec<Action>,
    error_after: Option<usize>,
}

impl DiskDriver for FakeDisk {
    fn read(
        &mut self,
        idx: u16,
        dest: usize,
        data: &mut Vec<u8>,
        len: usize,
    ) -> Result<(), DiskError> {
        match &mut self.error_after {
            Some(0) => return Err(DiskError::InternalDriverError),
            Some(i) => {
                *i -= 1;
            }
            None => {}
        }
        for b in data.iter_mut() {
            *b = idx as u8;
        }
        self.actions.push(Action::ReadFrom { dest, idx, len });
        Ok(())
    }

    fn write(
        &mut self,
        idx: u16,
        source: usize,
        _data: &Vec<u8>,
        len: usize,
    ) -> Result<(), DiskError> {
        match &mut self.error_after {
            Some(0) => return Err(DiskError::InternalDriverError),
            Some(i) => {
                *i -= 1;
            }
            None => {}
        }
        self.actions.push(Action::WriteTo {
            src: source,
            idx,
            len,
        });
        Ok(())
    }
}

const C1: usize = 0xc100;
const C2: usize = 0xc400;

#[test]
fn smoke() {
    let fake = FakeDisk::default();
    let caches = [C1, C2];
    let mut disk = Disk::new(caches, 512, fake);
    assert!(disk.driver().actions.is_empty());

    let buf_01 = disk.block(123).unwrap();
    assert_eq!(
        &core::mem::take(&mut disk.driver().actions),
        &[Action::ReadFrom {
            dest: C2,
            idx: 123,
            len: 512
        },]
    );
    assert_eq!(buf_01, C2);
    disk.mark_dirty();

    let buf_02 = disk.block(124).unwrap();
    assert_eq!(
        &core::mem::take(&mut disk.driver().actions),
        &[Action::ReadFrom {
            dest: C1,
            idx: 124,
            len: 512
        },]
    );
    assert_eq!(buf_02, C1);

    let buf_03 = disk.block(125).unwrap();
    assert_eq!(
        &core::mem::take(&mut disk.driver().actions),
        &[
            Action::WriteTo {
                src: C2,
                idx: 123,
                len: 512
            },
            Action::ReadFrom {
                dest: C2,
                idx: 125,
                len: 512
            },
        ]
    );
    assert_eq!(buf_03, C2);

    let buf_04 = disk.block(124).unwrap();
    assert_eq!(&core::mem::take(&mut disk.driver().actions), &[]);
    assert_eq!(buf_04, C1);
    disk.mark_dirty();

    let buf_05 = disk.block(124).unwrap();
    assert_eq!(&core::mem::take(&mut disk.driver().actions), &[]);
    assert_eq!(buf_05, C1);
    disk.mark_dirty();

    let buf_06 = disk.buffer(124).unwrap();
    assert_eq!(&core::mem::take(&mut disk.driver().actions), &[]);
    assert_eq!(buf_06, C1);
    disk.mark_dirty();

    let buf_07 = disk.block(126).unwrap();
    assert_eq!(
        &core::mem::take(&mut disk.driver().actions),
        &[Action::ReadFrom {
            dest: C2,
            idx: 126,
            len: 512
        },]
    );
    assert_eq!(buf_07, C2);

    let buf_08 = disk.block(127).unwrap();
    assert_eq!(
        &core::mem::take(&mut disk.driver().actions),
        &[
            Action::WriteTo {
                src: C1,
                idx: 124,
                len: 512
            },
            Action::ReadFrom {
                dest: C1,
                idx: 127,
                len: 512
            },
        ]
    );
    assert_eq!(buf_08, C1);
}

#[test]
fn new_pages_are_empty_and_full_of_spaces() {
    let disk = Disk::new([1, 2], 8, FakeDisk::default());
    assert_eq!(disk.first.buf, 1);
    assert_eq!(disk.second.buf, 2);
    assert_eq!(disk.first.data, vec![b' '; 8]);
    assert_eq!(disk.second.data, vec![b' '; 8]);
    assert_eq!(disk.first.page, PageState::Empty);
    assert_eq!(disk.second.page, PageState::Empty);
    assert_eq!(disk.size, 8);
    assert_eq!(disk.active_buf(), 1);
    assert!(!disk.matches_first(0));
    assert!(!disk.first.is_page(0));
}

#[test]
fn mark_dirty_on_an_empty_page_changes_nothing() {
    let mut disk = Disk::new([1, 2], 8, FakeDisk::default());
    disk.mark_dirty();
    assert_eq!(disk.first.page, PageState::Empty);
    disk.buffer(3).unwrap();
    assert_eq!(disk.first.page, PageState::Buffer(3));
    assert!(disk.matches_first(3));
    disk.mark_dirty();
    assert_eq!(disk.first.page, PageState::Dirty(3));
    disk.mark_dirty();
    assert_eq!(disk.first.page, PageState::Dirty(3));
    disk.block(4).unwrap();
    assert_eq!(disk.first.page, PageState::Clean(4));
    disk.mark_dirty();
    assert_eq!(disk.first.page, PageState::Dirty(4));
}

#[test]
fn block_reads_into_the_active_page() {
    let mut disk = Disk::new([1, 2], 4, FakeDisk::default());
    assert_eq!(disk.block(7), Ok(2));
    assert_eq!(disk.first.data, vec![7; 4]);
    assert_eq!(disk.second.data, vec![b' '; 4]);
    assert_eq!(disk.make_space_for_idx(7), Ok(false));
    assert_eq!(disk.make_space_for_idx(8), Ok(true));
    assert_eq!(disk.first.buf, 1);
    assert_eq!(disk.make_space_for_idx(7), Ok(false));
    assert_eq!(disk.first.buf, 2);
}

#[test]
fn flush_writes_changed_pages_and_empties_both() {
    let mut disk = Disk::new([1, 2], 4, FakeDisk::default());
    disk.buffer(10).unwrap();
    disk.mark_dirty();
    disk.buffer(11).unwrap();
    disk.mark_dirty();
    disk.driver().actions.clear();
    assert_eq!(disk.flush(), Ok(()));
    assert_eq!(
        disk.driver().actions,
        vec![
            Action::WriteTo {
                src: 1,
                idx: 11,
                len: 4
            },
            Action::WriteTo {
                src: 2,
                idx: 10,
                len: 4
            },
        ]
    );
    assert_eq!(disk.first.page, PageState::Empty);
    assert_eq!(disk.second.page, PageState::Empty);
    disk.driver().actions.clear();
    assert_eq!(disk.flush(), Ok(()));
    assert!(disk.driver().actions.is_empty());
}

#[test]
fn flush_stops_at_the_write_that_fails() {
    let mut disk = Disk::new([1, 2], 4, FakeDisk::default());
    disk.buffer(10).unwrap();
    disk.mark_dirty();
    disk.buffer(11).unwrap();
    disk.mark_dirty();
    disk.driver().error_after = Some(1);
    assert_eq!(disk.flush(), Err(DiskError::InternalDriverError));
    assert_eq!(disk.first.page, PageState::Empty);
    assert_eq!(disk.second.page, PageState::Dirty(10));
}

#[test]
fn empty_buffers_forgets_without_writing() {
    let mut disk = Disk::new([1, 2], 4, FakeDisk::default());
    disk.buffer(10).unwrap();
    disk.mark_dirty();
    disk.empty_buffers();
    assert_eq!(disk.first.page, PageState::Empty);
    assert_eq!(disk.second.page, PageState::Empty);
    assert!(disk.driver().actions.is_empty());
    let driver = disk.release();
    assert!(driver.actions.is_empty());
}

#[test]
fn a_failing_driver_fails_the_block() {
    let mut disk = Disk::new(
        [1, 2],
        4,
        FakeDisk {
            actions: Vec::new(),
            error_after: Some(0),
        },
    );
    assert_eq!(disk.block(5), Err(DiskError::InternalDriverError));
    assert_eq!(disk.first.buf, 2);
    assert_eq!(disk.first.page, PageState::Empty);
    disk.driver().error_after = None;
    disk.buffer(6).unwrap();
    disk.mark_dirty();
    disk.buffer(7).unwrap();
    disk.driver().error_after = Some(0);
    // block 6 has changes and must be written before its page is given up
    assert_eq!(disk.buffer(8), Err(DiskError::InternalDriverError));
    assert_eq!(disk.first.page, PageState::Dirty(6));
    assert_eq!(disk.second.page, PageState::Buffer(7));
}

#[test]
fn no_read_follows_a_write_back_that_failed() {
    let mut disk = Disk::new([1, 2], 4, FakeDisk::default());
    disk.buffer(6).unwrap();
    disk.mark_dirty();
    disk.buffer(7).unwrap();
    disk.driver().error_after = Some(0);
    assert_eq!(disk.block(8), Err(DiskError::InternalDriverError));
    assert!(disk.driver().actions.is_empty());
    assert_eq!(disk.first.page, PageState::Dirty(6));
    assert_eq!(disk.second.page, PageState::Buffer(7));
    // the block is not in the cache: opening it again asks the driver again
    disk.driver().error_after = None;
    assert_eq!(disk.block(8), Ok(1));
    assert_eq!(
        disk.driver().actions,
        vec![Action::ReadFrom {
            dest: 1,
            idx: 8,
            len: 4
        }]
    );
    assert_eq!(disk.second.page, PageState::Dirty(6));
}

#[test]
fn a_read_that_fails_after_the_write_back() {
    let mut disk = Disk::new([1, 2], 4, FakeDisk::default());
    disk.buffer(6).unwrap();
    disk.mark_dirty();
    disk.buffer(7).unwrap();
    disk.driver().error_after = Some(1);
    assert_eq!(disk.block(8), Err(DiskError::InternalDriverError));
    assert_eq!(
        disk.driver().actions,
        vec![Action::WriteTo {
            src: 2,
            idx: 6,
            len: 4
        }]
    );
    assert_eq!(disk.first.buf, 2);
    assert_eq!(disk.first.page, PageState::Dirty(6));
    assert_eq!(disk.second.page, PageState::Buffer(7));
}

#[test]
fn a_flush_that_fails_keeps_the_changes() {
    let mut disk = Disk::new([1, 2], 4, FakeDisk::default());
    disk.buffer(10).unwrap();
    disk.buffer(11).unwrap();
    disk.mark_dirty();
    disk.driver().error_after = Some(0);
    assert_eq!(disk.flush(), Err(DiskError::InternalDriverError));
    assert_eq!(disk.first.page, PageState::Dirty(11));
    assert_eq!(disk.second.page, PageState::Buffer(10));
    assert!(disk.driver().actions.is_empty());
    disk.driver().error_after = None;
    assert_eq!(disk.flush(), Ok(()));
    assert_eq!(
        disk.driver().actions,
        vec![Action::WriteTo {
            src: 1,
            idx: 11,
            len: 4
        }]
    );
}

#[test]
fn what_the_cache_does_with_the_answers_of_the_driver() {
    let mut disk = Disk::new([1, 2], 4, FakeDisk::default());
    assert_eq!(disk.read_done(3, Ok(())), Ok(1));
    assert_eq!(disk.first.page, PageState::Clean(3));
    assert_eq!(
        disk.read_done(4, Err(DiskError::OutOfRange)),
        Err(DiskError::OutOfRange)
    );
    assert_eq!(disk.first.page, PageState::Clean(3));
    disk.mark_dirty();
    assert_eq!(disk.wrote_back(3, Ok(())), Ok(true));
    assert_eq!(
        disk.wrote_back(3, Err(DiskError::InternalDriverError)),
        Err(DiskError::InternalDriverError)
    );
    assert_eq!(disk.first.page, PageState::Dirty(3));
    assert_eq!(
        disk.flush_done(false, 3, Err(DiskError::InternalDriverError)),
        Err(DiskError::InternalDriverError)
    );
    assert_eq!(disk.first.page, PageState::Dirty(3));
    assert_eq!(disk.flush_done(true, 3, Ok(())), Ok(()));
    assert_eq!(disk.first.page, PageState::Dirty(3));
    assert_eq!(disk.second.page, PageState::Empty);
    assert_eq!(disk.flush_done(false, 3, Ok(())), Ok(()));
    assert_eq!(disk.first.page, PageState::Empty);
    assert!(disk.driver().actions.is_empty());
}

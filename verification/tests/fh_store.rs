use rmd::fuse_provider::fh::FileHandle;
use rmd::fuse_provider::fh_store::FhStore;

fn remote(fh: &FileHandle<u32>) -> u32 {
    match fh {
        FileHandle::Remote(n) => *n,
        FileHandle::Created(_) => panic!("no remote file"),
    }
}

#[test]
fn indices_count_up() {
    let mut s: FhStore<u32> = FhStore::new();
    for i in 0..5u64 {
        assert_eq!(s.push(FileHandle::Remote(i as u32 * 10)), i);
    }
    for i in 0..5u64 {
        assert_eq!(remote(s.index(i)), i as u32 * 10);
    }
    assert!(!s.contains(5));
}

#[test]
fn freed_slots_are_reused_last_first() {
    let mut s: FhStore<u32> = FhStore::new();
    for i in 0..4 {
        s.push(FileHandle::Remote(i));
    }
    assert_eq!(remote(&s.delete(1)), 1);
    assert_eq!(remote(&s.delete(3)), 3);
    assert_eq!(remote(&s.delete(0)), 0);
    assert!(!s.contains(0) && !s.contains(1) && s.contains(2) && !s.contains(3));
    assert_eq!(s.push(FileHandle::Remote(10)), 0);
    assert_eq!(s.push(FileHandle::Remote(13)), 3);
    assert_eq!(s.push(FileHandle::Remote(11)), 1);
    assert_eq!(s.push(FileHandle::Remote(14)), 4);
    let all: Vec<u32> = (0..5).map(|i| remote(s.index(i))).collect();
    assert_eq!(all, vec![10, 11, 2, 13, 14]);
}

#[test]
fn delete_undoes_push() {
    let mut s: FhStore<u32> = FhStore::new();
    s.push(FileHandle::Remote(1));
    let i = s.push(FileHandle::Remote(2));
    assert_eq!(remote(&s.delete(i)), 2);
    assert!(s.contains(0));
    assert!(!s.contains(i));
    assert_eq!(s.push(FileHandle::Remote(3)), i);
}

#[test]
fn handles_can_be_changed() {
    let mut s: FhStore<u32> = FhStore::new();
    s.push(FileHandle::Remote(1));
    s.push(FileHandle::Remote(2));
    *s.index_mut(0) = FileHandle::Remote(7);
    assert_eq!(remote(s.index(0)), 7);
    assert_eq!(remote(s.index(1)), 2);
}

#[test]
fn nothing_beyond_the_end() {
    let s: FhStore<u32> = FhStore::new();
    assert!(!s.contains(0));
    assert!(!s.contains(u64::MAX));
}

#[test]
fn default_is_empty() {
    let mut s: FhStore<u32> = FhStore::default();
    assert!(!s.contains(0));
    assert_eq!(s.push(FileHandle::Remote(1)), 0);
}

#[test]
fn largest_index_is_peak_use() {
    let mut s: FhStore<u32> = FhStore::new();
    let mut live: Vec<u64> = Vec::new();
    let mut peak = 0;
    let mut largest = 0;
    for step in 0..200u32 {
        if step % 7 < 4 || live.is_empty() {
            let idx = s.push(FileHandle::Remote(step));
            assert!(!live.contains(&idx));
            live.push(idx);
            largest = largest.max(idx);
            peak = peak.max(live.len() as u64);
        } else {
            let idx = live.remove((step as usize * 5) % live.len());
            s.delete(idx);
        }
        assert_eq!(largest + 1, peak);
    }
    assert!(peak > 20);
}

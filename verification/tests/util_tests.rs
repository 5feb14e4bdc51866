use rtld::util::{align_up, bytes_eq, file_name, read_word, write_word, ascii_bytes};
use rtld::uma::{Uma, UmaFlags};
use rtld::blockpool::{BlockPool, BlockpoolStats};
use rtld::errno::LoadError;

#[test]
fn align_up_values() {
    assert_eq!(align_up(0, 16), 0);
    assert_eq!(align_up(1, 16), 16);
    assert_eq!(align_up(16, 16), 16);
    assert_eq!(align_up(40, 8), 40);
    assert_eq!(align_up(41, 8), 48);
}

#[test]
fn file_name_values() {
    assert_eq!(file_name(&b"/a/b.sprx".to_vec()), b"b.sprx".to_vec());
    assert_eq!(file_name(&b"plain".to_vec()), b"plain".to_vec());
    assert_eq!(file_name(&b"/trailing/".to_vec()), b"".to_vec());
}

#[test]
fn bytes_eq_values() {
    assert!(bytes_eq(&b"abc".to_vec(), &b"abc".to_vec()));
    assert!(!bytes_eq(&b"abc".to_vec(), &b"abd".to_vec()));
    assert!(!bytes_eq(&b"abc".to_vec(), &b"ab".to_vec()));
}

#[test]
fn word_round_trip() {
    let mut mem = vec![0u8; 32];
    write_word(&mut mem, 8, 0x1122_3344_5566_7788);
    assert_eq!(read_word(&mem, 8), 0x1122_3344_5566_7788);
    assert_eq!(mem[8], 0x88);
    assert_eq!(mem[15], 0x11);
    assert_eq!(mem[7], 0);
    assert_eq!(mem[16], 0);
}

#[test]
fn ascii_bytes_values() {
    assert_eq!(ascii_bytes("libc.sprx"), b"libc.sprx".to_vec());
}

#[test]
fn load_error_errnos() {
    assert_eq!(LoadError::NoExe.errno(), 1);
    assert_eq!(LoadError::OpenFileFailed.errno(), 2);
    assert_eq!(LoadError::InvalidElf.errno(), 8);
    assert_eq!(LoadError::ImpureText.errno(), 22);
}

#[test]
fn uma_zone_creation() {
    let uma = Uma::new();
    let z = uma.create_zone(b"blockpool".to_vec(), 0x188, None, None);
    assert_eq!(z.name, b"blockpool".to_vec());
    assert_eq!(z.size, 0x188);
    assert!(z.align.is_none());
    assert_eq!(UmaFlags::ZInit.bits(), 0x2);
    assert_eq!(UmaFlags::Cacheonly.bits(), 0x8000_0000);
}

#[test]
fn blockpool_construction() {
    let _p = BlockPool::new();
    let s = BlockpoolStats {
        avail_flushed: 0,
        avail_cached: 0,
        allocated_flushed: 0,
        allocated_cached: 0,
    };
    assert_eq!(s.avail_flushed, 0);
}

use gateway_proxy::zlib_sys::{align_up, deflate_outcome, zalloc_size, DeflateStatus, Error};

#[test]
fn align_rounds_up() {
    assert_eq!(align_up(5, 8), 8);
    assert_eq!(align_up(8, 8), 8);
    assert_eq!(align_up(0, 8), 0);
    assert_eq!(align_up(9, 4), 12);
    assert_eq!(align_up(13, 8), 16);
    assert_eq!(align_up(16, 8), 16);
}

#[test]
fn zalloc_sizes() {
    let header = std::mem::size_of::<usize>();
    assert_eq!(zalloc_size(3, 5, 8), Some(16 + header));
    assert_eq!(zalloc_size(0, 5, 8), Some(header));
    assert_eq!(zalloc_size(u32::MAX, 2, 8), None);
}

#[test]
fn deflate_decisions() {
    assert_eq!(deflate_outcome(DeflateStatus::Progress, 0, 10), Some(Ok(())));
    assert_eq!(deflate_outcome(DeflateStatus::BufError, 0, 1), Some(Ok(())));
    assert_eq!(deflate_outcome(DeflateStatus::Progress, 3, 10), None);
    assert_eq!(deflate_outcome(DeflateStatus::Progress, 0, 0), None);
    assert_eq!(deflate_outcome(DeflateStatus::Failed, 0, 10), Some(Err(Error::Compressing)));
}

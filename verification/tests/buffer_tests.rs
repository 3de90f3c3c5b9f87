use uac2::error::Uac2Error;
use uac2::format::{SampleRate, StreamConfig};
use uac2::transfer_buffer::{BufferManager, BufferPool, TransferBuffer};
use uac2::transfer_manager::{TransferRecovery, TransferStats};

fn message(e: Uac2Error) -> String {
    match e {
        Uac2Error::InvalidConfiguration(m) => m,
        other => panic!("unexpected error {:?}", other),
    }
}

#[test]
fn transfer_buffer_basics() {
    assert_eq!(message(TransferBuffer::new(0).unwrap_err()), "buffer capacity must be > 0");
    let mut b = TransferBuffer::new(8).unwrap();
    assert_eq!(b.capacity(), 8);
    assert_eq!(b.len(), 0);
    assert!(b.is_empty());
    assert!(b.as_slice().is_empty());
    b.set_length(5).unwrap();
    assert_eq!(b.as_slice(), &[0u8; 5]);
    assert!(matches!(b.set_length(9), Err(Uac2Error::BufferOverflow)));
    assert_eq!(b.len(), 5);
    b.reset();
    assert!(b.is_empty());

    let d = TransferBuffer::with_data(vec![1, 2, 3]);
    assert_eq!(d.capacity(), 3);
    assert_eq!(d.as_slice(), &[1, 2, 3]);
    let mut e = d.clone();
    e.set_length(1).unwrap();
    assert_eq!(e.as_slice(), &[1]);
    assert_eq!(d.as_slice(), &[1, 2, 3]);
}

#[test]
fn pool_size_limits() {
    assert_eq!(
        message(BufferPool::new(64, 1).err().unwrap()),
        "buffer count must be between 2 and 16"
    );
    assert_eq!(
        message(BufferPool::new(64, 17).err().unwrap()),
        "buffer count must be between 2 and 16"
    );
    assert_eq!(message(BufferPool::new(0, 4).err().unwrap()), "buffer capacity must be > 0");
    let pool = BufferPool::new(64, 16).unwrap();
    assert_eq!(pool.total_count(), 16);
    assert_eq!(pool.buffer_size(), 64);
    assert_eq!(pool.available_count(), 16);
    assert!(!pool.is_full());
}

#[test]
fn pool_hands_out_last_first() {
    let mut pool = BufferPool::new(4, 3).unwrap();
    let (i, b) = pool.acquire().unwrap();
    assert_eq!(i, 2);
    b.set_length(3).unwrap();
    let (j, _) = pool.acquire().unwrap();
    assert_eq!(j, 1);
    let (k, _) = pool.acquire().unwrap();
    assert_eq!(k, 0);
    assert!(pool.acquire().is_none());
    assert!(pool.is_full());

    assert_eq!(message(pool.release(7).unwrap_err()), "invalid buffer index: 7");
    pool.release(2).unwrap();
    assert_eq!(message(pool.release(2).unwrap_err()), "buffer 2 already released");
    let (again, b) = pool.acquire().unwrap();
    assert_eq!(again, 2);
    // An acquired buffer comes back empty.
    assert!(b.is_empty());
    assert_eq!(b.capacity(), 4);
}

#[test]
fn pool_from_config() {
    let config = StreamConfig { sample_rate: SampleRate::Hz48000, packet_size: 192 };
    let pool = BufferPool::from_config(&config).unwrap();
    assert_eq!(pool.total_count(), 4);
    assert_eq!(pool.buffer_size(), 192);
    let zero = StreamConfig { sample_rate: SampleRate::Hz48000, packet_size: 0 };
    assert!(BufferPool::from_config(&zero).is_err());
    assert!(BufferManager::from_config(&zero).is_err());
}

#[test]
fn manager_tracks_in_flight() {
    let config = StreamConfig { sample_rate: SampleRate::Hz96000, packet_size: 8 };
    let mut m = BufferManager::from_config(&config).unwrap();
    assert_eq!(m.available_count(), 4);
    assert_eq!(m.in_flight_count(), 0);
    let (a, _) = m.acquire_buffer().unwrap();
    let (b, _) = m.acquire_buffer().unwrap();
    assert_eq!((a, b), (3, 2));
    assert_eq!(m.in_flight_count(), 2);
    assert_eq!(m.available_count(), 2);
    assert_eq!(message(m.release_buffer(0).unwrap_err()), "buffer 0 not in flight");
    m.release_buffer(a).unwrap();
    assert_eq!(m.in_flight_count(), 1);
    assert_eq!(m.available_count(), 3);
    assert_eq!(message(m.release_buffer(a).unwrap_err()), "buffer 3 not in flight");
    let (c, _) = m.acquire_buffer().unwrap();
    assert_eq!(c, 3);
    while m.acquire_buffer().is_some() {}
    assert!(!m.has_available());
    assert_eq!(m.in_flight_count(), 4);
}

#[test]
fn manager_over_used_pool() {
    let mut pool = BufferPool::new(2, 2).unwrap();
    let _ = pool.acquire().unwrap();
    let mut m = BufferManager::new(pool);
    assert_eq!(m.available_count(), 1);
    assert!(m.has_available());
    let (i, _) = m.acquire_buffer().unwrap();
    assert_eq!(i, 0);
    assert!(m.acquire_buffer().is_none());
    assert!(m.release_buffer(1).is_err());
}

#[test]
fn recovery_threshold() {
    let s = |total_submitted, total_failed| TransferStats { total_submitted, total_failed };
    assert!(!TransferRecovery::should_recover(&s(0, 0)));
    assert!(!TransferRecovery::should_recover(&s(0, 3)));
    assert!(!TransferRecovery::should_recover(&s(100, 10)));
    assert!(TransferRecovery::should_recover(&s(100, 11)));
    assert!(TransferRecovery::should_recover(&s(9, 1)));
    assert!(!TransferRecovery::should_recover(&s(10, 1)));
    assert!(TransferRecovery::should_recover(&s(u64::MAX, u64::MAX)));
}

#[test]
fn manager_accounts_for_every_buffer() {
    let pool = BufferPool::new(16, 5).unwrap();
    let mut m = BufferManager::new(pool);
    let mut held = Vec::new();
    for step in 0..12usize {
        if step % 3 == 2 {
            if let Some(i) = held.pop() {
                m.release_buffer(i).unwrap();
            }
        } else if let Some((i, b)) = m.acquire_buffer() {
            assert_eq!(b.capacity(), 16);
            held.push(i);
        }
        assert_eq!(m.in_flight_count() + m.available_count(), 5);
        assert_eq!(m.has_available(), m.available_count() > 0);
    }
}

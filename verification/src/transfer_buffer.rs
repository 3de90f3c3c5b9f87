//! Buffers for isochronous transfers, a pool that hands them out, and a manager that
//! tracks which of them are in flight.
use vstd::prelude::*;

use std::sync::Arc;

use crate::error::{Result, Uac2Error};
use crate::format::StreamConfig;
use crate::text::{decimal, decimal_string};

verus! {

/// Shares the bytes behind `data`. Trusted: the contract claims that `Arc::clone` hands
/// back a pointer to the same allocation, so to the same value.
#[verifier::external_body]
fn share_bytes(data: &Arc<Vec<u8>>) -> (r: Arc<Vec<u8>>)
    ensures
        r == *data,
{
    Arc::clone(data)
}

/// A buffer of bytes, of which the first `len` are filled.
#[derive(Debug)]
pub struct TransferBuffer {
    data: Arc<Vec<u8>>,
    capacity: usize,
    length: usize,
}

/// The state of a [`TransferBuffer`]: its bytes, its capacity and its filled length.
pub struct BufferState {
    pub data: Seq<u8>,
    pub capacity: nat,
    pub length: nat,
}

impl View for TransferBuffer {
    type V = BufferState;

    closed spec fn view(&self) -> BufferState {
        BufferState {
            data: (*self.data)@,
            capacity: self.capacity as nat,
            length: self.length as nat,
        }
    }
}

impl TransferBuffer {
    /// The capacity is the number of bytes held, and the filled length fits in it.
    #[verifier::type_invariant]
    closed spec fn inv(self) -> bool {
        &&& (*self.data)@.len() == self.capacity
        &&& self.length <= self.capacity
    }

    /// An empty buffer of `capacity` zero bytes; a capacity of zero is refused.
    pub fn new(capacity: usize) -> (r: Result<Self>)
        ensures
            capacity == 0 ==> (r matches Err(Uac2Error::InvalidConfiguration(msg))
                && msg@ == "buffer capacity must be > 0"@),
            capacity > 0 ==> (r matches Ok(b) && b@ == (BufferState {
                data: Seq::new(capacity as nat, |i: int| 0u8),
                capacity: capacity as nat,
                length: 0,
            })),
    {
        if capacity == 0 {
            return Err(Uac2Error::InvalidConfiguration(String::from_str("buffer capacity must be > 0")));
        }
        let data = vec![0u8; capacity];
        assert(data@ =~= Seq::new(capacity as nat, |i: int| 0u8));
        Ok(Self { data: Arc::new(data), capacity, length: 0 })
    }

    /// A buffer filled with `data`.
    pub fn with_data(data: Vec<u8>) -> (r: Self)
        ensures
            r@ == (BufferState { data: data@, capacity: data@.len(), length: data@.len() }),
    {
        let capacity = data.len();
        Self { data: Arc::new(data), capacity, length: capacity }
    }

    /// The number of bytes the buffer holds.
    pub fn capacity(&self) -> (r: usize)
        ensures
            r == self@.capacity,
            r == self@.data.len(),
    {
        proof {
            use_type_invariant(self);
        }
        self.capacity
    }

    /// The number of filled bytes.
    pub fn len(&self) -> (r: usize)
        ensures
            r == self@.length,
            r <= self@.capacity,
    {
        proof {
            use_type_invariant(self);
        }
        self.length
    }

    /// Whether no byte is filled.
    pub fn is_empty(&self) -> (r: bool)
        ensures
            r == (self@.length == 0),
    {
        self.length == 0
    }

    /// The filled bytes.
    pub fn as_slice(&self) -> (r: &[u8])
        ensures
            r@ == self@.data.subrange(0, self@.length as int),
    {
        proof {
            use_type_invariant(self);
        }
        let all: &Vec<u8> = &*self.data;
        vstd::slice::slice_subrange(all.as_slice(), 0, self.length)
    }

    /// Sets the filled length; one beyond the capacity is refused with `BufferOverflow`
    /// and changes nothing.
    pub fn set_length(&mut self, length: usize) -> (r: Result<()>)
        ensures
            length > old(self)@.capacity ==> (r matches Err(Uac2Error::BufferOverflow)
                && final(self)@ == old(self)@),
            length <= old(self)@.capacity ==> r is Ok && final(self)@ == (BufferState {
                length: length as nat,
                ..old(self)@
            }),
    {
        proof {
            use_type_invariant(&*self);
        }
        if length > self.capacity {
            return Err(Uac2Error::BufferOverflow);
        }
        self.length = length;
        Ok(())
    }

    /// Empties the buffer.
    pub fn reset(&mut self)
        ensures
            final(self)@ == (BufferState { length: 0, ..old(self)@ }),
    {
        proof {
            use_type_invariant(&*self);
        }
        self.length = 0;
    }
}

impl Clone for TransferBuffer {
    /// A buffer sharing the same bytes, with the same capacity and filled length.
    fn clone(&self) -> (r: Self)
        ensures
            r@ == self@,
    {
        proof {
            use_type_invariant(self);
        }
        TransferBuffer { data: share_bytes(&self.data), capacity: self.capacity, length: self.length }
    }
}


/// The number of buffers of a pool made from a stream configuration.
pub const DEFAULT_BUFFER_COUNT: usize = 4;

/// The fewest buffers a pool may have.
pub const MIN_BUFFER_COUNT: usize = 2;

/// The most buffers a pool may have.
pub const MAX_BUFFER_COUNT: usize = 16;

/// The message of a pool size out of range.
pub open spec fn count_range_message() -> Seq<char> {
    "buffer count must be between "@ + decimal(MIN_BUFFER_COUNT as nat) + " and "@ + decimal(
        MAX_BUFFER_COUNT as nat,
    )
}

/// The message of a buffer index beyond the pool.
pub open spec fn invalid_index_message(index: usize) -> Seq<char> {
    "invalid buffer index: "@ + decimal(index as nat)
}

/// The message of a buffer released while it is available.
pub open spec fn already_released_message(index: usize) -> Seq<char> {
    "buffer "@ + decimal(index as nat) + " already released"@
}

/// The message of a buffer released while it is not in flight.
pub open spec fn not_in_flight_message(index: usize) -> Seq<char> {
    "buffer "@ + decimal(index as nat) + " not in flight"@
}

/// The message of a zero buffer capacity.
pub open spec fn zero_capacity_message() -> Seq<char> {
    "buffer capacity must be > 0"@
}

/// `count` empty buffers of `size` zero bytes each.
pub open spec fn empty_buffers(count: nat, size: nat) -> Seq<BufferState> {
    Seq::new(
        count,
        |i: int| BufferState { data: Seq::new(size, |i: int| 0u8), capacity: size, length: 0 },
    )
}

/// The state of a [`BufferPool`]: its buffers, the size they were made with, and the
/// indices of the available buffers, the next to be handed out last.
pub struct PoolState {
    pub buffers: Seq<BufferState>,
    pub buffer_size: nat,
    pub available: Seq<usize>,
}

/// Every available index names a buffer, and none is available twice.
pub open spec fn pool_wf(p: PoolState) -> bool {
    &&& p.available.no_duplicates()
    &&& forall|i: int| 0 <= i < p.available.len() ==> #[trigger] p.available[i] < p.buffers.len()
}

/// A buffer may be released when it exists and is not available.
pub open spec fn release_allowed(p: PoolState, index: usize) -> bool {
    index < p.buffers.len() && !p.available.contains(index)
}

/// A fixed set of transfer buffers, handed out and taken back by index.
pub struct BufferPool {
    buffers: Vec<TransferBuffer>,
    buffer_size: usize,
    available: Vec<usize>,
}

impl View for BufferPool {
    type V = PoolState;

    closed spec fn view(&self) -> PoolState {
        PoolState {
            buffers: self.buffers@.map_values(|b: TransferBuffer| b@),
            buffer_size: self.buffer_size as nat,
            available: self.available@,
        }
    }
}

/// Replacing a buffer replaces its state in the states of a sequence of buffers.
proof fn lemma_update_view(s: Seq<TransferBuffer>, i: int)
    requires
        0 <= i < s.len(),
    ensures
        forall|x: TransferBuffer|
            #![trigger s.update(i, x)]
            s.update(i, x).map_values(|b: TransferBuffer| b@) =~= s.map_values(
                |b: TransferBuffer| b@,
            ).update(i, x@),
{
}

fn invalid_configuration(prefix: &str, index: usize, suffix: &str) -> (e: Uac2Error)
    ensures
        e matches Uac2Error::InvalidConfiguration(m) && m@ == prefix@ + decimal(index as nat)
            + suffix@,
{
    let n = decimal_string(index);
    let m = String::from_str(prefix).concat(n.as_str()).concat(suffix);
    Uac2Error::InvalidConfiguration(m)
}

impl BufferPool {
    /// The pool's available indices name distinct buffers.
    pub open spec fn wf(&self) -> bool {
        pool_wf(self@)
    }

    /// A pool of `count` empty buffers of `buffer_size` zero bytes, all available, the
    /// last one first. A count outside the accepted range is refused, then a zero size.
    pub fn new(buffer_size: usize, count: usize) -> (r: Result<Self>)
        ensures
            (count < MIN_BUFFER_COUNT || count > MAX_BUFFER_COUNT) ==> (r matches Err(
                Uac2Error::InvalidConfiguration(m),
            ) && m@ == count_range_message()),
            MIN_BUFFER_COUNT <= count <= MAX_BUFFER_COUNT && buffer_size == 0 ==> (r matches Err(
                Uac2Error::InvalidConfiguration(m),
            ) && m@ == zero_capacity_message()),
            MIN_BUFFER_COUNT <= count <= MAX_BUFFER_COUNT && buffer_size > 0 ==> (r matches Ok(pool)
                && pool.wf() && pool@ == (PoolState {
                buffers: empty_buffers(count as nat, buffer_size as nat),
                buffer_size: buffer_size as nat,
                available: Seq::new(count as nat, |i: int| i as usize),
            })),
    {
        if count < MIN_BUFFER_COUNT || count > MAX_BUFFER_COUNT {
            let low = decimal_string(MIN_BUFFER_COUNT);
            let high = decimal_string(MAX_BUFFER_COUNT);
            let m = String::from_str("buffer count must be between ").concat(low.as_str()).concat(
                " and ",
            ).concat(high.as_str());
            return Err(Uac2Error::InvalidConfiguration(m));
        }
        let ghost empty = BufferState {
            data: Seq::new(buffer_size as nat, |i: int| 0u8),
            capacity: buffer_size as nat,
            length: 0,
        };
        let mut buffers: Vec<TransferBuffer> = Vec::with_capacity(count);
        let mut i: usize = 0;
        while i < count
            invariant
                0 <= i <= count,
                MIN_BUFFER_COUNT <= count <= MAX_BUFFER_COUNT,
                empty == (BufferState {
                    data: Seq::new(buffer_size as nat, |i: int| 0u8),
                    capacity: buffer_size as nat,
                    length: 0,
                }),
                buffers@.len() == i,
                buffer_size > 0 || i == 0,
                forall|j: int| 0 <= j < i ==> (#[trigger] buffers@[j])@ == empty,
            decreases count - i,
        {
            let buffer = TransferBuffer::new(buffer_size)?;
            buffers.push(buffer);
            i = i + 1;
        }
        let mut available: Vec<usize> = Vec::new();
        let mut k: usize = 0;
        while k < count
            invariant
                0 <= k <= count,
                available@ == Seq::new(k as nat, |j: int| j as usize),
            decreases count - k,
        {
            available.push(k);
            k = k + 1;
            assert(available@ =~= Seq::new(k as nat, |j: int| j as usize));
        }
        let pool = BufferPool { buffers, buffer_size, available };
        assert(pool@.buffers =~= empty_buffers(count as nat, buffer_size as nat));
        Ok(pool)
    }

    /// A pool of the default number of buffers, each the size of the stream's packets.
    pub fn from_config(config: &StreamConfig) -> (r: Result<Self>)
        ensures
            config.packet_size == 0 ==> (r matches Err(Uac2Error::InvalidConfiguration(m))
                && m@ == zero_capacity_message()),
            config.packet_size > 0 ==> (r matches Ok(pool) && pool.wf() && pool@ == (PoolState {
                buffers: empty_buffers(DEFAULT_BUFFER_COUNT as nat, config.packet_size as nat),
                buffer_size: config.packet_size as nat,
                available: Seq::new(DEFAULT_BUFFER_COUNT as nat, |i: int| i as usize),
            })),
    {
        let buffer_size = config.packet_size;
        Self::new(buffer_size, DEFAULT_BUFFER_COUNT)
    }

    /// Hands out the most recently released available buffer, emptied, with its index;
    /// none when no buffer is available.
    pub fn acquire(&mut self) -> (r: Option<(usize, &mut TransferBuffer)>)
        requires
            old(self).wf(),
        ensures
            old(self)@.available.len() == 0 ==> r is None && final(self)@ == old(self)@,
            old(self)@.available.len() > 0 ==> (r matches Some((idx, buffer)) && {
                let old_pool = old(self)@;
                &&& idx == old_pool.available.last()
                &&& buffer@ == (BufferState { length: 0, ..old_pool.buffers[idx as int] })
                &&& final(self)@ == (PoolState {
                    buffers: old_pool.buffers.update(idx as int, final(buffer)@),
                    available: old_pool.available.drop_last(),
                    ..old_pool
                })
            }),
            final(self).wf(),
    {
        match self.available.pop() {
            None => None,
            Some(idx) => {
                proof {
                    lemma_update_view(self.buffers@, idx as int);
                }
                let buffer = &mut self.buffers[idx];
                buffer.reset();
                Some((idx, buffer))
            },
        }
    }

    /// Takes back the buffer at `index`. An index beyond the pool is refused, then one
    /// that is available already; both change nothing.
    pub fn release(&mut self, index: usize) -> (r: Result<()>)
        requires
            old(self).wf(),
        ensures
            final(self).wf(),
            index >= old(self)@.buffers.len() ==> (r matches Err(Uac2Error::InvalidConfiguration(m))
                && m@ == invalid_index_message(index) && final(self)@ == old(self)@),
            index < old(self)@.buffers.len() && old(self)@.available.contains(index) ==> (r matches Err(
                Uac2Error::InvalidConfiguration(m),
            ) && m@ == already_released_message(index) && final(self)@ == old(self)@),
            release_allowed(old(self)@, index) ==> r is Ok && final(self)@ == (PoolState {
                available: old(self)@.available.push(index),
                ..old(self)@
            }),
    {
        if index >= self.buffers.len() {
            proof {
                reveal_strlit("");
                assert(invalid_index_message(index) =~= "invalid buffer index: "@ + decimal(index as nat) + ""@);
            }
            return Err(invalid_configuration("invalid buffer index: ", index, ""));
        }
        let mut i: usize = 0;
        while i < self.available.len()
            invariant
                self@ == old(self)@,
                old(self).wf(),
                index < self@.buffers.len(),
                0 <= i <= self.available@.len(),
                forall|j: int| 0 <= j < i ==> self.available@[j] != index,
            decreases self.available@.len() - i,
        {
            if self.available[i] == index {
                assert(self.available@[i as int] == index);
                return Err(invalid_configuration("buffer ", index, " already released"));
            }
            i = i + 1;
        }
        self.available.push(index);
        assert(self@.buffers =~= old(self)@.buffers);
        Ok(())
    }

    /// The size of each buffer when the pool was made.
    pub fn buffer_size(&self) -> (r: usize)
        ensures
            r == self@.buffer_size,
    {
        self.buffer_size
    }

    /// The number of buffers of the pool.
    pub fn total_count(&self) -> (r: usize)
        ensures
            r == self@.buffers.len(),
    {
        self.buffers.len()
    }

    /// The number of available buffers.
    pub fn available_count(&self) -> (r: usize)
        ensures
            r == self@.available.len(),
    {
        self.available.len()
    }

    /// Whether every buffer is handed out, so none is available.
    pub fn is_full(&self) -> (r: bool)
        ensures
            r == (self@.available.len() == 0),
    {
        self.available.len() == 0
    }
}

/// The state of a [`BufferManager`]: its pool, and the indices of the buffers in flight
/// in the order they were handed out.
pub struct ManagerState {
    pub pool: PoolState,
    pub in_flight: Seq<usize>,
}

/// The pool is sound, and every buffer in flight exists, is in flight once, and is not
/// available.
pub open spec fn manager_wf(m: ManagerState) -> bool {
    &&& pool_wf(m.pool)
    &&& m.in_flight.no_duplicates()
    &&& forall|i: int| 0 <= i < m.in_flight.len() ==> #[trigger] m.in_flight[i] < m.pool.buffers.len()
    &&& forall|i: int| 0 <= i < m.in_flight.len() ==> !m.pool.available.contains(#[trigger] m.in_flight[i])
}

/// Hands out buffers from a pool and keeps track of those in flight.
pub struct BufferManager {
    pool: BufferPool,
    in_flight: Vec<usize>,
}

impl View for BufferManager {
    type V = ManagerState;

    closed spec fn view(&self) -> ManagerState {
        ManagerState { pool: self.pool@, in_flight: self.in_flight@ }
    }
}

impl BufferManager {
    /// The manager's pool and buffers in flight are consistent.
    pub open spec fn wf(&self) -> bool {
        manager_wf(self@)
    }

    /// A manager of `pool`, with no buffer in flight.
    pub fn new(pool: BufferPool) -> (r: Self)
        requires
            pool.wf(),
        ensures
            r@ == (ManagerState { pool: pool@, in_flight: Seq::empty() }),
            r.wf(),
    {
        Self { pool, in_flight: Vec::new() }
    }

    /// A manager of a pool made from the stream configuration.
    pub fn from_config(config: &crate::format::StreamConfig) -> (r: Result<Self>)
        ensures
            config.packet_size == 0 ==> (r matches Err(Uac2Error::InvalidConfiguration(m))
                && m@ == zero_capacity_message()),
            config.packet_size > 0 ==> (r matches Ok(manager) && manager.wf() && manager@ == (
            ManagerState {
                pool: PoolState {
                    buffers: empty_buffers(DEFAULT_BUFFER_COUNT as nat, config.packet_size as nat),
                    buffer_size: config.packet_size as nat,
                    available: Seq::new(DEFAULT_BUFFER_COUNT as nat, |i: int| i as usize),
                },
                in_flight: Seq::empty(),
            })),
    {
        let pool = BufferPool::from_config(config)?;
        Ok(Self::new(pool))
    }

    /// Hands out a buffer from the pool, as [`BufferPool::acquire`] does, and counts it
    /// in flight.
    pub fn acquire_buffer(&mut self) -> (r: Option<(usize, &mut TransferBuffer)>)
        requires
            old(self).wf(),
        ensures
            old(self)@.pool.available.len() == 0 ==> r is None && final(self)@ == old(self)@,
            old(self)@.pool.available.len() > 0 ==> (r matches Some((idx, buffer)) && {
                let old_pool = old(self)@.pool;
                &&& idx == old_pool.available.last()
                &&& buffer@ == (BufferState { length: 0, ..old_pool.buffers[idx as int] })
                &&& final(self)@ == (ManagerState {
                    pool: PoolState {
                        buffers: old_pool.buffers.update(idx as int, final(buffer)@),
                        available: old_pool.available.drop_last(),
                        ..old_pool
                    },
                    in_flight: old(self)@.in_flight.push(idx),
                })
            }),
            final(self).wf(),
    {
        match self.pool.acquire() {
            None => None,
            Some((idx, buffer)) => {
                self.in_flight.push(idx);
                Some((idx, buffer))
            },
        }
    }

    /// Takes back a buffer in flight into the pool; a buffer not in flight is refused and
    /// nothing changes.
    pub fn release_buffer(&mut self, index: usize) -> (r: Result<()>)
        requires
            old(self).wf(),
        ensures
            final(self).wf(),
            old(self)@.in_flight.contains(index) ==> r is Ok && final(self)@ == (ManagerState {
                pool: PoolState { available: old(self)@.pool.available.push(index), ..old(self)@.pool },
                in_flight: old(self)@.in_flight.remove(old(self)@.in_flight.index_of(index)),
            }),
            !old(self)@.in_flight.contains(index) ==> (r matches Err(
                Uac2Error::InvalidConfiguration(m),
            ) && m@ == not_in_flight_message(index) && final(self)@ == old(self)@),
    {
        let mut pos: usize = 0;
        let mut found = false;
        while pos < self.in_flight.len() && !found
            invariant
                0 <= pos <= self.in_flight@.len(),
                found ==> pos < self.in_flight@.len() && self.in_flight@[pos as int] == index,
                !found ==> forall|j: int| 0 <= j < pos ==> self.in_flight@[j] != index,
            decreases self.in_flight@.len() - pos, if found { 0int } else { 1int },
        {
            if self.in_flight[pos] == index {
                found = true;
            } else {
                pos = pos + 1;
            }
        }
        if found {
            proof {
                let k = self.in_flight@.index_of(index);
                assert(self.in_flight@.contains(index));
                assert(k == pos as int);
            }
            self.in_flight.remove(pos);
            self.pool.release(index)?;
            Ok(())
        } else {
            Err(invalid_configuration("buffer ", index, " not in flight"))
        }
    }

    /// The number of available buffers of the pool.
    pub fn available_count(&self) -> (r: usize)
        ensures
            r == self@.pool.available.len(),
    {
        self.pool.available_count()
    }

    /// The number of buffers in flight.
    pub fn in_flight_count(&self) -> (r: usize)
        ensures
            r == self@.in_flight.len(),
    {
        self.in_flight.len()
    }

    /// Whether a buffer can be handed out.
    pub fn has_available(&self) -> (r: bool)
        ensures
            r == (self@.pool.available.len() > 0),
    {
        !self.pool.is_full()
    }
}


/// A sequence of distinct indices below `n` has at most `n` elements.
proof fn lemma_distinct_bounded(s: Seq<usize>, n: nat)
    requires
        s.no_duplicates(),
        forall|i: int| 0 <= i < s.len() ==> #[trigger] s[i] < n,
    ensures
        s.len() <= n,
    decreases n,
{
    if n == 0 {
        if s.len() > 0 {
            assert(s[0] < n);
        }
    } else if s.contains((n - 1) as usize) {
        let k = s.index_of((n - 1) as usize);
        let t = s.remove(k);
        assert forall|i: int| 0 <= i < t.len() implies #[trigger] t[i] < n - 1 by {
            if i < k {
                assert(t[i] == s[i]);
            } else {
                assert(t[i] == s[i + 1]);
            }
        }
        assert forall|i: int, j: int| 0 <= i < t.len() && 0 <= j < t.len() && i != j implies t[i]
            != t[j] by {
            let si = if i < k { i } else { i + 1 };
            let sj = if j < k { j } else { j + 1 };
            assert(t[i] == s[si]);
            assert(t[j] == s[sj]);
        }
        lemma_distinct_bounded(t, (n - 1) as nat);
    } else {
        assert forall|i: int| 0 <= i < s.len() implies #[trigger] s[i] < n - 1 by {
            assert(s[i] != n - 1);
        }
        lemma_distinct_bounded(s, (n - 1) as nat);
    }
}

/// Every buffer is in flight, available, or neither, never both: the buffers in flight
/// and the available ones together are at most all the buffers.
pub proof fn law_buffers_accounted(m: ManagerState)
    requires
        manager_wf(m),
    ensures
        m.in_flight.len() + m.pool.available.len() <= m.pool.buffers.len(),
{
    let all = m.in_flight + m.pool.available;
    let n = m.in_flight.len();
    assert forall|i: int| 0 <= i < all.len() implies #[trigger] all[i] < m.pool.buffers.len() by {
        if i >= n {
            assert(all[i] == m.pool.available[i - n]);
        }
    }
    assert forall|i: int, j: int| 0 <= i < all.len() && 0 <= j < all.len() && i != j implies all[i]
        != all[j] by {
        if i < n && j >= n {
            assert(all[j] == m.pool.available[j - n]);
            assert(!m.pool.available.contains(m.in_flight[i]));
        } else if i >= n && j < n {
            assert(all[i] == m.pool.available[i - n]);
            assert(!m.pool.available.contains(m.in_flight[j]));
        } else if i >= n && j >= n {
            assert(all[i] == m.pool.available[i - n]);
            assert(all[j] == m.pool.available[j - n]);
        }
    }
    lemma_distinct_bounded(all, m.pool.buffers.len());
}

/// Releasing the buffer just handed out is allowed, and restores the available buffers
/// as they were; whatever was done to the buffer meanwhile.
pub proof fn law_release_undoes_acquire(before: PoolState, after: PoolState)
    requires
        pool_wf(before),
        before.available.len() > 0,
        after.available == before.available.drop_last(),
        after.buffers.len() == before.buffers.len(),
    ensures
        release_allowed(after, before.available.last()),
        after.available.push(before.available.last()) == before.available,
{
    let i = before.available.last();
    let k = before.available.len() - 1;
    if after.available.contains(i) {
        let j = choose|j: int| 0 <= j < after.available.len() && after.available[j] == i;
        assert(before.available[j] == before.available[k]);
    }
    assert(after.available.push(i) =~= before.available);
}

/// A released buffer is the next to be handed out, and cannot be released again before.
pub proof fn law_release_then_acquire(before: PoolState, index: usize)
    requires
        pool_wf(before),
        release_allowed(before, index),
    ensures
        ({
            let after = PoolState { available: before.available.push(index), ..before };
            &&& pool_wf(after)
            &&& after.available.last() == index
            &&& !release_allowed(after, index)
        }),
{
    let after = PoolState { available: before.available.push(index), ..before };
    assert(after.available[after.available.len() - 1] == index);
    assert(after.available.contains(index));
    assert forall|i: int, j: int| 0 <= i < after.available.len() && 0 <= j < after.available.len()
        && i != j implies after.available[i] != after.available[j] by {
        if i == before.available.len() as int {
            assert(!before.available.contains(index));
            assert(after.available[j] == before.available[j]);
        } else if j == before.available.len() as int {
            assert(after.available[i] == before.available[i]);
        } else {
            assert(after.available[i] == before.available[i]);
            assert(after.available[j] == before.available[j]);
        }
    }
}

/// Handing out a buffer through a manager and releasing it again restores the
/// buffers in flight and the available buffers as they were.
pub proof fn law_manager_round_trip(before: ManagerState, after: ManagerState)
    requires
        manager_wf(before),
        before.pool.available.len() > 0,
        after.pool.available == before.pool.available.drop_last(),
        after.pool.buffers.len() == before.pool.buffers.len(),
        after.in_flight == before.in_flight.push(before.pool.available.last()),
    ensures
        after.in_flight.contains(before.pool.available.last()),
        after.in_flight.remove(after.in_flight.index_of(before.pool.available.last()))
            == before.in_flight,
        after.pool.available.push(before.pool.available.last()) == before.pool.available,
{
    let idx = before.pool.available.last();
    let n = before.in_flight.len() as int;
    assert(before.pool.available.contains(idx)) by {
        assert(before.pool.available[before.pool.available.len() - 1] == idx);
    }
    assert(after.in_flight[n] == idx);
    assert(after.in_flight.contains(idx));
    let k = after.in_flight.index_of(idx);
    if k != n {
        assert(after.in_flight[k] == before.in_flight[k]);
        assert(!before.pool.available.contains(before.in_flight[k]));
    }
    assert(after.in_flight.remove(n) =~= before.in_flight);
    assert(after.pool.available.push(idx) =~= before.pool.available);
}


/// Every buffer is either in flight or available.
pub open spec fn all_accounted(m: ManagerState) -> bool {
    m.in_flight.len() + m.pool.available.len() == m.pool.buffers.len()
}

/// A manager made over a pool whose buffers are all available accounts for every buffer,
/// and handing out a buffer (`after` as `acquire_buffer` leaves it) or taking one in flight
/// back (`after` as `release_buffer` leaves it) keeps every buffer accounted for: the
/// buffers in flight and the available ones always add up to all the buffers.
pub proof fn law_all_accounted(before: ManagerState, after: ManagerState, index: usize)
    ensures
        before.in_flight.len() == 0 && before.pool.available.len() == before.pool.buffers.len()
            ==> all_accounted(before),
        ({
            &&& before.pool.available.len() > 0
            &&& after.pool.available == before.pool.available.drop_last()
            &&& after.pool.buffers.len() == before.pool.buffers.len()
            &&& after.in_flight == before.in_flight.push(before.pool.available.last())
        }) ==> all_accounted(after) == all_accounted(before),
        ({
            &&& before.in_flight.contains(index)
            &&& after.pool.available == before.pool.available.push(index)
            &&& after.pool.buffers.len() == before.pool.buffers.len()
            &&& after.in_flight == before.in_flight.remove(before.in_flight.index_of(index))
        }) ==> all_accounted(after) == all_accounted(before),
{
    if before.in_flight.contains(index) {
        let k = before.in_flight.index_of(index);
        assert(0 <= k < before.in_flight.len());
        assert(before.in_flight.remove(k).len() == before.in_flight.len() - 1);
    }
}

} // verus!

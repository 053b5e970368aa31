//! Progress of an encode, read from the encoder's diagnostic stream.
//!
//! The stream is cut into chunks at carriage returns, the convention encoders
//! use to redraw a status line in place. The first `HH:MM:SS.ff` timestamp of a
//! chunk gives the elapsed time; the published position only moves forward
//! and never passes the capacity, the probed duration of the source.
use vstd::prelude::*;

verus! {

pub open spec fn is_digit(b: u8) -> bool {
    48 <= b <= 57
}

pub open spec fn digit_value(b: u8) -> nat {
    (b - 48) as nat
}

pub open spec fn two_digits(s: Seq<u8>, i: int) -> nat {
    10 * digit_value(s[i]) + digit_value(s[i + 1])
}

/// `s` holds a timestamp `HH:MM:SS.ff` at position `i`.
pub open spec fn timestamp_at(s: Seq<u8>, i: int) -> bool {
    &&& 0 <= i
    &&& i + 11 <= s.len()
    &&& is_digit(s[i]) && is_digit(s[i + 1])
    &&& s[i + 2] == 58
    &&& is_digit(s[i + 3]) && is_digit(s[i + 4])
    &&& s[i + 5] == 58
    &&& is_digit(s[i + 6]) && is_digit(s[i + 7])
    &&& s[i + 8] == 46
    &&& is_digit(s[i + 9]) && is_digit(s[i + 10])
}

/// The whole seconds that the timestamp at `i` stands for.
pub open spec fn timestamp_seconds(s: Seq<u8>, i: int) -> nat {
    two_digits(s, i) * 3600 + two_digits(s, i + 3) * 60 + two_digits(s, i + 6)
}

/// The value of the first timestamp of `s` at or after `i`.
pub open spec fn first_timestamp_from(s: Seq<u8>, i: int) -> Option<nat>
    decreases s.len() - i,
{
    if i < 0 || i + 11 > s.len() {
        None
    } else if timestamp_at(s, i) {
        Some(timestamp_seconds(s, i))
    } else {
        first_timestamp_from(s, i + 1)
    }
}

pub open spec fn first_timestamp(s: Seq<u8>) -> Option<nat> {
    first_timestamp_from(s, 0)
}

/// The position after `t` seconds were reported: never back, never past
/// the capacity.
pub open spec fn advance(position: u64, capacity: u64, t: nat) -> u64 {
    let c = if t < capacity {
        t as u64
    } else {
        capacity
    };
    if c > position {
        c
    } else {
        position
    }
}

/// The position after a whole chunk was read.
pub open spec fn after_chunk(position: u64, capacity: u64, chunk: Seq<u8>) -> u64 {
    match first_timestamp(chunk) {
        Some(t) => advance(position, capacity, t),
        None => position,
    }
}

pub struct ProgressView {
    pub capacity: u64,
    pub position: u64,
    pub pending: Seq<u8>,
}

/// The state after one more byte of the stream.
pub open spec fn feed_byte(v: ProgressView, b: u8) -> ProgressView {
    if b == 13 {
        ProgressView {
            position: after_chunk(v.position, v.capacity, v.pending),
            pending: Seq::empty(),
            ..v
        }
    } else {
        ProgressView { pending: v.pending.push(b), ..v }
    }
}

/// The state after `data`, byte by byte.
pub open spec fn feed_all(v: ProgressView, data: Seq<u8>) -> ProgressView
    decreases data.len(),
{
    if data.len() == 0 {
        v
    } else {
        feed_byte(feed_all(v, data.drop_last()), data.last())
    }
}

/// The state once the stream has closed: what was left forms the last chunk.
pub open spec fn closed(v: ProgressView) -> ProgressView {
    ProgressView { position: after_chunk(v.position, v.capacity, v.pending), pending: Seq::empty(), ..v }
}

/// Reads the two-digit number at `i`.
fn read_two_digits(s: &Vec<u8>, i: usize) -> (r: u64)
    requires
        i + 1 < s.len(),
        is_digit(s@[i as int]),
        is_digit(s@[i + 1]),
    ensures
        r == two_digits(s@, i as int),
{
    10 * ((s[i] - 48) as u64) + ((s[i + 1] - 48) as u64)
}

proof fn lemma_timestamp_bound(s: Seq<u8>, i: int)
    ensures
        first_timestamp_from(s, i) matches Some(t) ==> t < 400000,
    decreases s.len() - i,
{
    if !(i < 0 || i + 11 > s.len()) && !timestamp_at(s, i) {
        lemma_timestamp_bound(s, i + 1);
    }
}

/// The first timestamp of `s`, in whole seconds.
pub fn parse_timestamp(s: &Vec<u8>) -> (r: Option<u64>)
    ensures
        match first_timestamp(s@) {
            Some(t) => r == Some(t as u64) && t < 400000,
            None => r is None,
        },
{
    let mut i: usize = 0;
    proof {
        lemma_timestamp_bound(s@, 0);
    }
    while i < s.len() && s.len() - i >= 11
        invariant
            i <= s.len(),
            first_timestamp(s@) == first_timestamp_from(s@, i as int),
        decreases s.len() - i,
    {
        if s[i] >= 48 && s[i] <= 57 && s[i + 1] >= 48 && s[i + 1] <= 57 && s[i + 2] == 58 && s[i
            + 3] >= 48 && s[i + 3] <= 57 && s[i + 4] >= 48 && s[i + 4] <= 57 && s[i + 5] == 58
            && s[i + 6] >= 48 && s[i + 6] <= 57 && s[i + 7] >= 48 && s[i + 7] <= 57 && s[i + 8]
            == 46 && s[i + 9] >= 48 && s[i + 9] <= 57 && s[i + 10] >= 48 && s[i + 10] <= 57 {
            let h: u64 = read_two_digits(s, i);
            let m: u64 = read_two_digits(s, i + 3);
            let sec: u64 = read_two_digits(s, i + 6);
            return Some(h * 3600 + m * 60 + sec);
        }
        i = i + 1;
    }
    None
}

/// Position and capacity of the progress indicator of one encode, with the
/// part of the current chunk read so far.
pub struct ProgressMonitor {
    capacity: u64,
    position: u64,
    pending: Vec<u8>,
}

impl View for ProgressMonitor {
    type V = ProgressView;

    closed spec fn view(&self) -> ProgressView {
        ProgressView { capacity: self.capacity, position: self.position, pending: self.pending@ }
    }
}

/// The law of the indicator: the position stays within the capacity.
pub open spec fn bounded(v: ProgressView) -> bool {
    v.position <= v.capacity
}

/// Reading more of the stream never moves the position back, and never past
/// the capacity once it is within it.
pub proof fn lemma_progress_monotone_bounded(v: ProgressView, data: Seq<u8>)
    ensures
        feed_all(v, data).capacity == v.capacity,
        v.position <= feed_all(v, data).position,
        v.position <= closed(feed_all(v, data)).position,
        bounded(v) ==> bounded(feed_all(v, data)) && bounded(closed(feed_all(v, data))),
    decreases data.len(),
{
    if data.len() > 0 {
        lemma_progress_monotone_bounded(v, data.drop_last());
    }
}

impl ProgressMonitor {
    /// A monitor for an encode whose source lasts `capacity` seconds (0 when
    /// unknown).
    pub fn new(capacity: u64) -> (r: ProgressMonitor)
        ensures
            r@ == (ProgressView { capacity, position: 0, pending: Seq::empty() }),
            bounded(r@),
    {
        ProgressMonitor { capacity, position: 0, pending: Vec::new() }
    }

    pub fn position(&self) -> (r: u64)
        ensures
            r == self@.position,
    {
        self.position
    }

    pub fn capacity(&self) -> (r: u64)
        ensures
            r == self@.capacity,
    {
        self.capacity
    }

    /// Ends the current chunk and publishes its timestamp, if it holds one.
    fn end_chunk(&mut self)
        ensures
            final(self)@ == closed(old(self)@),
    {
        match parse_timestamp(&self.pending) {
            Some(t) => {
                let c: u64 = if t < self.capacity {
                    t
                } else {
                    self.capacity
                };
                if c > self.position {
                    self.position = c;
                }
            },
            None => {},
        }
        self.pending = Vec::new();
    }

    /// Reads the next bytes of the diagnostic stream.
    pub fn feed(&mut self, data: &[u8])
        ensures
            final(self)@ == feed_all(old(self)@, data@),
            old(self)@.position <= final(self)@.position,
            bounded(old(self)@) ==> bounded(final(self)@),
    {
        let mut i: usize = 0;
        assert(data@.subrange(0, 0) =~= Seq::<u8>::empty());
        while i < data.len()
            invariant
                i <= data.len(),
                self@ == feed_all(old(self)@, data@.subrange(0, i as int)),
            decreases data.len() - i,
        {
            assert(data@.subrange(0, i + 1).drop_last() =~= data@.subrange(0, i as int));
            proof {
                lemma_progress_monotone_bounded(old(self)@, data@.subrange(0, i as int));
            }
            if data[i] == 13 {
                self.end_chunk();
            } else {
                self.pending.push(data[i]);
            }
            i = i + 1;
        }
        assert(data@.subrange(0, data.len() as int) =~= data@);
        proof {
            lemma_progress_monotone_bounded(old(self)@, data@);
        }
    }

    /// The stream has closed: what is left forms the last chunk.
    pub fn finish(&mut self)
        ensures
            final(self)@ == closed(old(self)@),
            old(self)@.position <= final(self)@.position,
            bounded(old(self)@) ==> bounded(final(self)@),
    {
        self.end_chunk();
    }
}

} // verus!

//! Reading a mounted file piece by piece.

use vstd::prelude::*;

verus! {

/// The most bytes that are asked of a store at once.
pub const BUFFER_SIZE: u64 = 4_000_000;

/// A file that is read from `offset` on, up to `end` where that is known.
#[derive(Clone, Copy, Debug, PartialEq, Eq, Structural)]
pub struct MountReadStream {
    pub offset: u64,
    pub end: Option<u64>,
}

impl MountReadStream {
    /// How many bytes the next piece asks for.
    pub open spec fn want(self) -> int {
        match self.end {
            Some(end) => if self.offset >= end {
                0
            } else if end - self.offset < BUFFER_SIZE {
                end - self.offset
            } else {
                BUFFER_SIZE as int
            },
            None => BUFFER_SIZE as int,
        }
    }

    /// What is left to read after `got` bytes came.
    pub open spec fn after(self, got: int) -> Self {
        let offset = (self.offset + got) as u64;
        MountReadStream { offset, end: if got < self.want() { Some(offset) } else { self.end } }
    }

    /// Starts at `offset`, for `size` bytes where a size is given.
    pub fn open(offset: u64, size: Option<u64>) -> (r: Self)
        requires
            size matches Some(n) ==> offset + n <= u64::MAX,
        ensures
            r.offset == offset,
            match size {
                Some(n) => r.end == Some((offset + n) as u64),
                None => r.end is None,
            },
    {
        let end = match size {
            Some(n) => Some(offset + n),
            None => None,
        };
        MountReadStream { offset, end }
    }

    /// The range to read next, `None` where everything was read.
    pub fn next(&self) -> (r: Option<(u64, u64)>)
        requires
            self.offset + self.want() <= u64::MAX,
        ensures
            match r {
                Some((from, to)) => {
                    &&& self.want() > 0
                    &&& from == self.offset
                    &&& to == self.offset + self.want()
                },
                None => self.want() == 0,
            },
    {
        let want = match self.end {
            Some(end) => {
                if self.offset >= end {
                    return None;
                }
                let left = end - self.offset;
                if left < BUFFER_SIZE {
                    left
                } else {
                    BUFFER_SIZE
                }
            },
            None => BUFFER_SIZE,
        };
        Some((self.offset, self.offset + want))
    }

    /// `got` bytes came for the range that [`next`](Self::next) gave. Fewer
    /// than asked for means that the file ends there.
    pub fn advance(&mut self, got: u64)
        requires
            old(self).offset + got <= u64::MAX,
        ensures
            *final(self) == old(self).after(got as int),
    {
        let short = match self.end {
            Some(end) => {
                if self.offset >= end {
                    false
                } else {
                    let left = end - self.offset;
                    got < left && got < BUFFER_SIZE
                }
            },
            None => got < BUFFER_SIZE,
        };
        self.offset = self.offset + got;
        if short {
            self.end = Some(self.offset);
        }
    }
}

/// The known length of an open file.
#[derive(Clone, Copy, Debug, PartialEq, Eq, Structural)]
pub struct MountHandle {
    pub content_length: u64,
}

impl MountHandle {
    /// The range to read for up to `size` bytes from `offset` on. It is cut off
    /// at the end of the file, since some stores refuse a range that goes past
    /// it; `None` where nothing is left.
    pub fn read_at(&self, offset: u64, size: u64) -> (r: Option<(u64, u64)>)
        requires
            offset < self.content_length ==> offset + size <= u64::MAX,
        ensures
            match r {
                Some((from, to)) => {
                    &&& offset < self.content_length
                    &&& from == offset
                    &&& to == if offset + size <= self.content_length {
                        offset + size
                    } else {
                        self.content_length as int
                    }
                },
                None => offset >= self.content_length,
            },
    {
        if offset >= self.content_length {
            return None;
        }
        let end = offset + size;
        if end <= self.content_length {
            Some((offset, end))
        } else {
            Some((offset, self.content_length))
        }
    }
}

// ── Laws ────────────────────────────────────────────────────────────────────

/// How many bytes a store that holds `file` gives for the next piece.
pub open spec fn given(file: Seq<u8>, s: MountReadStream) -> int {
    if s.offset + s.want() <= file.len() {
        s.want()
    } else if s.offset < file.len() {
        file.len() - s.offset
    } else {
        0
    }
}

/// Everything that `s` reads of `file`, piece after piece.
pub open spec fn collected(file: Seq<u8>, s: MountReadStream) -> Seq<u8>
    decreases file.len() - s.offset,
{
    let got = given(file, s);
    if got <= 0 || s.offset + got > u64::MAX {
        Seq::empty()
    } else {
        file.subrange(s.offset as int, s.offset + got) + collected(file, s.after(got))
    }
}

/// A stream reads each byte of its range once and in order, and stops where
/// the range or the file ends.
pub proof fn law_stream_reads_its_range(file: Seq<u8>, s: MountReadStream)
    requires
        file.len() <= u64::MAX,
        s.offset <= file.len(),
        s.end matches Some(end) ==> s.offset <= end,
    ensures
        collected(file, s) == file.subrange(
            s.offset as int,
            match s.end {
                Some(end) => if end < file.len() {
                    end as int
                } else {
                    file.len() as int
                },
                None => file.len() as int,
            },
        ),
    decreases file.len() - s.offset,
{
    let got = given(file, s);
    let to = match s.end {
        Some(end) => if end < file.len() {
            end as int
        } else {
            file.len() as int
        },
        None => file.len() as int,
    };
    if got > 0 {
        let t = s.after(got);
        assert(t.offset == s.offset + got);
        law_stream_reads_its_range(file, t);
        assert(collected(file, s) =~= file.subrange(s.offset as int, to));
    } else {
        assert(file.subrange(s.offset as int, to) =~= Seq::empty());
    }
}

/// A piece starts where the last one ended, is never longer than the most that
/// is asked for at once, never goes beyond the end, and is no shorter than both
/// allow. There is none where everything was read.
pub proof fn law_pieces_are_as_long_as_they_may_be(s: &MountReadStream, r: Option<(u64, u64)>)
    requires
        call_ensures(MountReadStream::next, (s,), r),
    ensures
        r is None <==> (s.end matches Some(end) && s.offset >= end),
        r matches Some((from, to)) ==> {
            &&& from == s.offset
            &&& to > from
            &&& to - from <= 4_000_000
            &&& s.end matches Some(end) ==> to <= end
            &&& to - from == 4_000_000 || s.end == Some(to)
        },
{
}

/// What came is behind the stream; where less came than was asked for, the file
/// ends there and nothing more is asked for.
pub proof fn law_short_pieces_end_the_stream(
    s: &mut MountReadStream,
    got: u64,
    asked: Option<(u64, u64)>,
)
    requires
        call_ensures(MountReadStream::next, (&*s,), asked),
        call_ensures(MountReadStream::advance, (s, got), ()),
        old(s).offset + got <= u64::MAX,
    ensures
        final(s).offset == old(s).offset + got,
        asked matches Some((from, to)) ==> {
            &&& got < to - from ==> final(s).end == Some(final(s).offset)
            &&& got >= to - from ==> final(s).end == old(s).end
        },
        asked is None ==> final(s).end == old(s).end,
{
}

/// A stream starts at its offset and ends as many bytes later as are asked for.
pub proof fn law_streams_are_as_long_as_asked(offset: u64, size: Option<u64>, r: MountReadStream)
    requires
        size matches Some(n) ==> offset + n <= u64::MAX,
        call_ensures(MountReadStream::open, (offset, size), r),
    ensures
        r.offset == offset,
        size is None <==> r.end is None,
        size matches Some(n) ==> (r.end matches Some(end) && end - offset == n),
{
}

/// Reading at an offset gives as much as is asked for and is there, and nothing
/// at or behind the end of the file.
pub proof fn law_reads_stop_at_the_end(
    h: &MountHandle,
    offset: u64,
    size: u64,
    r: Option<(u64, u64)>,
)
    requires
        call_ensures(MountHandle::read_at, (h, offset, size), r),
    ensures
        r is None <==> offset >= h.content_length,
        r matches Some((from, to)) ==> {
            &&& from == offset
            &&& to <= h.content_length
            &&& to - from <= size
            &&& to - from == size || to == h.content_length
        },
{
}

} // verus!

//! Filling a buffer from a file that is read in pieces: first the bytes before the wanted
//! offset are read and thrown away, then the buffer is filled until it is full or the file
//! ends.

use vstd::prelude::*;

verus! {

/// The most bytes that are thrown away at a time.
pub const SCRATCH_LEN: usize = 512;

/// What the next piece of the file is for.
#[derive(Clone, Copy, Debug, PartialEq, Eq, Structural)]
pub enum FillPhase {
    /// It lies before the wanted offset.
    Skip,
    /// It goes into the buffer.
    Fill,
    /// No more is wanted.
    Done,
}

/// The state of a fill: the bytes still to be skipped, the buffer, and how much of it has
/// come from the file.
pub struct Fill {
    pub phase: FillPhase,
    pub skip: int,
    pub data: Seq<u8>,
    pub done: int,
}

/// `len` zero bytes.
pub open spec fn zeros(len: int) -> Seq<u8> {
    Seq::new(len as nat, |i: int| 0u8)
}

/// What `len` bytes of `file` from position `from` are, with zeros past its end.
pub open spec fn padded(file: Seq<u8>, from: int, len: int) -> Seq<u8> {
    Seq::new(
        len as nat,
        |i: int|
            if from + i < file.len() {
                file[from + i]
            } else {
                0u8
            },
    )
}

impl Fill {
    /// No more has come than the buffer holds, and each phase has something left to do.
    pub open spec fn inv(self) -> bool {
        &&& 0 <= self.skip
        &&& 0 <= self.done <= self.data.len()
        &&& self.phase is Skip ==> self.skip > 0 && self.done == 0
        &&& self.phase is Fill ==> self.done < self.data.len()
    }

    /// The phase once nothing is left to skip.
    pub open spec fn after_skip(self) -> FillPhase {
        if self.done < self.data.len() {
            FillPhase::Fill
        } else {
            FillPhase::Done
        }
    }

    /// A buffer of `len` bytes, to be filled with what comes after the next `offset` bytes.
    pub open spec fn begin(len: int, offset: int) -> Fill {
        Fill {
            phase: if offset > 0 {
                FillPhase::Skip
            } else if len > 0 {
                FillPhase::Fill
            } else {
                FillPhase::Done
            },
            skip: offset,
            data: zeros(len),
            done: 0,
        }
    }

    /// A buffer of `len` zero bytes that wants nothing.
    pub open spec fn blank(len: int) -> Fill {
        Fill { phase: FillPhase::Done, skip: 0, data: zeros(len), done: 0 }
    }

    /// The most bytes that the next piece may have.
    pub open spec fn wanted(self) -> int {
        match self.phase {
            FillPhase::Skip => if self.skip < SCRATCH_LEN {
                self.skip
            } else {
                SCRATCH_LEN as int
            },
            FillPhase::Fill => self.data.len() - self.done,
            FillPhase::Done => 0,
        }
    }

    /// The state after the next piece of the file. An empty piece is the end of the file: it
    /// ends the skipping, or the filling.
    pub open spec fn feed(self, bytes: Seq<u8>) -> Fill {
        match self.phase {
            FillPhase::Skip => {
                let skip = self.skip - bytes.len();
                Fill {
                    phase: if bytes.len() == 0 || skip == 0 {
                        self.after_skip()
                    } else {
                        FillPhase::Skip
                    },
                    skip,
                    ..self
                }
            },
            FillPhase::Fill => {
                let done = self.done + bytes.len();
                Fill {
                    phase: if bytes.len() == 0 || done == self.data.len() {
                        FillPhase::Done
                    } else {
                        FillPhase::Fill
                    },
                    data: self.data.subrange(0, self.done) + bytes + self.data.subrange(
                        done,
                        self.data.len() as int,
                    ),
                    done,
                    ..self
                }
            },
            FillPhase::Done => self,
        }
    }
}

/// A buffer that is being filled from a file.
pub struct FileFill {
    phase: FillPhase,
    skip: usize,
    data: Vec<u8>,
    done: usize,
}

impl View for FileFill {
    type V = Fill;

    closed spec fn view(&self) -> Fill {
        Fill {
            phase: self.phase,
            skip: self.skip as int,
            data: self.data@,
            done: self.done as int,
        }
    }
}

impl FileFill {
    /// A buffer of `len` bytes, to be filled with what comes after the next `offset` bytes.
    pub fn begin(len: usize, offset: usize) -> (r: FileFill)
        requires
            len <= isize::MAX,
        ensures
            r@ == Fill::begin(len as int, offset as int),
            r@.inv(),
    {
        let data = vec![0u8; len];
        let phase = if offset > 0 {
            FillPhase::Skip
        } else if len > 0 {
            FillPhase::Fill
        } else {
            FillPhase::Done
        };
        let r = FileFill { phase, skip: offset, data, done: 0 };
        assert(r.data@ =~= zeros(len as int));
        r
    }

    /// A buffer of `len` zero bytes that wants nothing.
    pub fn blank(len: usize) -> (r: FileFill)
        requires
            len <= isize::MAX,
        ensures
            r@ == Fill::blank(len as int),
            r@.inv(),
    {
        let data = vec![0u8; len];
        let r = FileFill { phase: FillPhase::Done, skip: 0, data, done: 0 };
        assert(r.data@ =~= zeros(len as int));
        r
    }

    /// What the next piece of the file is for.
    pub fn phase(&self) -> (r: FillPhase)
        ensures
            r == self@.phase,
    {
        self.phase
    }

    /// The buffer.
    pub fn data(&self) -> (r: &Vec<u8>)
        ensures
            r@ == self@.data,
    {
        &self.data
    }

    /// The most bytes that the next piece may have.
    pub fn wanted(&self) -> (r: usize)
        requires
            self@.inv(),
        ensures
            r == self@.wanted(),
    {
        match self.phase {
            FillPhase::Skip => if self.skip < SCRATCH_LEN {
                self.skip
            } else {
                SCRATCH_LEN
            },
            FillPhase::Fill => self.data.len() - self.done,
            FillPhase::Done => 0,
        }
    }

    /// Takes the next piece of the file. An empty piece is the end of the file.
    pub fn feed(&mut self, bytes: &Vec<u8>)
        requires
            old(self)@.inv(),
            bytes@.len() <= old(self)@.wanted(),
        ensures
            final(self)@ == old(self)@.feed(bytes@),
            final(self)@.inv(),
    {
        let n = bytes.len();
        match self.phase {
            FillPhase::Skip => {
                self.skip = self.skip - n;
                if n == 0 || self.skip == 0 {
                    self.phase = if self.done < self.data.len() {
                        FillPhase::Fill
                    } else {
                        FillPhase::Done
                    };
                }
            },
            FillPhase::Fill => {
                let ghost before = self.data@;
                let done = self.done;
                let len = self.data.len();
                let mut i: usize = 0;
                while i < n
                    invariant
                        i <= n,
                        n == bytes@.len(),
                        done + n <= len,
                        len == before.len(),
                        self.done == done,
                        self.skip == old(self).skip,
                        self.phase == FillPhase::Fill,
                        self.data@ =~= before.subrange(0, done as int) + bytes@.subrange(
                            0,
                            i as int,
                        ) + before.subrange(done + i, before.len() as int),
                    decreases n - i,
                {
                    self.data.set(done + i, bytes[i]);
                    i = i + 1;
                }
                assert(bytes@.subrange(0, n as int) =~= bytes@);
                self.done = done + n;
                if n == 0 || self.done == len {
                    self.phase = FillPhase::Done;
                }
            },
            FillPhase::Done => {},
        }
    }
}

/// A file, where the reading began, and where it has come to.
pub struct Source {
    pub file: Seq<u8>,
    pub origin: int,
    pub pos: int,
}

impl Source {
    /// Whether `bytes` is what a read of at most `wanted` bytes may give: some of the bytes at
    /// the position, or none at the end of the file.
    pub open spec fn serves(self, bytes: Seq<u8>, wanted: int) -> bool {
        &&& bytes.len() <= wanted
        &&& bytes.len() == 0 ==> self.pos >= self.file.len()
        &&& bytes.len() > 0 ==> self.pos + bytes.len() <= self.file.len() && bytes
            == self.file.subrange(self.pos, self.pos + bytes.len())
    }

    /// The source after `bytes` have been read.
    pub open spec fn advance(self, bytes: Seq<u8>) -> Source {
        Source { pos: self.pos + bytes.len(), ..self }
    }

    /// What a fill from `offset` on has come to when the reads were served by this source.
    pub open spec fn explains(self, fill: Fill, offset: int) -> bool {
        let from = self.origin + offset;
        &&& 0 <= self.origin <= self.pos
        &&& 0 <= offset
        &&& match fill.phase {
            FillPhase::Skip => {
                &&& self.pos + fill.skip == from
                &&& fill.data == zeros(fill.data.len() as int)
            },
            FillPhase::Fill => {
                &&& self.pos == from + fill.done || (fill.done == 0 && self.file.len() <= self.pos
                    <= from)
                &&& fill.done > 0 ==> self.pos <= self.file.len()
                &&& forall|i: int|
                    0 <= i < fill.data.len() ==> #[trigger] fill.data[i] == if i < fill.done {
                        self.file[from + i]
                    } else {
                        0u8
                    }
            },
            FillPhase::Done => fill.data == padded(self.file, from, fill.data.len() as int),
        }
    }
}

/// A fill that begins now is explained by the source as it stands.
pub proof fn law_fill_begins(source: Source, len: nat, offset: nat)
    requires
        0 <= source.origin == source.pos,
    ensures
        source.explains(Fill::begin(len as int, offset as int), offset as int),
{
    let fill = Fill::begin(len as int, offset as int);
    assert(fill.phase is Done ==> fill.data =~= padded(
        source.file,
        source.origin + offset,
        fill.data.len() as int,
    ));
}

/// Whatever the sizes of the pieces, each piece keeps the fill explained by the source. So a
/// fill that is done holds the bytes of the file from the offset on, counted from where the
/// reading began, with zeros past the end of the file.
pub proof fn law_fill_follows_file(source: Source, fill: Fill, offset: int, bytes: Seq<u8>)
    requires
        fill.inv(),
        fill.phase !is Done,
        source.explains(fill, offset),
        source.serves(bytes, fill.wanted()),
    ensures
        fill.feed(bytes).inv(),
        fill.feed(bytes).data.len() == fill.data.len(),
        source.advance(bytes).explains(fill.feed(bytes), offset),
        fill.feed(bytes).phase is Done ==> fill.feed(bytes).data == padded(
            source.file,
            source.origin + offset,
            fill.data.len() as int,
        ),
{
    let next = fill.feed(bytes);
    let from = source.origin + offset;
    assert(next.data.len() == fill.data.len());
    if next.phase is Done {
        assert(next.data =~= padded(source.file, from, fill.data.len() as int));
    }
}

/// How many pieces a fill can still take, at most.
pub open spec fn fill_left(fill: Fill) -> int {
    match fill.phase {
        FillPhase::Skip => fill.skip + 1 + (fill.data.len() - fill.done),
        FillPhase::Fill => fill.data.len() - fill.done,
        FillPhase::Done => 0,
    }
}

/// Every piece brings the fill nearer to its end: fewer bytes are left, or it is one phase
/// further.
pub proof fn law_fill_makes_progress(fill: Fill, bytes: Seq<u8>)
    requires
        fill.inv(),
        fill.phase !is Done,
        bytes.len() <= fill.wanted(),
    ensures
        0 <= fill_left(fill.feed(bytes)) < fill_left(fill),
{
}

/// A padded piece of a file has the length asked for, and holds what the file holds as far as
/// it goes, and zeros after that.
pub proof fn law_padded_is_file_and_zeros(file: Seq<u8>, from: int, len: int, i: int)
    requires
        0 <= from,
        0 <= i < len,
    ensures
        padded(file, from, len).len() == len,
        from + i < file.len() ==> padded(file, from, len)[i] == file[from + i],
        from + i >= file.len() ==> padded(file, from, len)[i] == 0,
        zeros(len).len() == len,
        zeros(len)[i] == 0,
{
}

/// A fill begins with a buffer of the given length, all of it zero and none of it done, and
/// with the whole offset to skip. A blank one wants nothing.
pub proof fn law_fill_begins_with_zeros(len: int, offset: int)
    requires
        0 <= len,
        0 <= offset,
    ensures
        ({
            let fill = Fill::begin(len, offset);
            &&& fill.data.len() == len
            &&& forall|i: int| 0 <= i < len ==> #[trigger] fill.data[i] == 0
            &&& fill.done == 0
            &&& fill.skip == offset
            &&& fill.phase is Skip <==> offset > 0
            &&& fill.phase is Fill <==> offset == 0 && len > 0
        }),
        ({
            let fill = Fill::blank(len);
            &&& fill.data.len() == len
            &&& forall|i: int| 0 <= i < len ==> #[trigger] fill.data[i] == 0
            &&& fill.phase is Done
        }),
{
}

/// A fill asks for at least one byte until it is done. It skips 512 bytes at a time, or what
/// is left to skip, and then asks for all that the buffer still lacks.
pub proof fn law_fill_asks_for_what_is_missing(fill: Fill)
    requires
        fill.inv(),
    ensures
        fill.wanted() == 0 <==> fill.phase is Done,
        fill.phase is Skip ==> 0 < fill.wanted() <= 512 && fill.wanted() <= fill.skip && (
        fill.wanted() == 512 || fill.wanted() == fill.skip),
        fill.phase is Fill ==> fill.done + fill.wanted() == fill.data.len(),
{
}

/// What a piece does to a fill. A skipped piece only shortens what is left to skip. Any other
/// goes into the buffer right behind what came before, and leaves the rest of it alone.
pub proof fn law_piece_goes_where_it_belongs(fill: Fill, bytes: Seq<u8>, i: int)
    requires
        fill.inv(),
        fill.phase !is Done,
        bytes.len() <= fill.wanted(),
        0 <= i < fill.data.len(),
    ensures
        fill.feed(bytes).data.len() == fill.data.len(),
        fill.phase is Skip ==> {
            &&& fill.feed(bytes).skip + bytes.len() == fill.skip
            &&& fill.feed(bytes).done == fill.done
            &&& fill.feed(bytes).data[i] == fill.data[i]
            &&& fill.feed(bytes).phase is Skip <==> 0 < bytes.len() < fill.skip
            &&& fill.feed(bytes).phase is Done ==> fill.data.len() == 0
        },
        fill.phase is Fill ==> {
            &&& fill.feed(bytes).done == fill.done + bytes.len()
            &&& fill.feed(bytes).data[i] == if fill.done <= i < fill.done + bytes.len() {
                bytes[i - fill.done]
            } else {
                fill.data[i]
            }
            &&& fill.feed(bytes).phase is Fill || fill.feed(bytes).phase is Done
            &&& fill.feed(bytes).phase is Done <==> bytes.len() == 0 || fill.done + bytes.len()
                == fill.data.len()
        },
{
}

} // verus!

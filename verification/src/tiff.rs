//! The container: a header and the full directory chain of one byte
//! source.
//!
//! Opening walks the singly-linked chain once, normally in skip mode, so
//! only positions, counts and next-pointers are kept.  Any single directory
//! can later be re-read in full from its recorded position.
//!
//! The chain walk is bounded: a source of `n` bytes may hold at most `n`
//! directories, since every decodable directory starts inside the source,
//! so a chain longer than that has revisited an offset and cannot
//! terminate.  Such a chain is rejected as a position failure rather than
//! walked forever.

use vstd::prelude::*;

use crate::bytes::ByteCursor;
use crate::error::TiffError;
use crate::header::{spec_is_big, spec_is_le, spec_parse_header, Header};
use crate::ifd::{spec_decode_ifd, IfdView, IFD};

verus! {

/// What walking the directory chain from offset `off` yields, with `fuel`
/// directories still allowed: each directory decoded in order, until a zero
/// next-offset ends the chain.  A walk that outlives its fuel fails as a
/// position failure.
#[verifier::opaque]
pub open spec fn spec_walk(
    data: Seq<u8>,
    off: u64,
    btf: bool,
    le: bool,
    skip: bool,
    fuel: nat,
) -> Result<Seq<IfdView>, TiffError>
    decreases fuel,
{
    if off == 0 {
        Ok(Seq::empty())
    } else if fuel == 0 {
        Err(TiffError::UnknownBufferError)
    } else {
        match spec_decode_ifd(data, off as int, btf, le, skip) {
            Err(e) => Err(e),
            Ok((d, _)) => match spec_walk(data, d.next_ifd, btf, le, skip, (fuel - 1) as nat) {
                Err(e) => Err(e),
                Ok(rest) => Ok(seq![d] + rest),
            },
        }
    }
}

/// A walk from the zero offset ends at once, whatever fuel is left.
pub proof fn lemma_walk_end(data: Seq<u8>, btf: bool, le: bool, skip: bool, fuel: nat)
    ensures
        spec_walk(data, 0, btf, le, skip, fuel) == Ok::<Seq<IfdView>, TiffError>(
            Seq::<IfdView>::empty(),
        ),
{
    reveal(spec_walk);
}

/// A walk standing at a nonzero offset with no fuel left fails as a
/// position failure.
pub proof fn lemma_walk_out_of_fuel(data: Seq<u8>, off: u64, btf: bool, le: bool, skip: bool)
    requires
        off != 0,
    ensures
        spec_walk(data, off, btf, le, skip, 0) == Err::<Seq<IfdView>, TiffError>(
            TiffError::UnknownBufferError,
        ),
{
    reveal(spec_walk);
}

/// One step of the walk: the directory at the offset is decoded and the
/// walk continues from its next-offset with one unit of fuel less.
pub proof fn lemma_walk_step(data: Seq<u8>, off: u64, btf: bool, le: bool, skip: bool, fuel: nat)
    requires
        off != 0,
        fuel > 0,
    ensures
        spec_walk(data, off, btf, le, skip, fuel) == match spec_decode_ifd(
            data,
            off as int,
            btf,
            le,
            skip,
        ) {
            Err(e) => Err::<Seq<IfdView>, TiffError>(e),
            Ok(pair) => match spec_walk(data, pair.0.next_ifd, btf, le, skip, (fuel - 1) as nat) {
                Err(e) => Err::<Seq<IfdView>, TiffError>(e),
                Ok(rest) => Ok::<Seq<IfdView>, TiffError>(seq![pair.0] + rest),
            },
        },
{
    reveal(spec_walk);
}

/// What opening a byte source yields: its header, and the directory chain
/// walked from the header's first offset with fuel for one more directory
/// than the source has bytes.
pub open spec fn spec_open(data: Seq<u8>, skip: bool) -> Result<
    (Header, Seq<IfdView>),
    TiffError,
> {
    match spec_parse_header(data) {
        Err(e) => Err(e),
        Ok(h) => match spec_walk(
            data,
            h.first_ifd,
            spec_is_big(h),
            spec_is_le(h),
            skip,
            data.len() + 1,
        ) {
            Err(e) => Err(e),
            Ok(dirs) => Ok((h, dirs)),
        },
    }
}

/// An opened container: the bytes of the source, its header, and the
/// directory chain in traversal order.
#[derive(Debug)]
pub struct Tiff {
    /// The bytes of the source.
    pub data: Vec<u8>,
    /// The decoded preamble.
    pub header: Header,
    /// The directory chain, in traversal order.
    pub ifd: Vec<IFD>,
}

/// The mathematical shape of a [`Tiff`].
#[verifier::ext_equal]
pub struct TiffView {
    /// The bytes of the source.
    pub data: Seq<u8>,
    /// The preamble.
    pub header: Header,
    /// The directory chain.
    pub ifd: Seq<IfdView>,
}

impl View for Tiff {
    type V = TiffView;

    open spec fn view(&self) -> TiffView {
        TiffView {
            data: self.data@,
            header: self.header,
            ifd: self.ifd@.map_values(|d: IFD| d@),
        }
    }
}

/// An independent copy of a byte buffer: the in-memory counterpart of
/// reopening a file for a fresh read.
fn copy_bytes(v: &Vec<u8>) -> (r: Vec<u8>)
    ensures
        r@ == v@,
{
    let mut r: Vec<u8> = Vec::new();
    let n = v.len();
    let mut i: usize = 0;
    while i < n
        invariant
            i <= n,
            n == v@.len(),
            r@ == v@.subrange(0, i as int),
        decreases n - i,
    {
        r.push(v[i]);
        proof {
            assert(r@ =~= v@.subrange(0, i + 1));
        }
        i = i + 1;
    }
    proof {
        assert(v@.subrange(0, n as int) =~= v@);
    }
    r
}

impl Tiff {
    /// Opens a byte source: parses the header, then walks the whole
    /// directory chain, in skip mode if `skip` is set.
    #[verifier::rlimit(100)]
    #[verifier::spinoff_prover]
    pub fn from_bytes(data: Vec<u8>, skip: bool) -> (r: Result<Tiff, TiffError>)
        ensures
            match r {
                Ok(t) => spec_open(data@, skip) matches Ok(pair) && t@.header == pair.0 && t@.ifd
                    == pair.1 && t@.data == data@,
                Err(e) => spec_open(data@, skip) == Err::<(Header, Seq<IfdView>), TiffError>(e),
            },
    {
        let ghost data0 = data@;
        let limit = data.len();
        let mut buffer = ByteCursor::new(data);
        let header = match Header::from_buffer(&mut buffer) {
            Ok(h) => h,
            Err(e) => {
                return Err(e);
            },
        };
        let btf = header.is_btf();
        let le = header.is_le();
        let ghost first = header.first_ifd;
        let mut next_ifd = header.first_ifd;
        let mut ifd: Vec<IFD> = Vec::new();
        while next_ifd != 0
            invariant
                buffer.data@ == data0,
                ifd.len() <= limit + 1,
                match spec_walk(
                    data0,
                    next_ifd,
                    btf,
                    le,
                    skip,
                    (limit + 1 - ifd.len()) as nat,
                ) {
                    Ok(rest) => spec_walk(data0, first, btf, le, skip, (limit + 1) as nat)
                        == Ok::<Seq<IfdView>, TiffError>(ifd@.map_values(|d: IFD| d@) + rest),
                    Err(e) => spec_walk(data0, first, btf, le, skip, (limit + 1) as nat)
                        == Err::<Seq<IfdView>, TiffError>(e),
                },
            decreases limit + 1 - ifd.len(),
        {
            if ifd.len() > limit {
                // The chain has produced more directories than the source
                // has bytes: it must have revisited an offset.
                proof {
                    lemma_walk_out_of_fuel(data0, next_ifd, btf, le, skip);
                }
                return Err(TiffError::UnknownBufferError);
            }
            proof {
                lemma_walk_step(data0, next_ifd, btf, le, skip, (limit + 1 - ifd.len()) as nat);
            }
            let ghost prefix = ifd@.map_values(|d: IFD| d@);
            buffer.seek(next_ifd);
            let directory = match IFD::from_buffer(&mut buffer, btf, le, skip) {
                Ok(d) => d,
                Err(e) => {
                    return Err(e);
                },
            };
            next_ifd = directory.next_ifd;
            let ghost dv = directory@;
            ifd.push(directory);
            proof {
                assert(ifd@.map_values(|d: IFD| d@) =~= prefix.push(dv));
                let rem = spec_walk(data0, next_ifd, btf, le, skip, (limit + 1 - ifd.len()) as nat);
                if rem is Ok {
                    assert((prefix + (seq![dv] + rem->Ok_0)) =~= (prefix.push(dv) + rem->Ok_0));
                }
            }
        }
        proof {
            lemma_walk_end(data0, btf, le, skip, (limit + 1 - ifd.len()) as nat);
            assert(ifd@.map_values(|d: IFD| d@) + Seq::<IfdView>::empty() =~= ifd@.map_values(
                |d: IFD| d@,
            ));
        }
        Ok(Tiff { data: buffer.data, header, ifd })
    }

    /// How many directories the chain holds.
    pub fn len(&self) -> (r: usize)
        ensures
            r == self@.ifd.len(),
    {
        self.ifd.len()
    }

    /// Re-reads the directory at `index` in full from its recorded
    /// position: the result carries exactly the tags that a full decode at
    /// that position yields.  An index at or beyond the chain length fails
    /// with `InvalidIndex`.
    pub fn read_frame(&self, index: usize) -> (r: Result<IFD, TiffError>)
        ensures
            index >= self@.ifd.len() ==> r == Err::<IFD, TiffError>(TiffError::InvalidIndex),
            index < self@.ifd.len() ==> match r {
                Ok(d) => spec_decode_ifd(
                    self@.data,
                    self@.ifd[index as int].pos as int,
                    spec_is_big(self@.header),
                    spec_is_le(self@.header),
                    false,
                ) matches Ok(pair) && pair.0 == d@,
                Err(e) => spec_decode_ifd(
                    self@.data,
                    self@.ifd[index as int].pos as int,
                    spec_is_big(self@.header),
                    spec_is_le(self@.header),
                    false,
                ) == Err::<(IfdView, int), TiffError>(e),
            },
    {
        if index >= self.ifd.len() {
            return Err(TiffError::InvalidIndex);
        }
        let mut buffer = ByteCursor::new(copy_bytes(&self.data));
        let btf = self.header.is_btf();
        let le = self.header.is_le();
        let pos = self.ifd[index].pos;
        buffer.seek(pos);
        let directory = match IFD::from_buffer(&mut buffer, btf, le, false) {
            Ok(d) => d,
            Err(e) => {
                return Err(e);
            },
        };
        Ok(directory)
    }
}

} // verus!

//! Collecting a response body under a size bound.
use vstd::prelude::*;
use crate::outcome::FailureKind;

verus! {

/// The bytes of a body read so far, never more than `limit` of them.
pub struct BodyBuffer {
    limit: usize,
    data: Vec<u8>,
}

impl BodyBuffer {
    /// The most bytes the buffer takes.
    pub closed spec fn spec_limit(&self) -> nat {
        self.limit as nat
    }

    /// The bytes taken so far.
    pub closed spec fn spec_data(&self) -> Seq<u8> {
        self.data@
    }

    pub open spec fn wf(&self) -> bool {
        self.spec_data().len() <= self.spec_limit()
    }

    /// An empty buffer that takes at most `limit` bytes.
    pub fn new(limit: usize) -> (r: BodyBuffer)
        ensures
            r.wf(),
            r.spec_limit() == limit,
            r.spec_data() == Seq::<u8>::empty(),
    {
        BodyBuffer { limit, data: Vec::new() }
    }

    pub fn limit(&self) -> (r: usize)
        ensures
            r == self.spec_limit(),
    {
        self.limit
    }

    pub fn len(&self) -> (r: usize)
        ensures
            r == self.spec_data().len(),
    {
        self.data.len()
    }

    /// Takes the next chunk of the body. Where the body would then pass the
    /// limit, the chunk is refused with `BodyTooLarge` and nothing is kept of it.
    pub fn push_chunk(&mut self, chunk: Vec<u8>) -> (r: Result<(), FailureKind>)
        requires
            old(self).wf(),
        ensures
            final(self).wf(),
            final(self).spec_limit() == old(self).spec_limit(),
            old(self).spec_data().len() + chunk@.len() <= old(self).spec_limit() ==> {
                &&& r is Ok
                &&& final(self).spec_data() == old(self).spec_data() + chunk@
            },
            old(self).spec_data().len() + chunk@.len() > old(self).spec_limit() ==> {
                &&& r == Err::<(), FailureKind>(FailureKind::BodyTooLarge)
                &&& final(self).spec_data() == old(self).spec_data()
            },
    {
        if chunk.len() > self.limit - self.data.len() {
            Err(FailureKind::BodyTooLarge)
        } else {
            let mut c = chunk;
            self.data.append(&mut c);
            Ok(())
        }
    }

    /// The body collected so far.
    pub fn into_bytes(self) -> (r: Vec<u8>)
        ensures
            r@ == self.spec_data(),
    {
        self.data
    }
}

/// A whole body of `chunks` read under `limit`: all of it where its length is
/// at most the limit, else `BodyTooLarge`.
pub fn collect_body(limit: usize, chunks: Vec<Vec<u8>>) -> (r: Result<Vec<u8>, FailureKind>)
    ensures
        concat_chunks(chunk_views(chunks@)).len() <= limit ==> (r matches Ok(b) && b@ == concat_chunks(
            chunk_views(chunks@),
        )),
        concat_chunks(chunk_views(chunks@)).len() > limit ==> r == Err::<Vec<u8>, FailureKind>(
            FailureKind::BodyTooLarge,
        ),
{
    let mut buf = BodyBuffer::new(limit);
    let ghost all = chunk_views(chunks@);
    let mut rest = chunks;
    let mut i: usize = 0;
    let n: usize = rest.len();
    while i < n
        invariant
            0 <= i <= n,
            n == all.len(),
            all == chunk_views(chunks@),
            buf.wf(),
            buf.spec_limit() == limit,
            buf.spec_data() == concat_chunks(all.take(i as int)),
            rest@.len() == n - i,
            forall|j: int| 0 <= j < rest@.len() ==> #[trigger] rest@[j]@ == all[i + j],
        decreases n - i,
    {
        proof {
            lemma_concat_chunks_grows(all, i as int);
        }
        let ghost old_rest = rest@;
        let chunk = rest.remove(0);
        assert(chunk@ == all[i as int]);
        assert forall|j: int| 0 <= j < rest@.len() implies #[trigger] rest@[j]@ == all[i + 1 + j] by {
            assert(rest@[j] == old_rest[j + 1]);
        }
        match buf.push_chunk(chunk) {
            Ok(()) => {},
            Err(k) => {
                proof {
                    lemma_concat_chunks_prefix(all, i as int + 1);
                }
                return Err(k);
            },
        }
        i = i + 1;
    }
    assert(all.take(n as int) =~= all);
    Ok(buf.into_bytes())
}

/// The bytes of each chunk.
pub open spec fn chunk_views(c: Seq<Vec<u8>>) -> Seq<Seq<u8>> {
    c.map_values(|v: Vec<u8>| v@)
}

/// All the chunks' bytes, in order.
pub open spec fn concat_chunks(c: Seq<Seq<u8>>) -> Seq<u8>
    decreases c.len(),
{
    if c.len() == 0 {
        seq![]
    } else {
        concat_chunks(c.drop_last()) + c.last()
    }
}

proof fn lemma_concat_chunks_grows(c: Seq<Seq<u8>>, i: int)
    requires
        0 <= i < c.len(),
    ensures
        concat_chunks(c.take(i + 1)) == concat_chunks(c.take(i)) + c[i],
{
    assert(c.take(i + 1).drop_last() =~= c.take(i));
}

proof fn lemma_concat_chunks_prefix(c: Seq<Seq<u8>>, i: int)
    requires
        0 <= i <= c.len(),
    ensures
        concat_chunks(c.take(i)).len() <= concat_chunks(c).len(),
    decreases c.len() - i,
{
    if i < c.len() {
        lemma_concat_chunks_grows(c, i);
        lemma_concat_chunks_prefix(c, i + 1);
    } else {
        assert(c.take(i) =~= c);
    }
}

} // verus!

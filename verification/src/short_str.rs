use crate::bytes::prefix_of;
use std::ops::Deref;
use vstd::prelude::*;

verus! {

/// Largest length that is stored inline.
pub const SHORT_MAX: usize = 12;

/// Content of at most twelve bytes, held inline together with its length.
#[derive(Clone, Copy)]
pub struct ShortBStr {
    len: u32,
    content: [u8; 12],
}

impl View for ShortBStr {
    type V = Seq<u8>;

    /// The logical content: the first `len` bytes of the inline buffer.
    closed spec fn view(&self) -> Seq<u8> {
        self.content@.subrange(0, self.len as int)
    }
}

impl ShortBStr {
    /// The length fits the buffer, and the buffer is zero beyond the length.
    #[verifier::type_invariant]
    pub closed spec fn wf(self) -> bool {
        &&& self.len <= SHORT_MAX
        &&& forall|i: int| self.len <= i < SHORT_MAX ==> self.content[i] == 0u8
    }

    /// The first four bytes of the inline buffer.
    pub closed spec fn spec_head(&self) -> Seq<u8> {
        self.content@.subrange(0, 4)
    }

    /// A well-formed value holds at most twelve bytes, and the start of its
    /// buffer is the prefix of its content: the buffer is zero where the
    /// content has ended.
    pub proof fn lemma_wf(self)
        requires
            self.wf(),
        ensures
            self@.len() <= SHORT_MAX,
            self.spec_head() == prefix_of(self@),
    {
        assert(self.spec_head() =~= prefix_of(self@));
    }

    /// Copies `content` into a fresh inline buffer and pads it with zeros.
    pub fn new(content: &[u8]) -> (ret: Self)
        requires
            content@.len() <= SHORT_MAX,
        ensures
            ret.wf(),
            ret@ == content@,
    {
        let n: usize = content.len();
        let mut buf: [u8; 12] = [0u8; 12];
        let mut i: usize = 0;
        while i < n
            invariant
                n == content@.len(),
                n <= 12,
                i <= n,
                forall|j: int| 0 <= j < i ==> buf[j] == content@[j],
                forall|j: int| i <= j < 12 ==> buf[j] == 0u8,
            decreases n - i,
        {
            buf[i] = content[i];
            i += 1;
        }
        let ret = ShortBStr { len: n as u32, content: buf };
        assert(ret@ =~= content@);
        ret
    }

    /// The number of content bytes.
    pub fn len(&self) -> (n: usize)
        ensures
            n == self@.len(),
            n <= SHORT_MAX,
    {
        proof {
            use_type_invariant(self);
        }
        self.len as usize
    }

    /// The four-byte prefix of the content, read from the start of the
    /// inline buffer.
    pub fn head(&self) -> (head: [u8; 4])
        ensures
            head@ == prefix_of(self@),
    {
        proof {
            use_type_invariant(self);
            self.lemma_wf();
        }
        let head: [u8; 4] = [self.content[0], self.content[1], self.content[2], self.content[3]];
        assert(head@ =~= self.spec_head());
        head
    }
}

impl Deref for ShortBStr {
    type Target = [u8];

    /// The content as a slice of the inline buffer.
    fn deref(&self) -> (data: &[u8])
        ensures
            data@ == self@,
    {
        proof {
            use_type_invariant(self);
        }
        let n: usize = self.len as usize;
        &self.content[0..n]
    }
}

} // verus!

use crate::bytes::{prefix_bytes, prefix_of};
use crate::short_str::SHORT_MAX;
use std::ops::Deref;
use vstd::prelude::*;
use vstd::slice::slice_to_vec;

verus! {

/// Copies content into another allocation domain.
///
/// An implementation returns a slice that holds exactly the bytes it was
/// given and that is valid for `'a`.
pub trait StrAllocator<'a> {
    /// Allocates memory and copies `data` into it.
    fn allocate(self, data: &[u8]) -> (ret: &'a [u8])
        ensures
            ret@ == data@,
    ;
}

/// Where the content of a long value lives.
#[derive(Clone, Copy, Debug, PartialEq, Eq, Structural)]
pub enum Class {
    /// In memory of another owner, valid for the lifetime of the value.
    Borrowed,
    /// In memory that lives as long as the process.
    Static,
    /// In a heap buffer that the value owns.
    Owned,
}

/// A reference to the content together with its storage class.
enum Tagged<'a> {
    Borrowed(&'a [u8]),
    Static(&'static [u8]),
    Owned(Vec<u8>),
}

impl<'a> Tagged<'a> {
    spec fn bytes(&self) -> Seq<u8> {
        match self {
            Tagged::Borrowed(data) => data@,
            Tagged::Static(data) => data@,
            Tagged::Owned(data) => data@,
        }
    }

    spec fn class(&self) -> Class {
        match self {
            Tagged::Borrowed(_) => Class::Borrowed,
            Tagged::Static(_) => Class::Static,
            Tagged::Owned(_) => Class::Owned,
        }
    }

    fn as_slice(&self) -> (data: &[u8])
        ensures
            data@ == self.bytes(),
    {
        match self {
            Tagged::Borrowed(data) => data,
            Tagged::Static(data) => data,
            Tagged::Owned(data) => data.as_slice(),
        }
    }
}

/// Content of more than twelve bytes: its length, its four-byte prefix and a
/// reference to the bytes, tagged with their storage class.
pub struct LongBStr<'a> {
    len: u32,
    head: [u8; 4],
    content: Tagged<'a>,
}

impl<'a> View for LongBStr<'a> {
    type V = Seq<u8>;

    /// The logical content: the bytes that the value refers to.
    closed spec fn view(&self) -> Seq<u8> {
        self.content.bytes()
    }
}

impl<'a> LongBStr<'a> {
    /// The length is that of the content and exceeds what is stored inline,
    /// and the prefix is that of the content.
    #[verifier::type_invariant]
    pub closed spec fn wf(self) -> bool {
        &&& self.len == self.content.bytes().len()
        &&& self.len > SHORT_MAX
        &&& self.head@ == prefix_of(self.content.bytes())
    }

    /// The storage class of the content.
    pub closed spec fn class(&self) -> Class {
        self.content.class()
    }

    /// The prefix as the value holds it.
    pub closed spec fn spec_head(&self) -> Seq<u8> {
        self.head@
    }

    /// A well-formed value holds the prefix of its content, and its content
    /// is longer than what is stored inline.
    pub proof fn lemma_wf(self)
        requires
            self.wf(),
        ensures
            self@.len() > SHORT_MAX,
            self@.len() <= u32::MAX,
            self.spec_head() == prefix_of(self@),
    {
    }

    fn new(content: Tagged<'a>) -> (ret: Self)
        requires
            SHORT_MAX < content.bytes().len() <= u32::MAX,
        ensures
            ret.wf(),
            ret@ == content.bytes(),
            ret.class() == content.class(),
    {
        let data = content.as_slice();
        let len: u32 = data.len() as u32;
        let head: [u8; 4] = prefix_bytes(data);
        LongBStr { len, head, content }
    }

    /// The storage class of the content.
    pub fn tag(&self) -> (class: Class)
        ensures
            class == self.class(),
    {
        match &self.content {
            Tagged::Borrowed(_) => Class::Borrowed,
            Tagged::Static(_) => Class::Static,
            Tagged::Owned(_) => Class::Owned,
        }
    }

    /// The content, reached through the reference with its class set aside.
    pub fn ptr(&self) -> (data: &[u8])
        ensures
            data@ == self@,
    {
        self.content.as_slice()
    }

    /// The number of content bytes.
    pub fn len(&self) -> (n: usize)
        ensures
            n == self@.len(),
            SHORT_MAX < n <= u32::MAX,
    {
        proof {
            use_type_invariant(self);
        }
        self.len as usize
    }

    /// The four-byte prefix of the content, read without touching the
    /// content.
    pub fn head(&self) -> (head: [u8; 4])
        ensures
            head@ == prefix_of(self@),
    {
        proof {
            use_type_invariant(self);
        }
        self.head
    }

    /// Refers to content that lives as long as the process.
    pub fn new_static(data: &'static [u8]) -> (ret: Self)
        requires
            SHORT_MAX < data@.len() <= u32::MAX,
        ensures
            ret.wf(),
            ret@ == data@,
            ret.class() == Class::Static,
    {
        Self::new(Tagged::Static(data))
    }

    /// Refers to content of another owner.
    pub fn new_borrowed(data: &'a [u8]) -> (ret: Self)
        requires
            SHORT_MAX < data@.len() <= u32::MAX,
        ensures
            ret.wf(),
            ret@ == data@,
            ret.class() == Class::Borrowed,
    {
        Self::new(Tagged::Borrowed(data))
    }

    /// Copies the content into a heap buffer that the value owns.
    pub fn new_owned(data: &[u8]) -> (ret: Self)
        requires
            SHORT_MAX < data@.len() <= u32::MAX,
        ensures
            ret.wf(),
            ret@ == data@,
            ret.class() == Class::Owned,
    {
        Self::new(Tagged::Owned(slice_to_vec(data)))
    }

    /// What a move into another allocation domain has to copy: the content
    /// of a borrowed value, and nothing of a static or an owned one.
    pub fn copy_source(&self) -> (source: Option<&'a [u8]>)
        ensures
            source is Some <==> self.class() == Class::Borrowed,
            source matches Some(data) ==> data@ == self@,
    {
        match &self.content {
            Tagged::Borrowed(data) => Some(*data),
            Tagged::Static(_) => None,
            Tagged::Owned(_) => None,
        }
    }

    /// Moves the value into another allocation domain, given the copy that
    /// was made of what `copy_source` names. A borrowed value refers to the
    /// copy from now on; a static or an owned value stays as it is, and
    /// `copy` is not looked at.
    pub fn transfer<'b>(self, copy: Option<&'b [u8]>) -> (ret: LongBStr<'b>)
        requires
            self.class() == Class::Borrowed ==> (copy matches Some(data) && data@ == self@),
        ensures
            ret.wf(),
            ret@ == self@,
            ret.class() == self.class(),
    {
        proof {
            use_type_invariant(&self);
        }
        let LongBStr { len, head, content } = self;
        match content {
            Tagged::Borrowed(_) => {
                let data: &'b [u8] = copy.unwrap();
                LongBStr { len, head, content: Tagged::Borrowed(data) }
            },
            Tagged::Static(data) => LongBStr { len, head, content: Tagged::Static(data) },
            Tagged::Owned(data) => LongBStr { len, head, content: Tagged::Owned(data) },
        }
    }

    /// Moves the value into the allocation domain of `dst`. Borrowed content
    /// is copied there by `dst`; static and owned content is valid in every
    /// domain and stays where it is.
    pub fn reallocate_borrowed<'b>(self, dst: impl StrAllocator<'b>) -> (ret: LongBStr<'b>)
        ensures
            ret.wf(),
            ret@ == self@,
            ret.class() == self.class(),
    {
        match self.copy_source() {
            Some(data) => {
                let copy: &'b [u8] = dst.allocate(data);
                self.transfer(Some(copy))
            },
            None => self.transfer(None),
        }
    }
}

impl<'a> Deref for LongBStr<'a> {
    type Target = [u8];

    fn deref(&self) -> (data: &[u8])
        ensures
            data@ == self@,
    {
        self.ptr()
    }
}

impl<'a> Clone for LongBStr<'a> {
    /// A borrowed or static value is copied with its reference; an owned
    /// value gets a heap buffer of its own.
    fn clone(&self) -> (ret: Self)
        ensures
            ret.wf(),
            ret@ == self@,
            ret.class() == self.class(),
    {
        proof {
            use_type_invariant(self);
        }
        let content = match &self.content {
            Tagged::Borrowed(data) => Tagged::Borrowed(*data),
            Tagged::Static(data) => Tagged::Static(*data),
            Tagged::Owned(data) => Tagged::Owned(data.clone()),
        };
        LongBStr { len: self.len, head: self.head, content }
    }
}

} // verus!

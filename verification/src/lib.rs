//! A compact immutable byte string: short content is stored inline, longer
//! content is referenced together with its length, a four-byte prefix and a
//! storage class.

use crate::bytes::{bytes_eq, prefix_of};
use crate::order::{cmp_bytes, lemma_lex_order_antisymmetric, lemma_prefix_order, lex_order};
use crate::text::{bstr_debug, bstr_display, bstr_hash, debug_text, display_text, hashed_state};
use std::cmp::Ordering;
use std::collections::hash_map::DefaultHasher;
use std::ops::Deref;
use vstd::prelude::*;
use vstd::std_specs::cmp::{PartialEqSpec, PartialEqSpecImpl, PartialOrdSpec, PartialOrdSpecImpl};
use vstd::string::StringExecFns;

mod arena;
pub mod bytes;
mod long_str;
pub mod order;
mod short_str;
pub mod text;

pub use long_str::{Class, LongBStr, StrAllocator};
pub use short_str::{ShortBStr, SHORT_MAX};

verus! {

/// An immutable byte string. Content of at most twelve bytes is held inline;
/// longer content is referred to, with its length, its prefix and its
/// storage class at hand.
pub struct GermanBStr<'a>(BStrInner<'a>);

enum BStrInner<'a> {
    Short(ShortBStr),
    Long(LongBStr<'a>),
}

/// What every value has at hand without reaching for its content.
struct BStrHead {
    len: usize,
    head: [u8; 4],
}

impl BStrHead {
    fn same(&self, other: &BStrHead) -> (r: bool)
        ensures
            r == (self.len == other.len && self.head@ == other.head@),
    {
        let r = self.len == other.len && self.head[0] == other.head[0] && self.head[1]
            == other.head[1] && self.head[2] == other.head[2] && self.head[3] == other.head[3];
        assert(r ==> self.head@ =~= other.head@);
        r
    }
}

impl<'a> View for GermanBStr<'a> {
    type V = Seq<u8>;

    /// The logical content.
    closed spec fn view(&self) -> Seq<u8> {
        match self.0 {
            BStrInner::Short(short) => short@,
            BStrInner::Long(long) => long@,
        }
    }
}

/// The name under which a value of the given storage shows when debugged.
pub open spec fn label_text(class: Option<Class>) -> Seq<char> {
    match class {
        None => "Short"@,
        Some(Class::Borrowed) => "Borrowed"@,
        Some(Class::Static) => "Static"@,
        Some(Class::Owned) => "Owned"@,
    }
}

impl<'a> GermanBStr<'a> {
    /// The active representation is well-formed.
    #[verifier::type_invariant]
    pub closed spec fn wf(self) -> bool {
        match self.0 {
            BStrInner::Short(short) => short.wf(),
            BStrInner::Long(long) => long.wf(),
        }
    }

    /// The storage class of the content: `None` where the content is held
    /// inline.
    pub closed spec fn class(&self) -> Option<Class> {
        match self.0 {
            BStrInner::Short(_) => None,
            BStrInner::Long(long) => Some(long.class()),
        }
    }

    /// The length alone decides the representation: a well-formed value is
    /// inline exactly when its content has at most twelve bytes, and its
    /// length fits in 32 bits.
    pub proof fn lemma_wf(self)
        requires
            self.wf(),
        ensures
            self.class() is None <==> self@.len() <= SHORT_MAX,
            self@.len() <= u32::MAX,
    {
        match self.0 {
            BStrInner::Short(short) => short.lemma_wf(),
            BStrInner::Long(long) => long.lemma_wf(),
        }
    }

    /// Whether the content has no bytes.
    pub fn is_empty(&self) -> (r: bool)
        ensures
            r == (self@.len() == 0),
    {
        self.len() == 0
    }

    /// The number of content bytes.
    pub fn len(&self) -> (n: usize)
        ensures
            n == self@.len(),
            self.class() is None <==> n <= SHORT_MAX,
    {
        match &self.0 {
            BStrInner::Short(short) => short.len(),
            BStrInner::Long(long) => long.len(),
        }
    }

    /// The four-byte prefix of the content: its first bytes, and zeros where
    /// it has fewer than four.
    pub fn head_bytes(&self) -> (head: [u8; 4])
        ensures
            head@ == prefix_of(self@),
    {
        match &self.0 {
            BStrInner::Short(short) => short.head(),
            BStrInner::Long(long) => long.head(),
        }
    }

    fn head(&self) -> (head: BStrHead)
        ensures
            head.len == self@.len(),
            head.head@ == prefix_of(self@),
    {
        BStrHead { len: self.len(), head: self.head_bytes() }
    }

    /// A value of content that lives as long as the process.
    pub fn new_static(data: &'static [u8]) -> (ret: Self)
        requires
            data@.len() <= u32::MAX,
        ensures
            ret.wf(),
            ret@ == data@,
            ret.class() == if data@.len() <= SHORT_MAX {
                None
            } else {
                Some(Class::Static)
            },
    {
        if data.len() <= 12 {
            GermanBStr(BStrInner::Short(ShortBStr::new(data)))
        } else {
            GermanBStr(BStrInner::Long(LongBStr::new_static(data)))
        }
    }

    /// A value of content of another owner, valid as long as the content is.
    pub fn new_borrowed(data: &'a [u8]) -> (ret: Self)
        requires
            data@.len() <= u32::MAX,
        ensures
            ret.wf(),
            ret@ == data@,
            ret.class() == if data@.len() <= SHORT_MAX {
                None
            } else {
                Some(Class::Borrowed)
            },
    {
        if data.len() <= 12 {
            GermanBStr(BStrInner::Short(ShortBStr::new(data)))
        } else {
            GermanBStr(BStrInner::Long(LongBStr::new_borrowed(data)))
        }
    }

    /// A value that holds a copy of `data` of its own.
    pub fn new_owned(data: &[u8]) -> (ret: Self)
        requires
            data@.len() <= u32::MAX,
        ensures
            ret.wf(),
            ret@ == data@,
            ret.class() == if data@.len() <= SHORT_MAX {
                None
            } else {
                Some(Class::Owned)
            },
    {
        if data.len() <= 12 {
            GermanBStr(BStrInner::Short(ShortBStr::new(data)))
        } else {
            GermanBStr(BStrInner::Long(LongBStr::new_owned(data)))
        }
    }

    /// The name under which the value shows when debugged: that of its
    /// representation.
    pub fn variant_label(&self) -> (label: &'static str)
        ensures
            label@ == label_text(self.class()),
    {
        match &self.0 {
            BStrInner::Short(_) => "Short",
            BStrInner::Long(long) => match long.tag() {
                Class::Borrowed => "Borrowed",
                Class::Static => "Static",
                Class::Owned => "Owned",
            },
        }
    }

    /// The content as text, as `BStr` displays it.
    pub fn to_string(&self) -> (text: String)
        ensures
            text@ == display_text(self@),
    {
        bstr_display(self.as_ref())
    }

    /// The value as it shows when debugged: the name of its representation,
    /// and in round brackets the content as `BStr` debugs it.
    pub fn debug_string(&self) -> (text: String)
        ensures
            text@ == label_text(self.class()) + "("@ + debug_text(self@) + ")"@,
    {
        let quoted = bstr_debug(self.as_ref());
        let mut text = String::from_str(self.variant_label());
        text.append("(");
        text.append(quoted.as_str());
        text.append(")");
        text
    }

    /// Hashes the content, and nothing but the content, into `state`.
    pub fn hash(&self, state: &mut DefaultHasher)
        ensures
            final(state)@ == hashed_state(old(state)@, self@),
    {
        bstr_hash(self.as_ref(), state)
    }

    /// What a move into another allocation domain has to copy: the content
    /// of a long borrowed value, and nothing of any other.
    pub fn copy_source(&self) -> (source: Option<&'a [u8]>)
        ensures
            source is Some <==> self.class() == Some(Class::Borrowed),
            source matches Some(data) ==> data@ == self@,
    {
        match &self.0 {
            BStrInner::Short(_) => None,
            BStrInner::Long(long) => long.copy_source(),
        }
    }

    /// Moves the value into another allocation domain, given the copy that
    /// was made of what `copy_source` names. A long borrowed value refers to
    /// the copy from now on; any other value stays as it is, and `copy` is
    /// not looked at.
    pub fn transfer<'b>(self, copy: Option<&'b [u8]>) -> (ret: GermanBStr<'b>)
        requires
            self.class() == Some(Class::Borrowed) ==> (copy matches Some(data) && data@ == self@),
        ensures
            ret.wf(),
            ret@ == self@,
            ret.class() == self.class(),
    {
        proof {
            use_type_invariant(&self);
        }
        match self.0 {
            BStrInner::Short(short) => GermanBStr(BStrInner::Short(short)),
            BStrInner::Long(long) => GermanBStr(BStrInner::Long(long.transfer(copy))),
        }
    }

    /// Moves the value into the allocation domain of `dst`. The content of a
    /// long borrowed value is copied there by `dst`; an inline value holds
    /// its bytes itself, and static and owned content is valid in every
    /// domain, so these pass unchanged.
    pub fn reallocate_borrowed<'b>(self, dst: impl StrAllocator<'b>) -> (ret: GermanBStr<'b>)
        ensures
            ret.wf(),
            ret@ == self@,
            ret.class() == self.class(),
    {
        proof {
            use_type_invariant(&self);
        }
        match self.0 {
            BStrInner::Short(short) => GermanBStr(BStrInner::Short(short)),
            BStrInner::Long(long) => GermanBStr(BStrInner::Long(long.reallocate_borrowed(dst))),
        }
    }

    /// Compares the contents lexicographically. The prefixes are compared
    /// first, and the contents only where the prefixes are the same.
    pub fn cmp(&self, other: &Self) -> (o: Ordering)
        ensures
            o == lex_order(self@, other@),
    {
        let mine = self.head_bytes();
        let theirs = other.head_bytes();
        let o = cmp_bytes(mine.as_slice(), theirs.as_slice());
        proof {
            if mine@ != theirs@ {
                lemma_prefix_order(self@, other@);
            }
        }
        match o {
            Ordering::Less => Ordering::Less,
            Ordering::Equal => cmp_bytes(self.as_ref(), other.as_ref()),
            Ordering::Greater => Ordering::Greater,
        }
    }
}

impl<'a> Default for GermanBStr<'a> {
    /// The empty value.
    fn default() -> (ret: Self)
        ensures
            ret.wf(),
            ret@ == Seq::<u8>::empty(),
            ret.class() is None,
    {
        let empty: [u8; 0] = [];
        let ret = GermanBStr(BStrInner::Short(ShortBStr::new(empty.as_slice())));
        assert(ret@ =~= Seq::<u8>::empty());
        ret
    }
}

impl<'a> Deref for GermanBStr<'a> {
    type Target = [u8];

    fn deref(&self) -> (data: &[u8])
        ensures
            data@ == self@,
    {
        self.as_ref()
    }
}

impl<'a> AsRef<[u8]> for GermanBStr<'a> {
    /// The content as a byte slice, taken from the active representation.
    fn as_ref(&self) -> (data: &[u8])
        ensures
            data@ == self@,
    {
        match &self.0 {
            BStrInner::Short(short) => short.deref(),
            BStrInner::Long(long) => long.deref(),
        }
    }
}

impl<'a> Clone for GermanBStr<'a> {
    /// The clone has the content and the storage class of the value. Of
    /// owned content it holds a copy of its own.
    fn clone(&self) -> (ret: Self)
        ensures
            ret.wf(),
            ret@ == self@,
            ret.class() == self.class(),
    {
        proof {
            use_type_invariant(self);
        }
        match &self.0 {
            BStrInner::Short(short) => GermanBStr(BStrInner::Short(*short)),
            BStrInner::Long(long) => GermanBStr(BStrInner::Long(long.clone())),
        }
    }
}

impl<'a> PartialEq for GermanBStr<'a> {
    /// Whether the contents are the same. Lengths and prefixes are compared
    /// first, and the contents only where these are the same.
    fn eq(&self, other: &Self) -> (r: bool) {
        self.head().same(&other.head()) && bytes_eq(self.as_ref(), other.as_ref())
    }
}

impl<'a> PartialEqSpecImpl for GermanBStr<'a> {
    open spec fn obeys_eq_spec() -> bool {
        true
    }

    open spec fn eq_spec(&self, other: &Self) -> bool {
        self@ == other@
    }
}

impl<'a> Eq for GermanBStr<'a> {

}

impl<'a> PartialOrd for GermanBStr<'a> {
    fn partial_cmp(&self, other: &Self) -> (o: Option<Ordering>) {
        Some(self.cmp(other))
    }
}

impl<'a> PartialOrdSpecImpl for GermanBStr<'a> {
    open spec fn obeys_partial_cmp_spec() -> bool {
        true
    }

    open spec fn partial_cmp_spec(&self, other: &Self) -> Option<Ordering> {
        Some(lex_order(self@, other@))
    }
}

impl<'a> GermanBStr<'a> {
    /// Two values are equal exactly when their contents are, whatever the
    /// storage class of either.
    pub proof fn lemma_eq_by_content(self, other: Self)
        ensures
            PartialEqSpec::eq_spec(&self, &other) <==> self@ == other@,
    {
    }

    /// Two values compare as their contents do in lexicographic order, and
    /// they compare `Equal` exactly when they are equal.
    pub proof fn lemma_order_by_content(self, other: Self)
        ensures
            PartialOrdSpec::partial_cmp_spec(&self, &other) == Some(lex_order(self@, other@)),
            PartialOrdSpec::partial_cmp_spec(&self, &other) == Some(Ordering::Equal)
                <==> PartialEqSpec::eq_spec(&self, &other),
    {
        lemma_lex_order_antisymmetric(self@, other@);
    }

    /// Equal values leave a hasher in the same state.
    pub proof fn lemma_hash_by_content(self, other: Self, before: Seq<Seq<u8>>)
        requires
            PartialEqSpec::eq_spec(&self, &other),
        ensures
            hashed_state(before, self@) == hashed_state(before, other@),
    {
    }
}

} // verus!

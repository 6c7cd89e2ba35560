//! A value that is either owned, borrowed for reading, borrowed for writing,
//! or absent.

use vstd::prelude::*;

verus! {

/// Access to a `T`: a mutable borrow, a shared borrow, an owned value, or
/// nothing at all.
pub enum Viewer<'a, T> {
    Writer(&'a mut T),
    Reader(&'a T),
    Owner(T),
    Empty,
}

impl<'a, T> Viewer<'a, T> {
    /// The value this viewer gives access to, if any.
    pub open spec fn content(&self) -> Option<T> {
        match self {
            Viewer::Writer(s) => Some(**s),
            Viewer::Reader(s) => Some(**s),
            Viewer::Owner(s) => Some(*s),
            Viewer::Empty => Option::None,
        }
    }

    /// Read access to the value, for every viewer but `Empty`.
    pub fn inner(&self) -> (r: Option<&T>)
        ensures
            r is Some <==> self.content() is Some,
            r is Some ==> *r->0 == self.content()->0,
    {
        match self {
            Viewer::Writer(s) => Some(&**s),
            Viewer::Reader(s) => Some(*s),
            Viewer::Owner(s) => Some(s),
            Viewer::Empty => Option::None,
        }
    }

    /// Write access to the value, for an owner or a writer.
    pub fn inner_mut(&mut self) -> (r: Option<&mut T>)
        ensures
            r is Some <==> ((*old(self)) is Writer || (*old(self)) is Owner),
            r is Some ==> *r->0 == old(self).content()->0,
            r is Some ==> final(self).content() == Some(*final(r->0)),
            r is None ==> final(self).content() == old(self).content(),
            (*final(self)) is Writer <==> (*old(self)) is Writer,
            (*final(self)) is Owner <==> (*old(self)) is Owner,
            (*final(self)) is Reader <==> (*old(self)) is Reader,
    {
        match self {
            Viewer::Reader(_) => Option::None,
            Viewer::Writer(s) => Some(&mut **s),
            Viewer::Owner(s) => Some(s),
            Viewer::Empty => Option::None,
        }
    }

    /// A reader of the value, or `Empty` where there is none.
    pub fn view<'n>(&'n self) -> (r: Viewer<'n, T>)
        where 'a: 'n
        ensures
            r.content() == self.content(),
            r is Reader <==> self.content() is Some,
            r is Empty <==> self.content() is None,
    {
        match self.inner() {
            Option::None => Viewer::Empty,
            Some(m) => Viewer::Reader(m),
        }
    }

    /// A writer of the value, for an owner or a writer; `Empty` otherwise.
    pub fn writer<'n>(&'n mut self) -> (r: Viewer<'n, T>)
        where 'a: 'n
        ensures
            r is Writer <==> ((*old(self)) is Writer || (*old(self)) is Owner),
            r is Empty <==> !((*old(self)) is Writer || (*old(self)) is Owner),
            r is Writer ==> r.content() == old(self).content(),
    {
        match self.inner_mut() {
            Option::None => Viewer::Empty,
            Some(s) => Viewer::Writer(s),
        }
    }

    pub fn is_none(&self) -> (r: bool)
        ensures
            r == self is Empty,
    {
        match self {
            Viewer::Empty => true,
            _ => false,
        }
    }

    pub fn is_owner(&self) -> (r: bool)
        ensures
            r == self is Owner,
    {
        match self {
            Viewer::Owner(_) => true,
            _ => false,
        }
    }

    pub fn is_reader(&self) -> (r: bool)
        ensures
            r == self is Reader,
    {
        match self {
            Viewer::Reader(_) => true,
            _ => false,
        }
    }
}

impl<'a, T> From<T> for Viewer<'a, T> {
    /// An owner of `other`.
    fn from(other: T) -> (r: Viewer<'a, T>) {
        Viewer::Owner(other)
    }
}

impl<'a, T> vstd::std_specs::convert::FromSpecImpl<T> for Viewer<'a, T> {
    open spec fn obeys_from_spec() -> bool {
        true
    }

    open spec fn from_spec(v: T) -> Viewer<'a, T> {
        Viewer::Owner(v)
    }
}

impl<'a, 'b: 'a, T> From<&'b Viewer<'a, T>> for Viewer<'a, T> {
    /// A reader of what `other` gives access to, or `Empty`.
    fn from(other: &'b Viewer<'a, T>) -> (r: Viewer<'a, T>) {
        other.view()
    }
}

impl<'a, 'b: 'a, T> vstd::std_specs::convert::FromSpecImpl<&'b Viewer<'a, T>> for Viewer<'a, T> {
    open spec fn obeys_from_spec() -> bool {
        true
    }

    open spec fn from_spec(v: &'b Viewer<'a, T>) -> Viewer<'a, T> {
        match v.content() {
            Some(x) => Viewer::Reader(&x),
            Option::None => Viewer::Empty,
        }
    }
}

impl<'a, T> core::ops::Index<usize> for Viewer<'a, Vec<T>> {
    type Output = T;

    /// The element at `index` of the vector this viewer gives access to.
    fn index(&self, index: usize) -> (r: &T) {
        let v = self.inner().unwrap();
        &v[index]
    }
}

impl<'a, T> vstd::std_specs::core::IndexSpecImpl<usize> for Viewer<'a, Vec<T>> {
    open spec fn index_req(&self, index: &usize) -> bool {
        self.content() is Some && *index < self.content()->0.len()
    }
}

} // verus!

//! The list of port handles that a cell or a group owns.

use vstd::prelude::*;

verus! {

/// An ordered list of port handles, kept in a `smallvec::SmallVec` with room
/// for ten handles before it spills to the heap.
#[verifier::external_body]
#[derive(Debug)]
pub struct PortList {
    inner: smallvec::SmallVec<[usize; 10]>,
}

/// The handles in the list, in order.
pub uninterp spec fn port_list_view(list: PortList) -> Seq<usize>;

/// `SmallVec::from_vec`: the list holds what the vector held, in the same
/// order.
#[verifier::external_body]
pub(crate) fn port_list_from_vec(handles: Vec<usize>) -> (list: PortList)
    ensures
        port_list_view(list) == handles@,
{
    PortList { inner: smallvec::SmallVec::from_vec(handles) }
}

/// `SmallVec::as_slice`: the list's handles as a slice.
#[verifier::external_body]
pub(crate) fn port_list_as_slice(list: &PortList) -> (handles: &[usize])
    ensures
        handles@ == port_list_view(*list),
{
    list.inner.as_slice()
}

impl View for PortList {
    type V = Seq<usize>;

    open spec fn view(&self) -> Seq<usize> {
        port_list_view(*self)
    }
}

impl PortList {
    /// An empty list.
    pub fn new() -> (list: PortList)
        ensures
            list@ == Seq::<usize>::empty(),
    {
        port_list_from_vec(Vec::new())
    }

    /// The list that holds `handles`, in order.
    pub fn from_vec(handles: Vec<usize>) -> (list: PortList)
        ensures
            list@ == handles@,
    {
        port_list_from_vec(handles)
    }

    /// The handles as a slice.
    pub fn as_slice(&self) -> (handles: &[usize])
        ensures
            handles@ == self@,
    {
        port_list_as_slice(self)
    }

    /// How many handles the list holds.
    pub fn len(&self) -> (n: usize)
        ensures
            n == self@.len(),
    {
        port_list_as_slice(self).len()
    }

    /// The handle at position `index`.
    pub fn get(&self, index: usize) -> (handle: usize)
        requires
            index < self@.len(),
        ensures
            handle == self@[index as int],
    {
        port_list_as_slice(self)[index]
    }

    /// The handles as a vector, in order.
    pub fn to_vec(&self) -> (handles: Vec<usize>)
        ensures
            handles@ == self@,
    {
        let slice = port_list_as_slice(self);
        let mut handles: Vec<usize> = Vec::new();
        let mut i: usize = 0;
        while i < slice.len()
            invariant
                i <= slice@.len(),
                slice@ == self@,
                handles@ == self@.take(i as int),
            decreases slice@.len() - i,
        {
            handles.push(slice[i]);
            assert(self@.take(i as int + 1) == self@.take(i as int).push(self@[i as int]));
            i = i + 1;
        }
        assert(self@.take(self@.len() as int) == self@);
        handles
    }
}

} // verus!

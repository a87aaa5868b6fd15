//! Containers hold a flat buffer of elements and give access to it.
use crate::types::IndexType;
use vstd::prelude::*;

verus! {

/// Read access to a flat buffer of elements.
pub trait DataContainer {
    /// The element type.
    type Item: Copy;

    /// The elements of the buffer, in order.
    spec fn spec_data(&self) -> Seq<Self::Item>;

    /// The element at `index`; the caller shows that `index` is in range.
    fn get_unchecked(&self, index: IndexType) -> (r: Self::Item)
        requires
            index < self.spec_data().len(),
        ensures
            r == self.spec_data()[index as int],
    ;

    /// The whole buffer.
    fn get_pointer(&self) -> (r: &[Self::Item])
        ensures
            r@ == self.spec_data(),
    ;

    /// The elements at `first..last`.
    fn get_slice(&self, first: IndexType, last: IndexType) -> (r: &[Self::Item])
        requires
            first <= last <= self.spec_data().len(),
        ensures
            r@ == self.spec_data().subrange(first as int, last as int),
    ;

    /// The number of elements in the buffer.
    fn number_of_elements(&self) -> (r: IndexType)
        ensures
            r == self.spec_data().len(),
    ;
}

/// Write access to a flat buffer of elements.
pub trait DataContainerMut: DataContainer {
    /// A mutable reference to the element at `index`; the caller shows that `index`
    /// is in range. Writing through it changes that element and no other.
    fn get_unchecked_mut(&mut self, index: IndexType) -> (r: &mut Self::Item)
        requires
            index < old(self).spec_data().len(),
        ensures
            *r == old(self).spec_data()[index as int],
            final(self).spec_data() == old(self).spec_data().update(index as int, *final(r)),
    ;

    /// The whole buffer, mutably.
    fn get_pointer_mut(&mut self) -> (r: &mut [Self::Item])
        ensures
            r@ == old(self).spec_data(),
            final(self).spec_data() == final(r)@,
    ;

    /// The elements at `first..last`, mutably; the rest of the buffer stays as it is.
    fn get_slice_mut(&mut self, first: IndexType, last: IndexType) -> (r: &mut [Self::Item])
        requires
            first <= last <= old(self).spec_data().len(),
        ensures
            r@ == old(self).spec_data().subrange(first as int, last as int),
            final(self).spec_data() == old(self).spec_data().subrange(0, first as int) + final(r)@
                + old(self).spec_data().subrange(last as int, old(self).spec_data().len() as int),
    ;
}

/// The element at `index` of a mutable slice, as a mutable reference.
pub(crate) fn slice_element_mut<T>(slice: &mut [T], index: usize) -> (r: &mut T)
    requires
        index < old(slice)@.len(),
    ensures
        *r == old(slice)@[index as int],
        final(slice)@ == old(slice)@.update(index as int, *final(r)),
{
    let (head, tail) = slice.split_at_mut(index);
    tail.first_mut().unwrap()
}

/// The elements at `first..last` of a mutable slice, as a mutable slice.
fn subslice_mut<T>(slice: &mut [T], first: usize, last: usize) -> (r: &mut [T])
    requires
        first <= last <= old(slice)@.len(),
    ensures
        r@ == old(slice)@.subrange(first as int, last as int),
        final(slice)@ == old(slice)@.subrange(0, first as int) + final(r)@ + old(slice)@.subrange(
            last as int,
            old(slice)@.len() as int,
        ),
{
    let (front, back) = slice.split_at_mut(last);
    let (head, middle) = front.split_at_mut(first);
    middle
}

/// A container that owns its elements in a vector.
pub struct VectorContainer<Item> {
    data: Vec<Item>,
}

/// A container that borrows its elements from a slice.
pub struct SliceContainer<'a, Item> {
    data: &'a [Item],
}

/// A container that borrows its elements mutably from a slice.
pub struct SliceContainerMut<'a, Item> {
    /// The borrowed slice.
    pub data: &'a mut [Item],
}

impl<Item: Copy + Default> VectorContainer<Item> {
    /// A container of `nelems` elements, each the default value of the element type
    /// (zero for numbers).
    pub fn new(nelems: IndexType) -> (r: VectorContainer<Item>)
        ensures
            r.spec_data().len() == nelems,
            forall|i: int|
                0 <= i < nelems ==> call_ensures(Item::default, (), #[trigger] r.spec_data()[i]),
    {
        let mut data: Vec<Item> = Vec::with_capacity(nelems);
        let mut i: usize = 0;
        while i < nelems
            invariant
                i <= nelems,
                data@.len() == i,
                forall|j: int| 0 <= j < i ==> call_ensures(Item::default, (), #[trigger] data@[j]),
            decreases nelems - i,
        {
            data.push(Item::default());
            i = i + 1;
        }
        VectorContainer { data }
    }
}

impl<Item: Copy> VectorContainer<Item> {
    /// A container that takes ownership of `data`.
    pub fn from_vec(data: Vec<Item>) -> (r: VectorContainer<Item>)
        ensures
            r.spec_data() == data@,
    {
        VectorContainer { data }
    }
}

impl<'a, Item: Copy> SliceContainer<'a, Item> {
    /// A container over the elements of `slice`.
    pub fn new(slice: &'a [Item]) -> (r: SliceContainer<'a, Item>)
        ensures
            r.spec_data() == slice@,
    {
        SliceContainer { data: slice }
    }
}

impl<'a, Item: Copy> SliceContainerMut<'a, Item> {
    /// A container over the elements of `slice`, mutably.
    pub fn new(slice: &'a mut [Item]) -> (r: SliceContainerMut<'a, Item>)
        ensures
            r.spec_data() == old(slice)@,
            final(r.data)@ == final(slice)@,
    {
        SliceContainerMut { data: slice }
    }

    /// A mutable reference to the element at `index`, through the same borrow.
    pub fn element_mut(&mut self, index: IndexType) -> (r: &mut Item)
        requires
            index < old(self).data@.len(),
        ensures
            *r == old(self).data@[index as int],
            final(self).data@ == old(self).data@.update(index as int, *final(r)),
            final(final(self).data)@ == final(old(self).data)@,
    {
        slice_element_mut(self.data, index)
    }
}

impl<Item: Copy> DataContainer for VectorContainer<Item> {
    type Item = Item;

    closed spec fn spec_data(&self) -> Seq<Item> {
        self.data@
    }

    fn get_unchecked(&self, index: IndexType) -> (r: Item) {
        self.data[index]
    }

    fn get_pointer(&self) -> (r: &[Item]) {
        self.data.as_slice()
    }

    fn get_slice(&self, first: IndexType, last: IndexType) -> (r: &[Item]) {
        vstd::slice::slice_subrange(self.data.as_slice(), first, last)
    }

    fn number_of_elements(&self) -> (r: IndexType) {
        self.data.len()
    }
}

impl<Item: Copy> DataContainerMut for VectorContainer<Item> {
    fn get_unchecked_mut(&mut self, index: IndexType) -> (r: &mut Item) {
        &mut self.data[index]
    }

    fn get_pointer_mut(&mut self) -> (r: &mut [Item]) {
        self.data.as_mut_slice()
    }

    fn get_slice_mut(&mut self, first: IndexType, last: IndexType) -> (r: &mut [Item]) {
        subslice_mut(self.data.as_mut_slice(), first, last)
    }
}

impl<'a, Item: Copy> DataContainer for SliceContainer<'a, Item> {
    type Item = Item;

    closed spec fn spec_data(&self) -> Seq<Item> {
        self.data@
    }

    fn get_unchecked(&self, index: IndexType) -> (r: Item) {
        self.data[index]
    }

    fn get_pointer(&self) -> (r: &[Item]) {
        self.data
    }

    fn get_slice(&self, first: IndexType, last: IndexType) -> (r: &[Item]) {
        vstd::slice::slice_subrange(self.data, first, last)
    }

    fn number_of_elements(&self) -> (r: IndexType) {
        self.data.len()
    }
}

impl<'a, Item: Copy> DataContainer for SliceContainerMut<'a, Item> {
    type Item = Item;

    open spec fn spec_data(&self) -> Seq<Item> {
        self.data@
    }

    fn get_unchecked(&self, index: IndexType) -> (r: Item) {
        self.data[index]
    }

    fn get_pointer(&self) -> (r: &[Item]) {
        self.data
    }

    fn get_slice(&self, first: IndexType, last: IndexType) -> (r: &[Item]) {
        vstd::slice::slice_subrange(self.data, first, last)
    }

    fn number_of_elements(&self) -> (r: IndexType) {
        self.data.len()
    }
}

impl<'a, Item: Copy> DataContainerMut for SliceContainerMut<'a, Item> {
    fn get_unchecked_mut(&mut self, index: IndexType) -> (r: &mut Item) {
        slice_element_mut(self.data, index)
    }

    fn get_pointer_mut(&mut self) -> (r: &mut [Item]) {
        self.data
    }

    fn get_slice_mut(&mut self, first: IndexType, last: IndexType) -> (r: &mut [Item]) {
        subslice_mut(self.data, first, last)
    }
}

} // verus!

use vstd::prelude::*;

verus! {

/// The full list of addresses that a trace touched, in order.
pub struct ListSerializable {
    accesses: Vec<usize>,
}

impl View for ListSerializable {
    type V = Seq<usize>;

    closed spec fn view(&self) -> Seq<usize> {
        self.accesses@
    }
}

impl ListSerializable {
    pub fn new() -> (r: ListSerializable)
        ensures
            r@ == Seq::<usize>::empty(),
    {
        ListSerializable { accesses: Vec::new() }
    }

    /// Appends `value` to the list.
    pub fn add(&mut self, value: usize)
        ensures
            final(self)@ == old(self)@.push(value),
    {
        self.accesses.push(value);
    }

    /// The addresses recorded, in order.
    pub fn get_vec(&self) -> (r: &Vec<usize>)
        ensures
            r@ == self@,
    {
        &self.accesses
    }
}

} // verus!

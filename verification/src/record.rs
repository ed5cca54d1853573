//! One membership-card entry: a fixed-arity tuple of string fields, one per
//! column.

use vstd::prelude::*;
use crate::column::SIZE;

verus! {

/// A single row of the store. A well-formed record holds exactly `SIZE`
/// fields; every constructor of this crate establishes that.
pub struct Record {
    pub fields: Vec<String>,
}

impl View for Record {
    type V = Seq<Seq<char>>;

    open spec fn view(&self) -> Seq<Seq<char>> {
        Seq::new(self.fields@.len(), |i: int| self.fields@[i]@)
    }
}

/// The contents of a freshly constructed record: `SIZE` empty fields.
pub open spec fn empty_record() -> Seq<Seq<char>> {
    Seq::new(SIZE as nat, |i: int| Seq::<char>::empty())
}

impl Record {
    /// A record is well-formed when it holds one field per column.
    pub open spec fn wf(&self) -> bool {
        self.fields@.len() == SIZE
    }

    /// Creates a record with every field empty.
    pub fn new() -> (r: Record)
        ensures
            r.wf(),
            r@ == empty_record(),
    {
        let mut fields: Vec<String> = Vec::new();
        fields.push(String::new());
        fields.push(String::new());
        fields.push(String::new());
        fields.push(String::new());
        fields.push(String::new());
        fields.push(String::new());
        let r = Record { fields };
        proof {
            assert(r@ =~= empty_record());
        }
        r
    }
}

} // verus!

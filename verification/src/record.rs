use vstd::prelude::*;

verus! {

/// The mathematical value of a [`Record`]: the id (when one has been
/// assigned) and the two text fields as character sequences.
pub ghost struct RecordView {
    pub id: Option<int>,
    pub name: Seq<char>,
    pub phone: Seq<char>,
}

/// One phonebook entry.  `id` is `None` before the store has assigned
/// a key and `Some` of the server-assigned key afterwards; `name` and
/// `phone` are free-form text.
pub struct Record {
    pub id: Option<i32>,
    pub name: String,
    pub phone: String,
}

impl View for Record {
    type V = RecordView;

    open spec fn view(&self) -> RecordView {
        RecordView {
            id: match self.id {
                Some(i) => Some(i as int),
                None => None,
            },
            name: self.name@,
            phone: self.phone@,
        }
    }
}

impl Record {
    /// An explicit copy with a contract (a derived `Clone` would say
    /// nothing to the verifier).
    pub fn duplicate(&self) -> (r: Record)
        ensures
            r@ == self@,
    {
        Record { id: self.id, name: self.name.clone(), phone: self.phone.clone() }
    }
}

} // verus!

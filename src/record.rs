use vstd::prelude::*;

verus! {

/// Number of fields in every record.
pub const REC_SIZE: usize = 6;

/// Field delimiter of the tables read and written: the ASCII semicolon.
pub const DELIMITER: u8 = 0x3b;

/// The fields of one record, as character sequences.
pub open spec fn fields_view(fields: Seq<String>) -> Seq<Seq<char>> {
    fields.map_values(|s: String| s@)
}

/// The records of a dataset, each as its sequence of fields.
pub open spec fn dataset_view(dataset: Seq<Record>) -> Seq<Seq<Seq<char>>> {
    dataset.map_values(|r: Record| r@)
}

/// One row of an expense table: date, description, category, amount,
/// status and additional information, in that order.
#[derive(Debug, PartialEq, Eq)]
pub struct Record {
    fields: Vec<String>,
}

impl View for Record {
    type V = Seq<Seq<char>>;

    closed spec fn view(&self) -> Seq<Seq<char>> {
        fields_view(self.fields@)
    }
}

impl Record {
    #[verifier::type_invariant]
    spec fn has_record_width(self) -> bool {
        self.fields@.len() == REC_SIZE
    }

    /// A record of the given fields, or `None` when their number is not
    /// `REC_SIZE`.
    pub fn new(fields: Vec<String>) -> (r: Option<Record>)
        ensures
            fields@.len() == REC_SIZE <==> r is Some,
            r matches Some(rec) ==> rec@ == fields_view(fields@),
    {
        if fields.len() == REC_SIZE {
            Some(Record { fields })
        } else {
            None
        }
    }

    /// The fields of the record, in order.
    pub fn fields(&self) -> (r: &Vec<String>)
        ensures
            fields_view(r@) == self@,
            r@.len() == REC_SIZE,
    {
        proof {
            use_type_invariant(self);
        }
        &self.fields
    }
}

} // verus!

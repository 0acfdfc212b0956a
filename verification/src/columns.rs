//! The columns that are read of a batch.

use vstd::prelude::*;

use crate::schema::{DataType, TypeModel};

verus! {

/// The columns that a visitor reads: dotted paths and types.
#[derive(Debug)]
pub struct SelectedColumns {
    pub names: Vec<String>,
    pub types: Vec<DataType>,
}

impl View for SelectedColumns {
    type V = Seq<(Seq<char>, TypeModel)>;

    open spec fn view(&self) -> Seq<(Seq<char>, TypeModel)> {
        Seq::new(self.names@.len(), |i: int| (self.names@[i]@, self.types@[i]@))
    }
}

impl SelectedColumns {
    /// The names and the types agree in number.
    pub open spec fn wf(&self) -> bool {
        self.names@.len() == self.types@.len()
    }

    /// No columns.
    pub fn new() -> (columns: Self)
        ensures
            columns.wf(),
            columns@ == Seq::<(Seq<char>, TypeModel)>::empty(),
    {
        SelectedColumns { names: Vec::new(), types: Vec::new() }
    }

    /// The columns with one more at the end.
    pub fn with(self, name: &str, data_type: DataType) -> (columns: Self)
        requires
            self.wf(),
        ensures
            columns.wf(),
            columns@ == self@.push((name@, data_type@)),
    {
        let mut names = self.names;
        let mut types = self.types;
        names.push(name.to_owned());
        types.push(data_type);
        let columns = SelectedColumns { names, types };
        assert(columns@ =~= self@.push((name@, data_type@)));
        columns
    }
}

} // verus!

//! The description of a column.
use vstd::prelude::*;

use crate::basic::{column_order, get_sort_order, ConvertedType, LogicalType, SortOrder, Type};

verus! {

/// What the schema says of a column.
#[derive(Debug)]
pub struct ColumnDescriptor {
    /// The names that lead from the root of the schema to the column, joined by dots.
    pub path: String,
    /// The last of these names.
    pub name: String,
    pub physical_type: Type,
    pub logical_type: Option<LogicalType>,
    pub converted_type: ConvertedType,
    /// How many optional or repeated names the path has.
    pub max_def_level: i16,
    /// How many repeated names the path has.
    pub max_rep_level: i16,
}

impl ColumnDescriptor {
    /// Levels count names, so none is negative.
    pub open spec fn wf(&self) -> bool {
        0 <= self.max_def_level && 0 <= self.max_rep_level
    }

    /// The order of the values of the column.
    pub open spec fn order(&self) -> SortOrder {
        column_order(self.logical_type, self.converted_type, self.physical_type)
    }

    /// The order of the values of the column.
    pub fn sort_order(&self) -> (order: SortOrder)
        ensures
            order == self.order(),
            order == column_order(self.logical_type, self.converted_type, self.physical_type),
    {
        get_sort_order(self.logical_type, self.converted_type, self.physical_type)
    }
}

impl Clone for ColumnDescriptor {
    fn clone(&self) -> (copy: Self)
        ensures
            copy == *self,
    {
        ColumnDescriptor {
            path: self.path.clone(),
            name: self.name.clone(),
            physical_type: self.physical_type,
            logical_type: self.logical_type,
            converted_type: self.converted_type,
            max_def_level: self.max_def_level,
            max_rep_level: self.max_rep_level,
        }
    }
}

/// The order of a column goes by its logical type, its converted type and how it is stored.
pub proof fn columns_are_ordered_by_their_types(descr: &ColumnDescriptor)
    ensures
        descr.order() == column_order(
            descr.logical_type,
            descr.converted_type,
            descr.physical_type,
        ),
        descr.wf() <==> descr.max_def_level >= 0 && descr.max_rep_level >= 0,
{
}

} // verus!

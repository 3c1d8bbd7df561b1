//! How the columns of a file are to be written.
use vstd::prelude::*;

use crate::basic::{Compression, EnabledStatistics};

verus! {

/// What a bloom filter is to be made for.
#[derive(Clone, Copy, Debug, PartialEq, Eq, Structural)]
pub struct BloomFilterProperties {
    /// The bits of the accepted probability of a false positive, a double precision value.
    pub fpp_bits: u64,
    /// The number of distinct values.
    pub ndv: u64,
    /// The number of bits that a filter for `ndv` values needs to reach that probability.
    pub num_bits: u64,
}

/// How one column is to be written. What is missing is as for the other columns.
#[derive(Clone, Copy, Debug, PartialEq, Eq, Structural)]
pub struct ColumnProperties {
    pub compression: Option<Compression>,
    pub statistics_enabled: Option<EnabledStatistics>,
    pub bloom_filter_properties: Option<BloomFilterProperties>,
}

/// The properties of one column, under its path.
#[derive(Debug)]
pub struct NamedColumnProperties {
    pub path: String,
    pub properties: ColumnProperties,
}

/// How the columns of a file are to be written.
#[derive(Debug)]
pub struct WriterProperties {
    /// The greatest length of a bound in the statistics.
    pub statistics_truncate_length: Option<usize>,
    pub default_column_properties: ColumnProperties,
    pub column_properties: Vec<NamedColumnProperties>,
}

/// The properties under `path` among the first `n`, where there are some.
pub open spec fn find_properties(all: Seq<NamedColumnProperties>, path: Seq<char>, n: nat) -> Option<
    ColumnProperties,
>
    decreases n,
{
    if n == 0 || n > all.len() {
        None
    } else {
        match find_properties(all, path, (n - 1) as nat) {
            Some(found) => Some(found),
            None => if all[n - 1].path@ == path {
                Some(all[n - 1].properties)
            } else {
                None
            },
        }
    }
}

/// `own`, or else what holds for the other columns.
pub open spec fn or_default<P>(own: Option<P>, default: Option<P>) -> Option<P> {
    if own is Some {
        own
    } else {
        default
    }
}

impl WriterProperties {
    /// What is said of the column under `path` alone.
    pub open spec fn own(&self, path: Seq<char>) -> ColumnProperties {
        match find_properties(self.column_properties@, path, self.column_properties@.len()) {
            Some(p) => p,
            None => ColumnProperties {
                compression: None,
                statistics_enabled: None,
                bloom_filter_properties: None,
            },
        }
    }

    /// The codec of the column: none is used where nothing is said.
    pub open spec fn column_compression(&self, path: Seq<char>) -> Compression {
        or_default(self.own(path).compression, self.default_column_properties.compression).unwrap_or(
            Compression::UNCOMPRESSED,
        )
    }

    /// The statistics of the column: those of pages where nothing is said.
    pub open spec fn column_statistics(&self, path: Seq<char>) -> EnabledStatistics {
        or_default(
            self.own(path).statistics_enabled,
            self.default_column_properties.statistics_enabled,
        ).unwrap_or(EnabledStatistics::Page)
    }

    /// The bloom filter of the column, where it is to have one.
    pub open spec fn column_bloom_filter(&self, path: Seq<char>) -> Option<BloomFilterProperties> {
        or_default(
            self.own(path).bloom_filter_properties,
            self.default_column_properties.bloom_filter_properties,
        )
    }

    /// What is said of the column under `path` alone.
    fn find(&self, path: &String) -> (p: ColumnProperties)
        ensures
            p == self.own(path@),
    {
        let mut i: usize = 0;
        while i < self.column_properties.len()
            invariant
                i <= self.column_properties@.len(),
                find_properties(self.column_properties@, path@, i as nat) is None,
            decreases self.column_properties@.len() - i,
        {
            let entry = &self.column_properties[i];
            if entry.path.eq(path) {
                proof {
                    lemma_first_found(self.column_properties@, path@, i as nat);
                }
                return entry.properties;
            }
            i = i + 1;
        }
        ColumnProperties {
            compression: None,
            statistics_enabled: None,
            bloom_filter_properties: None,
        }
    }

    /// The codec of the column.
    pub fn compression(&self, path: &String) -> (c: Compression)
        ensures
            c == self.column_compression(path@),
    {
        match self.find(path).compression {
            Some(c) => c,
            None => match self.default_column_properties.compression {
                Some(c) => c,
                None => Compression::UNCOMPRESSED,
            },
        }
    }

    /// The statistics of the column.
    pub fn statistics_enabled(&self, path: &String) -> (s: EnabledStatistics)
        ensures
            s == self.column_statistics(path@),
    {
        match self.find(path).statistics_enabled {
            Some(s) => s,
            None => match self.default_column_properties.statistics_enabled {
                Some(s) => s,
                None => EnabledStatistics::Page,
            },
        }
    }

    /// The bloom filter of the column, where it is to have one.
    pub fn bloom_filter_properties(&self, path: &String) -> (b: Option<BloomFilterProperties>)
        ensures
            b == self.column_bloom_filter(path@),
    {
        match self.find(path).bloom_filter_properties {
            Some(b) => Some(b),
            None => self.default_column_properties.bloom_filter_properties,
        }
    }
}

proof fn lemma_first_found(all: Seq<NamedColumnProperties>, path: Seq<char>, i: nat)
    requires
        i < all.len(),
        find_properties(all, path, i) is None,
        all[i as int].path@ == path,
    ensures
        find_properties(all, path, all.len()) == Some(all[i as int].properties),
{
    lemma_found_stays(all, path, i + 1, all.len());
}

proof fn lemma_found_stays(all: Seq<NamedColumnProperties>, path: Seq<char>, m: nat, n: nat)
    requires
        m <= n <= all.len(),
        find_properties(all, path, m) is Some,
    ensures
        find_properties(all, path, n) == find_properties(all, path, m),
    decreases n,
{
    if m < n {
        lemma_found_stays(all, path, m, (n - 1) as nat);
    }
}

proof fn lemma_not_found(all: Seq<NamedColumnProperties>, path: Seq<char>, n: nat)
    requires
        n <= all.len(),
        forall|i: int| 0 <= i < n ==> (#[trigger] all[i]).path@ != path,
    ensures
        find_properties(all, path, n) is None,
    decreases n,
{
    if n > 0 {
        lemma_not_found(all, path, (n - 1) as nat);
    }
}

/// What is said of a column is what stands under its path, in the first place where something does.
/// It goes before what is said of all columns, and where neither says anything, pages are not
/// compressed, have statistics, and have no bloom filter.
pub proof fn columns_go_before_defaults(props: &WriterProperties, path: Seq<char>, i: int)
    requires
        0 <= i < props.column_properties@.len(),
        props.column_properties@[i].path@ == path,
        forall|j: int| 0 <= j < i ==> (#[trigger] props.column_properties@[j]).path@ != path,
    ensures
        ({
            let own = props.column_properties@[i].properties;
            let all = props.default_column_properties;
            &&& own.compression matches Some(c) ==> props.column_compression(path) == c
            &&& own.compression is None && all.compression is Some ==> props.column_compression(path)
                == all.compression->0
            &&& own.compression is None && all.compression is None ==> props.column_compression(path)
                == Compression::UNCOMPRESSED
            &&& own.statistics_enabled matches Some(s) ==> props.column_statistics(path) == s
            &&& own.statistics_enabled is None && all.statistics_enabled is Some
                ==> props.column_statistics(path) == all.statistics_enabled->0
            &&& own.statistics_enabled is None && all.statistics_enabled is None
                ==> props.column_statistics(path) == EnabledStatistics::Page
            &&& own.bloom_filter_properties is Some ==> props.column_bloom_filter(path)
                == own.bloom_filter_properties
            &&& own.bloom_filter_properties is None ==> props.column_bloom_filter(path)
                == all.bloom_filter_properties
        }),
{
    lemma_not_found(props.column_properties@, path, i as nat);
    lemma_first_found(props.column_properties@, path, i as nat);
}

/// A column of which nothing is said is written as all columns are.
pub proof fn other_columns_follow_defaults(props: &WriterProperties, path: Seq<char>)
    requires
        forall|j: int|
            0 <= j < props.column_properties@.len() ==> (
            #[trigger] props.column_properties@[j]).path@ != path,
    ensures
        ({
            let all = props.default_column_properties;
            &&& all.compression matches Some(c) ==> props.column_compression(path) == c
            &&& all.compression is None ==> props.column_compression(path)
                == Compression::UNCOMPRESSED
            &&& all.statistics_enabled matches Some(s) ==> props.column_statistics(path) == s
            &&& all.statistics_enabled is None ==> props.column_statistics(path)
                == EnabledStatistics::Page
            &&& props.column_bloom_filter(path) == all.bloom_filter_properties
        }),
{
    lemma_not_found(props.column_properties@, path, props.column_properties@.len());
}

} // verus!

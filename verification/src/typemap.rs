//! The type-compatibility policy: source column types to target
//! column types.

use vstd::prelude::*;
use vstd::string::StrSliceExecFns;
use vstd::string::StringExecFns;

use crate::error::MigrationError;
use crate::schema::Column;

verus! {

/// What to do with a column whose source type has no mapping.
#[derive(Debug, Clone, Copy, PartialEq, Eq)]
pub enum TypePolicy {
    /// Treat the table as failed.
    AbortTable,
    /// Fall back to a plain text representation.
    FallbackToText,
}

/// An explicit, swappable mapping table from source type names to
/// target type names. Lookup takes the first matching entry.
#[derive(Debug, Clone, PartialEq, Eq)]
pub struct TypeMapper {
    pub pairs: Vec<(String, String)>,
}

/// First-match lookup of `source` among the mapping pairs.
pub open spec fn lookup_type(pairs: Seq<(String, String)>, source: Seq<char>) -> Option<Seq<char>>
    decreases pairs.len(),
{
    if pairs.len() == 0 {
        None
    } else if pairs[0].0@ == source {
        Some(pairs[0].1@)
    } else {
        lookup_type(pairs.drop_first(), source)
    }
}

/// Length of the base type name: everything before the first `(`,
/// so that a size suffix such as a precision never takes part in
/// mapping decisions.
pub open spec fn base_type_len(s: Seq<char>) -> int
    decreases s.len(),
{
    if s.len() == 0 {
        0
    } else if s[0] == '(' {
        0
    } else {
        1 + base_type_len(s.drop_first())
    }
}

/// The base type name itself.
pub open spec fn base_type(s: Seq<char>) -> Seq<char> {
    s.subrange(0, base_type_len(s))
}

/// A column maps under the given pairs and policy: either the policy
/// falls back to text, or its base type name has an entry.
pub open spec fn column_maps(
    pairs: Seq<(String, String)>,
    policy: TypePolicy,
    source: Seq<char>,
) -> bool {
    policy is FallbackToText || lookup_type(pairs, base_type(source)) is Some
}

/// The target type a column resolves to, when `column_maps` holds.
pub open spec fn resolved_type(
    pairs: Seq<(String, String)>,
    policy: TypePolicy,
    source: Seq<char>,
) -> Seq<char> {
    match lookup_type(pairs, base_type(source)) {
        Some(t) => t,
        None => "text"@,
    }
}

proof fn lemma_base_type_len_bounds(s: Seq<char>)
    ensures
        0 <= base_type_len(s) <= s.len(),
        forall|j: int| 0 <= j < base_type_len(s) ==> s[j] != '(',
        base_type_len(s) < s.len() ==> s[base_type_len(s)] == '(',
    decreases s.len(),
{
    if s.len() != 0 && s[0] != '(' {
        lemma_base_type_len_bounds(s.drop_first());
        assert forall|j: int| 0 <= j < base_type_len(s) implies s[j] != '(' by {
            if j > 0 {
                assert(s.drop_first()[j - 1] == s[j]);
            }
        }
    }
}

proof fn lemma_lookup_skip(pairs: Seq<(String, String)>, source: Seq<char>, i: int)
    requires
        0 <= i <= pairs.len(),
        forall|j: int| 0 <= j < i ==> pairs[j].0@ != source,
    ensures
        lookup_type(pairs, source) == lookup_type(pairs.skip(i), source),
    decreases i,
{
    if i > 0 {
        assert(pairs[0].0@ != source);
        assert(lookup_type(pairs, source) == lookup_type(pairs.drop_first(), source));
        assert forall|j: int| 0 <= j < i - 1 implies pairs.drop_first()[j].0@ != source by {
            assert(pairs.drop_first()[j] == pairs[j + 1]);
        }
        lemma_lookup_skip(pairs.drop_first(), source, i - 1);
        assert(pairs.drop_first().skip(i - 1) =~= pairs.skip(i));
    } else {
        assert(pairs.skip(0) =~= pairs);
    }
}

impl TypeMapper {
    /// Wraps an explicit mapping table.
    pub fn new(pairs: Vec<(String, String)>) -> (r: TypeMapper)
        ensures
            r.pairs == pairs,
    {
        TypeMapper { pairs }
    }

    /// Looks `source` up among the pairs, first match first.
    pub fn map_type(&self, source: &String) -> (r: Option<String>)
        ensures
            (r is Some) == (lookup_type(self.pairs@, source@) is Some),
            r matches Some(t) ==> lookup_type(self.pairs@, source@) == Some(t@),
    {
        let n = self.pairs.len();
        for i in 0..n
            invariant
                n == self.pairs@.len(),
                forall|j: int| 0 <= j < i ==> self.pairs@[j].0@ != source@,
        {
            let p = &self.pairs[i];
            if p.0 == *source {
                proof {
                    lemma_lookup_skip(self.pairs@, source@, i as int);
                    assert(self.pairs@.skip(i as int)[0] == self.pairs@[i as int]);
                }
                return Some(p.1.clone());
            }
        }
        proof {
            lemma_lookup_skip(self.pairs@, source@, n as int);
            assert(self.pairs@.skip(n as int) =~= Seq::<(String, String)>::empty());
        }
        None
    }
}

/// Cuts a declared type down to its base name: everything before the
/// first `(`, so `NUMERIC(10,2)` resolves like `NUMERIC`.
pub fn base_type_name(s: &str) -> (r: String)
    ensures
        r@ == base_type(s@),
{
    let n = s.unicode_len();
    let mut cut: usize = n;
    let mut found = false;
    let mut i: usize = 0;
    while i < n
        invariant
            n == s@.len(),
            i <= n,
            found ==> cut < n && s@[cut as int] == '(' && forall|j: int|
                0 <= j < cut ==> s@[j] != '(',
            !found ==> cut == n && forall|j: int| 0 <= j < i ==> s@[j] != '(',
        decreases n - i,
    {
        if !found && s.get_char(i) == '(' {
            found = true;
            cut = i;
        }
        i = i + 1;
    }
    proof {
        lemma_base_type_len_bounds(s@);
        assert(base_type_len(s@) == cut as int);
    }
    let base = s.substring_char(0, cut);
    base.to_owned()
}

/// Resolves one column's target type under the mapper and policy.
///
/// Returns `Ok` exactly when the column maps (an entry exists for its
/// base type name, or the policy falls back to text); otherwise an
/// `UnsupportedType` error naming the table and the column.
pub fn resolve_column_type(
    mapper: &TypeMapper,
    policy: TypePolicy,
    table: &String,
    col: &Column,
) -> (r: Result<String, MigrationError>)
    ensures
        (r is Ok) == column_maps(mapper.pairs@, policy, col.source_type@),
        r matches Ok(t) ==> t@ == resolved_type(mapper.pairs@, policy, col.source_type@),
        r matches Err(e) ==> (e matches MigrationError::UnsupportedType {
            table: et,
            column: ec,
            source_type: es,
        } && et@ == table@ && ec@ == col.name@ && es@ == col.source_type@),
{
    let base = base_type_name(col.source_type.as_str());
    match mapper.map_type(&base) {
        Some(t) => Ok(t),
        None => {
            if let TypePolicy::FallbackToText = policy {
                Ok(String::from_str("text"))
            } else {
                Err(
                    MigrationError::UnsupportedType {
                        table: table.clone(),
                        column: col.name.clone(),
                        source_type: col.source_type.clone(),
                    },
                )
            }
        },
    }
}

/// The default mapping table, one entry per source type family:
/// integer-like names to `int`, text-like names to `text`, date/time
/// names to `timestamp`, and exact-precision numerics to `decimal`.
pub open spec fn default_pairs(pairs: Seq<(String, String)>) -> bool {
    &&& pairs.len() == 9
    &&& pairs[0].0@ == "INTEGER"@ && pairs[0].1@ == "int"@
    &&& pairs[1].0@ == "INT"@ && pairs[1].1@ == "int"@
    &&& pairs[2].0@ == "TEXT"@ && pairs[2].1@ == "text"@
    &&& pairs[3].0@ == "NVARCHAR"@ && pairs[3].1@ == "text"@
    &&& pairs[4].0@ == "VARCHAR"@ && pairs[4].1@ == "text"@
    &&& pairs[5].0@ == "DATETIME"@ && pairs[5].1@ == "timestamp"@
    &&& pairs[6].0@ == "DATE"@ && pairs[6].1@ == "timestamp"@
    &&& pairs[7].0@ == "NUMERIC"@ && pairs[7].1@ == "decimal"@
    &&& pairs[8].0@ == "REAL"@ && pairs[8].1@ == "decimal"@
}

/// Builds the default mapping table.
pub fn default_mapper() -> (r: TypeMapper)
    ensures
        default_pairs(r.pairs@),
{
    let mut pairs: Vec<(String, String)> = Vec::new();
    pairs.push((String::from_str("INTEGER"), String::from_str("int")));
    pairs.push((String::from_str("INT"), String::from_str("int")));
    pairs.push((String::from_str("TEXT"), String::from_str("text")));
    pairs.push((String::from_str("NVARCHAR"), String::from_str("text")));
    pairs.push((String::from_str("VARCHAR"), String::from_str("text")));
    pairs.push((String::from_str("DATETIME"), String::from_str("timestamp")));
    pairs.push((String::from_str("DATE"), String::from_str("timestamp")));
    pairs.push((String::from_str("NUMERIC"), String::from_str("decimal")));
    pairs.push((String::from_str("REAL"), String::from_str("decimal")));
    TypeMapper { pairs }
}

} // verus!

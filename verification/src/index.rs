//! Figures about an uploaded index: how many files and units it covers.

use vstd::prelude::*;
use crate::models::CodeUnitUpload;

verus! {

broadcast use vstd::seq_lib::group_seq_properties;

/// The file path of each unit, in order.
pub open spec fn file_paths(units: Seq<CodeUnitUpload>) -> Seq<Seq<char>> {
    units.map_values(|u: CodeUnitUpload| u.file_path@)
}

/// The number of distinct file paths among the units.
pub open spec fn distinct_file_count(units: Seq<CodeUnitUpload>) -> nat {
    file_paths(units).to_set().len()
}

/// The strings as character sequences.
pub open spec fn strings_view(v: Seq<String>) -> Seq<Seq<char>> {
    v.map_values(|s: String| s@)
}

/// Whether the list holds the string.
fn holds_string(v: &Vec<String>, s: &String) -> (r: bool)
    ensures
        r == strings_view(v@).contains(s@),
{
    let n = v.len();
    for i in 0..n
        invariant
            n == v@.len(),
            forall|j: int| 0 <= j < i ==> v@[j]@ != s@,
    {
        if v[i] == *s {
            assert(strings_view(v@)[i as int] == s@);
            return true;
        }
    }
    assert forall|j: int| 0 <= j < strings_view(v@).len() implies strings_view(v@)[j] != s@ by {
        assert(v@[j]@ != s@);
    }
    false
}

/// The number of distinct file paths among the units.
pub fn count_files(units: &Vec<CodeUnitUpload>) -> (r: usize)
    ensures
        r == distinct_file_count(units@),
{
    let mut seen: Vec<String> = Vec::new();
    let n = units.len();
    for i in 0..n
        invariant
            n == units@.len(),
            seen@.len() <= i,
            strings_view(seen@).no_duplicates(),
            strings_view(seen@).to_set() == file_paths(units@.take(i as int)).to_set(),
    {
        let p = &units[i].file_path;
        let ghost before = strings_view(seen@);
        assert(file_paths(units@.take(i + 1)) =~= file_paths(units@.take(i as int)).push(p@));
        proof {
            file_paths(units@.take(i as int)).lemma_push_to_set_commute(p@);
            before.lemma_push_to_set_commute(p@);
        }
        if !holds_string(&seen, p) {
            seen.push(p.clone());
            assert(strings_view(seen@) =~= before.push(p@));
            assert(strings_view(seen@).no_duplicates()) by {
                assert forall|a: int, b: int|
                    0 <= a < b < strings_view(seen@).len() implies strings_view(seen@)[a]
                    != strings_view(seen@)[b] by {
                    if b == before.len() {
                        assert(before[a] == strings_view(seen@)[a]);
                        assert(before.contains(before[a]));
                    }
                }
            }
        } else {
            assert(before.to_set().insert(p@) =~= before.to_set());
        }
    }
    assert(units@.take(n as int) =~= units@);
    proof {
        strings_view(seen@).unique_seq_to_set();
    }
    seen.len()
}

/// An index never covers more files than it has units.
pub proof fn lemma_files_at_most_units(units: Seq<CodeUnitUpload>)
    ensures
        distinct_file_count(units) <= units.len(),
{
    file_paths(units).lemma_cardinality_of_set();
}

/// The unit count as the statistics store it (`as u32`).
pub fn unit_count(units: &Vec<CodeUnitUpload>) -> (r: u32)
    ensures
        r == units@.len() as u32,
{
    #[verifier::truncate]
    (units.len() as u32)
}

} // verus!

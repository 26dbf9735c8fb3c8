//! Text search over the code units of an index.

use vstd::prelude::*;
use crate::models::CodeUnitUpload;
use crate::text::{chars_of, contains, contains_seq, lowercase, to_lowercase};

verus! {

/// Number of results when a search names none.
pub const DEFAULT_MAX_RESULTS: u32 = 15;

/// Largest number of results a search returns.
pub const MAX_RESULTS_CAP: u32 = 50;

/// Where the query was found in a unit: its code ranks above its path.
#[derive(Debug, Clone, Copy, PartialEq, Eq, Structural)]
pub enum MatchKind {
    Code,
    Path,
}

/// One search result.
#[derive(Debug, Clone, PartialEq, Eq)]
pub struct SearchHit {
    pub file_path: String,
    pub line_number: u32,
    pub snippet: String,
    pub kind: MatchKind,
}

impl View for SearchHit {
    type V = (Seq<char>, u32, Seq<char>, MatchKind);

    open spec fn view(&self) -> Self::V {
        (self.file_path@, self.line_number, self.snippet@, self.kind)
    }
}

/// The hits as plain values.
pub open spec fn hits_view(hits: Seq<SearchHit>) -> Seq<(Seq<char>, u32, Seq<char>, MatchKind)> {
    hits.map_values(|h: SearchHit| h@)
}

/// The hit that a unit gives.
pub open spec fn hit_of(u: CodeUnitUpload, kind: MatchKind) -> (Seq<char>, u32, Seq<char>, MatchKind) {
    (u.file_path@, u.line_number, u.code@, kind)
}

/// The lowercased code of the unit holds the (lowercased) query.
pub open spec fn code_matches(u: CodeUnitUpload, q: Seq<char>) -> bool {
    contains_seq(lowercase(u.code@), q)
}

/// The unit matches by its path alone.
pub open spec fn path_matches(u: CodeUnitUpload, q: Seq<char>) -> bool {
    !code_matches(u, q) && contains_seq(lowercase(u.file_path@), q)
}

/// The hits of the given kind, in the order of the units.
pub open spec fn hits_of_kind(units: Seq<CodeUnitUpload>, q: Seq<char>, kind: MatchKind) -> Seq<
    (Seq<char>, u32, Seq<char>, MatchKind),
>
    decreases units.len(),
{
    if units.len() == 0 {
        Seq::empty()
    } else {
        let u = units.last();
        let found = match kind {
            MatchKind::Code => code_matches(u, q),
            MatchKind::Path => path_matches(u, q),
        };
        hits_of_kind(units.drop_last(), q, kind) + if found {
            seq![hit_of(u, kind)]
        } else {
            Seq::empty()
        }
    }
}

/// All hits, best first: code matches, then path matches, each in unit order
/// (a stable sort by descending score).
pub open spec fn ranked_hits(units: Seq<CodeUnitUpload>, q: Seq<char>) -> Seq<
    (Seq<char>, u32, Seq<char>, MatchKind),
> {
    hits_of_kind(units, q, MatchKind::Code) + hits_of_kind(units, q, MatchKind::Path)
}

/// Every hit of a kind comes from a unit that matches in that way.
pub proof fn lemma_hits_of_kind_sound(units: Seq<CodeUnitUpload>, q: Seq<char>, kind: MatchKind, i: int)
    requires
        0 <= i < hits_of_kind(units, q, kind).len(),
    ensures
        exists|j: int|
            0 <= j < units.len() && hits_of_kind(units, q, kind)[i] == hit_of(#[trigger] units[j], kind)
                && match kind {
                MatchKind::Code => code_matches(units[j], q),
                MatchKind::Path => path_matches(units[j], q),
            },
    decreases units.len(),
{
    let rest = hits_of_kind(units.drop_last(), q, kind);
    if i < rest.len() {
        lemma_hits_of_kind_sound(units.drop_last(), q, kind, i);
        let j = choose|j: int|
            0 <= j < units.drop_last().len() && rest[i] == hit_of(
                #[trigger] units.drop_last()[j],
                kind,
            ) && match kind {
                MatchKind::Code => code_matches(units.drop_last()[j], q),
                MatchKind::Path => path_matches(units.drop_last()[j], q),
            };
        assert(units.drop_last()[j] == units[j]);
    } else {
        let j = units.len() - 1;
        assert(units[j] == units.last());
    }
}

/// Every search hit holds the lowercased query in the lowercased code of
/// its unit (a code hit) or, failing that, in its path (a path hit), and
/// shows that unit.
pub proof fn lemma_ranked_hits_sound(units: Seq<CodeUnitUpload>, q: Seq<char>, i: int)
    requires
        0 <= i < ranked_hits(units, q).len(),
    ensures
        exists|j: int|
            0 <= j < units.len() && (ranked_hits(units, q)[i] == hit_of(
                #[trigger] units[j],
                MatchKind::Code,
            ) && code_matches(units[j], q) || ranked_hits(units, q)[i] == hit_of(
                units[j],
                MatchKind::Path,
            ) && path_matches(units[j], q)),
{
    let code = hits_of_kind(units, q, MatchKind::Code);
    if i < code.len() {
        lemma_hits_of_kind_sound(units, q, MatchKind::Code, i);
    } else {
        lemma_hits_of_kind_sound(units, q, MatchKind::Path, i - code.len());
    }
}

/// The first `max` hits of `ranked_hits` for the lowercased query.
pub open spec fn text_search_spec(units: Seq<CodeUnitUpload>, query: Seq<char>, max: nat) -> Seq<
    (Seq<char>, u32, Seq<char>, MatchKind),
> {
    let all = ranked_hits(units, lowercase(query));
    if all.len() <= max {
        all
    } else {
        all.take(max as int)
    }
}

/// Each unit gives at most one hit, so there are no more hits than units.
pub proof fn lemma_hit_count(units: Seq<CodeUnitUpload>, q: Seq<char>)
    ensures
        hits_of_kind(units, q, MatchKind::Code).len() + hits_of_kind(units, q, MatchKind::Path).len()
            <= units.len(),
    decreases units.len(),
{
    if units.len() > 0 {
        lemma_hit_count(units.drop_last(), q);
    }
}

/// Every hit of a kind carries that kind.
pub proof fn lemma_hits_have_kind(units: Seq<CodeUnitUpload>, q: Seq<char>, kind: MatchKind, k: int)
    requires
        0 <= k < hits_of_kind(units, q, kind).len(),
    ensures
        hits_of_kind(units, q, kind)[k].3 == kind,
    decreases units.len(),
{
    let rest = hits_of_kind(units.drop_last(), q, kind);
    if k < rest.len() {
        lemma_hits_have_kind(units.drop_last(), q, kind, k);
    }
}

/// A unit that matches in a way gives a hit of that kind.
pub proof fn lemma_hit_present(units: Seq<CodeUnitUpload>, q: Seq<char>, kind: MatchKind, i: int)
    requires
        0 <= i < units.len(),
        match kind {
            MatchKind::Code => code_matches(units[i], q),
            MatchKind::Path => path_matches(units[i], q),
        },
    ensures
        exists|k: int|
            0 <= k < hits_of_kind(units, q, kind).len() && #[trigger] hits_of_kind(units, q, kind)[k]
                == hit_of(units[i], kind),
    decreases units.len(),
{
    let rest = hits_of_kind(units.drop_last(), q, kind);
    if i < units.len() - 1 {
        assert(units.drop_last()[i] == units[i]);
        lemma_hit_present(units.drop_last(), q, kind, i);
        let k = choose|k: int| 0 <= k < rest.len() && #[trigger] rest[k] == hit_of(units[i], kind);
        assert(hits_of_kind(units, q, kind)[k] == rest[k]);
    } else {
        assert(units.last() == units[i]);
        assert(hits_of_kind(units, q, kind)[rest.len() as int] == hit_of(units[i], kind));
    }
}

/// Completeness of the search: when the limit admits every unit, a unit
/// whose lowercased code holds the lowercased query is among the results
/// as a code match, and a unit whose lowercased code does not hold it but
/// whose lowercased file path does is among the results as a path match.
pub proof fn law_text_search_complete(units: Seq<CodeUnitUpload>, query: Seq<char>, max: nat, i: int)
    requires
        0 <= i < units.len(),
        max >= units.len(),
    ensures
        contains_seq(lowercase(units[i].code@), lowercase(query)) ==> exists|k: int|
            0 <= k < text_search_spec(units, query, max).len() && #[trigger] text_search_spec(
                units,
                query,
                max,
            )[k] == (units[i].file_path@, units[i].line_number, units[i].code@, MatchKind::Code),
        !contains_seq(lowercase(units[i].code@), lowercase(query)) && contains_seq(
            lowercase(units[i].file_path@),
            lowercase(query),
        ) ==> exists|k: int|
            0 <= k < text_search_spec(units, query, max).len() && #[trigger] text_search_spec(
                units,
                query,
                max,
            )[k] == (units[i].file_path@, units[i].line_number, units[i].code@, MatchKind::Path),
{
    let q = lowercase(query);
    let code = hits_of_kind(units, q, MatchKind::Code);
    let path = hits_of_kind(units, q, MatchKind::Path);
    let res = text_search_spec(units, query, max);
    lemma_hit_count(units, q);
    assert(res == code + path);
    if contains_seq(lowercase(units[i].code@), q) {
        lemma_hit_present(units, q, MatchKind::Code, i);
        let k = choose|k: int| 0 <= k < code.len() && #[trigger] code[k] == hit_of(units[i], MatchKind::Code);
        assert(res[k] == code[k]);
    } else if contains_seq(lowercase(units[i].file_path@), q) {
        lemma_hit_present(units, q, MatchKind::Path, i);
        let k = choose|k: int| 0 <= k < path.len() && #[trigger] path[k] == hit_of(units[i], MatchKind::Path);
        assert(res[code.len() + k] == path[k]);
    }
}

/// Soundness of the search: every result shows a unit, as a code match
/// only where the unit's lowercased code holds the lowercased query, and
/// as a path match only where its lowercased code does not and its
/// lowercased file path does.
pub proof fn law_text_search_sound(units: Seq<CodeUnitUpload>, query: Seq<char>, max: nat, k: int)
    requires
        0 <= k < text_search_spec(units, query, max).len(),
    ensures
        exists|j: int|
            0 <= j < units.len() && {
                let h = text_search_spec(units, query, max)[k];
                let u = #[trigger] units[j];
                &&& h.0 == u.file_path@
                &&& h.1 == u.line_number
                &&& h.2 == u.code@
                &&& h.3 == MatchKind::Code ==> contains_seq(lowercase(u.code@), lowercase(query))
                &&& h.3 == MatchKind::Path ==> !contains_seq(lowercase(u.code@), lowercase(query))
                    && contains_seq(lowercase(u.file_path@), lowercase(query))
            },
{
    let q = lowercase(query);
    let all = ranked_hits(units, q);
    let res = text_search_spec(units, query, max);
    assert(res[k] == all[k]);
    lemma_ranked_hits_sound(units, q, k);
    let j = choose|j: int|
        0 <= j < units.len() && (all[k] == hit_of(#[trigger] units[j], MatchKind::Code) && code_matches(
            units[j],
            q,
        ) || all[k] == hit_of(units[j], MatchKind::Path) && path_matches(units[j], q));
    assert(units[j] == units[j]);
}

/// Ranking: the results are at most `max`, and no code match comes after
/// a path match.
pub proof fn law_text_search_order(units: Seq<CodeUnitUpload>, query: Seq<char>, max: nat, a: int, b: int)
    requires
        0 <= a < b < text_search_spec(units, query, max).len(),
        text_search_spec(units, query, max)[a].3 == MatchKind::Path,
    ensures
        text_search_spec(units, query, max)[b].3 == MatchKind::Path,
        text_search_spec(units, query, max).len() <= max,
{
    let q = lowercase(query);
    let code = hits_of_kind(units, q, MatchKind::Code);
    let path = hits_of_kind(units, q, MatchKind::Path);
    let all = code + path;
    let res = text_search_spec(units, query, max);
    assert(res[a] == all[a]);
    assert(res[b] == all[b]);
    if a < code.len() {
        lemma_hits_have_kind(units, q, MatchKind::Code, a);
    }
    lemma_hits_have_kind(units, q, MatchKind::Path, b - code.len());
}

/// The number of results a search asks for: the given one or the default,
/// at most the cap.
pub open spec fn result_limit(requested: Option<u32>) -> nat {
    let r = match requested {
        Some(n) => n,
        None => DEFAULT_MAX_RESULTS,
    };
    if r < MAX_RESULTS_CAP {
        r as nat
    } else {
        MAX_RESULTS_CAP as nat
    }
}

/// How many results a search returns at most.
pub fn effective_max_results(requested: Option<u32>) -> (r: usize)
    ensures
        r == result_limit(requested),
        r <= MAX_RESULTS_CAP,
{
    let n = match requested {
        Some(n) => n,
        None => DEFAULT_MAX_RESULTS,
    };
    if n < MAX_RESULTS_CAP {
        n as usize
    } else {
        MAX_RESULTS_CAP as usize
    }
}

/// Copy of a string.
fn clone_string(s: &String) -> (r: String)
    ensures
        r@ == s@,
{
    s.clone()
}

/// The hit for a unit.
fn make_hit(u: &CodeUnitUpload, kind: MatchKind) -> (r: SearchHit)
    ensures
        r@ == hit_of(*u, kind),
{
    SearchHit {
        file_path: clone_string(&u.file_path),
        line_number: u.line_number,
        snippet: clone_string(&u.code),
        kind,
    }
}

/// Case-insensitive substring search over the code, then the path, of each
/// unit; code matches rank first, each group keeps the order of the units,
/// and at most `max_results` hits come back.
pub fn text_search(units: &Vec<CodeUnitUpload>, query: &str, max_results: usize) -> (r: Vec<SearchHit>)
    ensures
        hits_view(r@) == text_search_spec(units@, query@, max_results as nat),
        r@.len() <= max_results,
{
    let q = to_lowercase(query);
    let qc = chars_of(q.as_str());
    let ghost qs = lowercase(query@);
    let mut code_hits: Vec<SearchHit> = Vec::new();
    let mut path_hits: Vec<SearchHit> = Vec::new();
    let n = units.len();
    for i in 0..n
        invariant
            n == units@.len(),
            qc@ == qs,
            qs == lowercase(query@),
            hits_view(code_hits@) == hits_of_kind(units@.take(i as int), qs, MatchKind::Code),
            hits_view(path_hits@) == hits_of_kind(units@.take(i as int), qs, MatchKind::Path),
    {
        let u = &units[i];
        let ghost pre = units@.take(i as int);
        let ghost next = units@.take(i + 1);
        assert(next.drop_last() == pre);
        assert(next.last() == *u);
        let lc = chars_of(to_lowercase(u.code.as_str()).as_str());
        let ghost old_code = code_hits@;
        let ghost old_path = path_hits@;
        if contains(&lc, &qc) {
            let h = make_hit(u, MatchKind::Code);
            code_hits.push(h);
            assert(hits_view(code_hits@) =~= hits_view(old_code).push(h@));
            assert(path_hits@ == old_path);
        } else {
            let lp = chars_of(to_lowercase(u.file_path.as_str()).as_str());
            if contains(&lp, &qc) {
                let h = make_hit(u, MatchKind::Path);
                path_hits.push(h);
                assert(hits_view(path_hits@) =~= hits_view(old_path).push(h@));
            }
        }
    }
    assert(units@.take(n as int) == units@);
    let ghost cv = code_hits@;
    let ghost pv = path_hits@;
    code_hits.append(&mut path_hits);
    assert(hits_view(code_hits@) =~= hits_view(cv) + hits_view(pv));
    code_hits.truncate(max_results);
    assert(hits_view(code_hits@) =~= text_search_spec(units@, query@, max_results as nat));
    code_hits
}

} // verus!
